//! Positions in a text.
//!
//! Positions count the bytes of the text in UTF-8.
pub mod laws;

use crate::text::texts;
use vstd::prelude::*;
use vstd::utf8::{char_is_scalar, encode_scalar, encode_utf8};

verus! {

/// The number of bytes of a character in UTF-8.
pub open spec fn char_width(c: char) -> nat {
    if c as u32 <= 0x7F {
        1
    } else if c as u32 <= 0x7FF {
        2
    } else if c as u32 <= 0xFFFF {
        3
    } else {
        4
    }
}

/// The number of bytes of a text in UTF-8.
pub open spec fn utf8_len(text: Seq<char>) -> nat
    decreases text.len(),
{
    if text.len() == 0 {
        0
    } else {
        utf8_len(text.drop_last()) + char_width(text.last())
    }
}

/// The number of characters in front of a position, if the position lies between two characters
/// or at an end of the text.
pub open spec fn chars_before(text: Seq<char>, offset: nat) -> Option<nat>
    decreases text.len(),
{
    if utf8_len(text) == offset {
        Some(text.len())
    } else if text.len() == 0 {
        None
    } else {
        chars_before(text.drop_last(), offset)
    }
}

/// The part of a text from one position up to another, if it consists of whole characters.
pub open spec fn slice(text: Seq<char>, start: nat, end: nat) -> Option<Seq<char>> {
    match (chars_before(text, start), chars_before(text, end)) {
        (Some(from), Some(to)) => if from <= to {
            Some(text.subrange(from as int, to as int))
        } else {
            None
        },
        _ => None,
    }
}

/// The number of line breaks in a text.
pub open spec fn newlines(text: Seq<char>) -> nat
    decreases text.len(),
{
    if text.len() == 0 {
        0
    } else if text.last() == '\n' {
        newlines(text.drop_last()) + 1
    } else {
        newlines(text.drop_last())
    }
}

/// The position of the last line break in a text, or zero if there is none.
pub open spec fn last_newline(text: Seq<char>) -> nat
    decreases text.len(),
{
    if text.len() == 0 {
        0
    } else if text.last() == '\n' {
        utf8_len(text.drop_last())
    } else {
        last_newline(text.drop_last())
    }
}

/// The text in front of a position, or the empty text if the position splits a character or lies
/// beyond the text.
pub open spec fn text_before(text: Seq<char>, offset: nat) -> Seq<char> {
    match chars_before(text, offset) {
        Some(n) => text.take(n as int),
        None => Seq::empty(),
    }
}

/// The line and the column of a position. The first line is line one.
pub open spec fn line_col(text: Seq<char>, offset: nat) -> (nat, int) {
    let before = text_before(text, offset);
    (newlines(before) + 1, offset - last_newline(before) + 1)
}

/// A line without the carriage return in front of its line feed.
pub open spec fn without_return(line: Seq<char>) -> Seq<char> {
    if line.len() > 0 && line.last() == '\r' {
        line.drop_last()
    } else {
        line
    }
}

/// The lines of a text that end with a line feed, and the text after the last line feed.
pub open spec fn split_lines(text: Seq<char>) -> (Seq<Seq<char>>, Seq<char>)
    decreases text.len(),
{
    if text.len() == 0 {
        (Seq::empty(), Seq::empty())
    } else {
        let (done, current) = split_lines(text.drop_last());
        if text.last() == '\n' {
            (done.push(without_return(current)), Seq::empty())
        } else {
            (done, current.push(text.last()))
        }
    }
}

/// The lines of a text. The line feed at the end of the last line is optional.
pub open spec fn lines(text: Seq<char>) -> Seq<Seq<char>> {
    let (done, current) = split_lines(text);
    if current.len() == 0 {
        done
    } else {
        done.push(current)
    }
}

/// The length of the encoding of a text is the sum of the widths of its characters.
pub proof fn lemma_encoding(first: Seq<char>, second: Seq<char>)
    ensures
        encode_utf8(first + second).len() == encode_utf8(first).len() + encode_utf8(second).len(),
    decreases first.len(),
{
    if first.len() == 0 {
        assert(first + second =~= second);
    } else {
        lemma_encoding(first.drop_first(), second);
        assert((first + second).drop_first() =~= first.drop_first() + second);
    }
}

/// The number of bytes of a text is the length of its encoding.
pub proof fn lemma_utf8_len(text: Seq<char>)
    ensures
        encode_utf8(text).len() == utf8_len(text),
    decreases text.len(),
{
    if text.len() > 0 {
        let last = seq![text.last()];
        lemma_utf8_len(text.drop_last());
        lemma_encoding(text.drop_last(), last);
        assert(text =~= text.drop_last() + last);
        char_is_scalar(text.last());
        assert(encode_scalar(text.last() as u32).len() == char_width(text.last()));
        assert(last.drop_first() =~= Seq::empty());
        assert(encode_utf8(last) =~= encode_scalar(text.last() as u32)) by {
            reveal_with_fuel(encode_utf8, 2);
        }
    }
}

/// A longer text has more bytes.
pub proof fn lemma_monotone(text: Seq<char>, n: int)
    requires
        0 <= n <= text.len(),
    ensures
        n <= utf8_len(text.take(n)) <= utf8_len(text),
        n < text.len() ==> utf8_len(text.take(n)) < utf8_len(text),
    decreases text.len(),
{
    if n == text.len() {
        assert(text.take(n) =~= text);
        if n > 0 {
            lemma_monotone(text.drop_last(), n - 1);
            assert(text.drop_last().take(n - 1) =~= text.drop_last());
        }
    } else {
        lemma_monotone(text.drop_last(), n);
        assert(text.drop_last().take(n) =~= text.take(n));
    }
}

/// The number of characters in front of a position is that of the beginning of the text with as
/// many bytes.
pub proof fn lemma_chars_before(text: Seq<char>, offset: nat)
    ensures
        match chars_before(text, offset) {
            Some(n) => n <= text.len() && utf8_len(text.take(n as int)) == offset,
            None => forall|n: int|
                0 <= n <= text.len() ==> utf8_len(#[trigger] text.take(n)) != offset,
        },
    decreases text.len(),
{
    assert(text.take(text.len() as int) =~= text);
    if utf8_len(text) != offset && text.len() > 0 {
        let shorter = text.drop_last();
        lemma_chars_before(shorter, offset);
        assert forall|n: int| 0 <= n <= shorter.len() implies #[trigger] text.take(n)
            == shorter.take(n) by {
            assert(text.take(n) =~= shorter.take(n));
        }
    }
}

/// There is only one beginning of a text with a given number of bytes.
pub proof fn lemma_unique(text: Seq<char>, n: int, offset: nat)
    requires
        0 <= n <= text.len(),
        utf8_len(text.take(n)) == offset,
    ensures
        chars_before(text, offset) == Some(n as nat),
{
    lemma_chars_before(text, offset);
    match chars_before(text, offset) {
        Some(m) => {
            let (low, high) = if m < n {
                (m as int, n)
            } else {
                (n, m as int)
            };
            lemma_monotone(text.take(high), low);
            assert(text.take(high).take(low) =~= text.take(low));
        },
        None => {},
    }
}

/// Compute the number of bytes of a character.
fn width_of(c: char) -> (width: usize)
    ensures
        width == char_width(c),
{
    let code: u32 = c as u32;
    if code <= 0x7F {
        1
    } else if code <= 0x7FF {
        2
    } else if code <= 0xFFFF {
        3
    } else {
        4
    }
}

/// Compute the number of bytes of a text.
pub fn text_len(text: &str) -> (n: usize)
    ensures
        n == utf8_len(text@),
{
    proof {
        lemma_utf8_len(text@);
    }
    text.as_bytes().len()
}

/// Count the characters in front of a position.
pub fn find_char(text: &str, offset: usize) -> (result: Option<usize>)
    ensures
        match result {
            Some(n) => chars_before(text@, offset as nat) == Some(n as nat) && n <= text@.len(),
            None => chars_before(text@, offset as nat) is None,
        },
{
    let total: usize = text_len(text);
    let mut n: usize = 0;
    let mut bytes: usize = 0;
    assert(text@.take(0) =~= Seq::empty());
    for c in it: text.chars()
        invariant
            it.seq() == text@,
            n == it.index(),
            total == utf8_len(text@),
            bytes == utf8_len(text@.take(n as int)),
            n <= bytes <= total,
            forall|m: int| 0 <= m < n ==> utf8_len(#[trigger] text@.take(m)) != offset,
    {
        if bytes == offset {
            proof {
                lemma_unique(text@, n as int, offset as nat);
            }
            return Some(n);
        }
        proof {
            lemma_monotone(text@, n + 1);
            assert(text@.take(n + 1).drop_last() =~= text@.take(n as int));
        }
        bytes = bytes + width_of(c);
        n = n + 1;
    }
    proof {
        lemma_chars_before(text@, offset as nat);
    }
    if bytes == offset {
        proof {
            lemma_unique(text@, n as int, offset as nat);
        }
        Some(n)
    } else {
        None
    }
}

/// Get the part of a text from one position up to another, if it consists of whole characters.
pub fn get_slice(text: &str, start: usize, end: usize) -> (result: Option<&str>)
    ensures
        match result {
            Some(part) => slice(text@, start as nat, end as nat) == Some(part@),
            None => slice(text@, start as nat, end as nat) is None,
        },
{
    let from: usize = find_char(text, start)?;
    let to: usize = find_char(text, end)?;
    if from <= to {
        Some(text.substring_char(from, to))
    } else {
        None
    }
}

/// Compute the line and the column of a position.
pub fn get_line_col(text: &str, offset: usize) -> (result: (usize, usize))
    requires
        offset < usize::MAX,
    ensures
        (result.0 as nat, result.1 as int) == line_col(text@, offset as nat),
        1 <= result.0 <= offset + 1,
        1 <= result.1 <= offset + 1,
{
    let n: usize = match find_char(text, offset) {
        Some(n) => n,
        None => {
            return (1, offset + 1);
        },
    };
    let mut line: usize = 1;
    let mut last: usize = 0;
    let mut i: usize = 0;
    let mut bytes: usize = 0;
    let prefix: &str = text.substring_char(0, n);
    proof {
        lemma_chars_before(text@, offset as nat);
        assert(prefix@ =~= text@.take(n as int));
        assert(prefix@.take(0) =~= Seq::empty());
    }
    for c in it: prefix.chars()
        invariant
            it.seq() == prefix@,
            utf8_len(prefix@) == offset,
            offset < usize::MAX,
            i == it.index(),
            bytes == utf8_len(prefix@.take(i as int)),
            line == newlines(prefix@.take(i as int)) + 1,
            last == last_newline(prefix@.take(i as int)),
            i <= bytes <= offset,
            last <= bytes,
            line <= i + 1,
    {
        proof {
            lemma_monotone(prefix@, i + 1);
            assert(prefix@.take(i + 1).drop_last() =~= prefix@.take(i as int));
            assert(prefix@.take(i + 1).last() == c);
        }
        if c == '\n' {
            line = line + 1;
            last = bytes;
        }
        bytes = bytes + width_of(c);
        i = i + 1;
    }
    assert(prefix@.take(i as int) =~= prefix@);
    (line, (offset - last) + 1)
}

/// Split a text into lines.
pub fn get_lines(text: &str) -> (result: Vec<String>)
    ensures
        texts(result@) == lines(text@),
{
    let mut done: Vec<String> = Vec::new();
    let mut start: usize = 0;
    let mut n: usize = 0;
    let ghost all = text@;
    let total: usize = text.unicode_len();
    assert(all.take(0) =~= Seq::empty());
    for c in it: text.chars()
        invariant
            it.seq() == all,
            all == text@,
            total == all.len(),
            n == it.index(),
            start <= n <= total,
            texts(done@) == split_lines(all.take(n as int)).0,
            all.subrange(start as int, n as int) == split_lines(all.take(n as int)).1,
    {
        let ghost before = done@;
        assert(all.take(n + 1).drop_last() =~= all.take(n as int));
        assert(all.take(n + 1).last() == c);
        if c == '\n' {
            let line: &str = text.substring_char(start, n);
            let line: &str = if n > start && line.get_char(n - start - 1) == '\r' {
                line.substring_char(0, n - start - 1)
            } else {
                line
            };
            assert(line@ =~= without_return(all.subrange(start as int, n as int)));
            done.push(line.to_owned());
            assert(texts(done@) =~= texts(before).push(line@));
            start = n + 1;
            assert(all.subrange(start as int, n + 1) =~= Seq::empty());
        } else {
            assert(all.subrange(start as int, n + 1) =~= all.subrange(start as int, n as int).push(
                c,
            ));
        }
        n = n + 1;
    }
    assert(all.take(n as int) =~= all);
    if start < n {
        let ghost before = done@;
        let line: &str = text.substring_char(start, n);
        done.push(line.to_owned());
        assert(texts(done@) =~= texts(before).push(line@));
    }
    done
}

/// A longer beginning of a text has at least as many line breaks. If it has no more, then its
/// last line break is the same.
pub proof fn lemma_newlines(text: Seq<char>, a: int, b: int)
    requires
        0 <= a <= b <= text.len(),
    ensures
        newlines(text.take(a)) <= newlines(text.take(b)),
        newlines(text.take(a)) == newlines(text.take(b)) ==> last_newline(text.take(a))
            == last_newline(text.take(b)),
    decreases b - a,
{
    if a < b {
        lemma_newlines(text, a, b - 1);
        assert(text.take(b).drop_last() =~= text.take(b - 1));
    }
}

} // verus!
