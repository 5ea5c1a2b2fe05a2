//! What lines and columns are.
use super::{
    chars_before, last_newline, lemma_chars_before, lemma_monotone, lemma_utf8_len, line_col, lines,
    newlines, slice, split_lines, text_before, utf8_len,
};
use vstd::prelude::*;
use vstd::utf8::encode_utf8;

verus! {

/// A position lies in front of a number of characters if and only if the encoding of the first
/// characters has as many bytes as the position says.
pub proof fn positions_count_bytes(text: Seq<char>, n: nat, offset: nat)
    ensures
        chars_before(text, offset) == Some(n) <==> n <= text.len() && encode_utf8(
            text.take(n as int),
        ).len() == offset,
{
    lemma_chars_before(text, offset);
    lemma_utf8_len(text.take(n as int));
    if n <= text.len() && utf8_len(text.take(n as int)) == offset {
        super::lemma_unique(text, n as int, offset);
    }
}

/// A part of a text consists of the characters between its positions.
pub proof fn slices_are_parts(a: Seq<char>, part: Seq<char>, b: Seq<char>)
    ensures
        slice(
            a + part + b,
            encode_utf8(a).len(),
            encode_utf8(a + part).len(),
        ) == Some(part),
{
    let text = a + part + b;
    let from = a.len();
    let to = (a + part).len();
    assert(text.take(from as int) =~= a);
    assert(text.take(to as int) =~= a + part);
    positions_count_bytes(text, from, encode_utf8(a).len());
    positions_count_bytes(text, to, encode_utf8(a + part).len());
    assert(text.subrange(from as int, to as int) =~= part);
}

/// The number of line breaks is the number of line feeds in the text.
pub proof fn line_breaks_are_counted(text: Seq<char>)
    ensures
        newlines(text) == text.to_multiset().count('\n'),
    decreases text.len(),
{
    text.to_multiset_ensures();
    if text.len() > 0 {
        let shorter = text.drop_last();
        line_breaks_are_counted(shorter);
        vstd::seq_lib::to_multiset_build(shorter, text.last());
        assert(text =~= shorter.push(text.last()));
    }
}

/// A text without line feeds has no line breaks.
proof fn lemma_no_newline(text: Seq<char>)
    requires
        !text.contains('\n'),
    ensures
        newlines(text) == 0,
        last_newline(text) == 0,
    decreases text.len(),
{
    if text.len() > 0 {
        assert(text[text.len() - 1] == text.last());
        assert forall|i: int| 0 <= i < text.drop_last().len() implies text.drop_last()[i]
            != '\n' by {
            assert(text[i] != '\n');
        }
        lemma_no_newline(text.drop_last());
    }
}

/// Behind a line feed and characters that are none, the last line break is that line feed.
proof fn lemma_last_newline(a: Seq<char>, b: Seq<char>)
    requires
        !b.contains('\n'),
    ensures
        last_newline(a.push('\n') + b) == utf8_len(a),
        newlines(a.push('\n') + b) == newlines(a) + 1,
    decreases b.len(),
{
    let text = a.push('\n') + b;
    if b.len() == 0 {
        assert(text =~= a.push('\n'));
        assert(text.drop_last() =~= a);
    } else {
        assert(b[b.len() - 1] == b.last());
        assert forall|i: int| 0 <= i < b.drop_last().len() implies b.drop_last()[i] != '\n' by {
            assert(b[i] != '\n');
        }
        lemma_last_newline(a, b.drop_last());
        assert(text.drop_last() =~= a.push('\n') + b.drop_last());
        assert(text.last() == b.last());
    }
}

/// The text in front of a position between two parts of a text is the first part.
proof fn lemma_text_before(a: Seq<char>, b: Seq<char>)
    ensures
        text_before(a + b, encode_utf8(a).len()) == a,
{
    assert((a + b).take(a.len() as int) =~= a);
    positions_count_bytes(a + b, a.len(), encode_utf8(a).len());
}

/// A position with no line feed in front of it is in the first line. Its column is one more than
/// the number of bytes in front of it.
pub proof fn places_in_first_line(before: Seq<char>, behind: Seq<char>)
    requires
        !before.contains('\n'),
    ensures
        line_col(before + behind, encode_utf8(before).len()) == (
            1nat,
            encode_utf8(before).len() as int + 1,
        ),
{
    lemma_text_before(before, behind);
    lemma_no_newline(before);
}

/// A position behind a line feed, with no other line feed between them, is one line below the line
/// feed. Its column is one more than the number of bytes from the line feed on.
pub proof fn places_in_later_lines(above: Seq<char>, before: Seq<char>, behind: Seq<char>)
    requires
        !before.contains('\n'),
    ensures
        line_col(
            above.push('\n') + before + behind,
            encode_utf8(above.push('\n') + before).len(),
        ) == (
            above.to_multiset().count('\n') + 2,
            encode_utf8(above.push('\n') + before).len() - encode_utf8(above).len() + 1,
        ),
{
    let front = above.push('\n') + before;
    lemma_text_before(front, behind);
    lemma_last_newline(above, before);
    line_breaks_are_counted(above);
    lemma_utf8_len(above);
    lemma_utf8_len(front);
}

/// Behind the start of a line, the lines of the rest of a text follow.
proof fn lemma_split(line: Seq<char>, rest: Seq<char>)
    requires
        !line.contains('\n'),
    ensures
        split_lines(line) == (Seq::<Seq<char>>::empty(), line),
        split_lines(line.push('\n') + rest) == (
            seq![super::without_return(line)] + split_lines(rest).0,
            split_lines(rest).1,
        ),
    decreases line.len() + rest.len(),
{
    if rest.len() > 0 {
        let text = line.push('\n') + rest;
        lemma_split(line, rest.drop_last());
        assert(text.drop_last() =~= line.push('\n') + rest.drop_last());
        assert(text.last() == rest.last());
        let (done, current) = split_lines(rest.drop_last());
        if rest.last() == '\n' {
            assert((seq![super::without_return(line)] + done).push(super::without_return(current))
                =~= seq![super::without_return(line)] + done.push(
                super::without_return(current),
            ));
        }
    } else {
        if line.len() > 0 {
            let shorter = line.drop_last();
            assert(line[line.len() - 1] == line.last());
            assert forall|i: int| 0 <= i < shorter.len() implies shorter[i] != '\n' by {
                assert(line[i] != '\n');
            }
            lemma_split(shorter, Seq::empty());
            assert(shorter.push(line.last()) =~= line);
        } else {
            assert(line =~= Seq::empty());
        }
        let text = line.push('\n') + rest;
        assert(text =~= line.push('\n'));
        assert(text.drop_last() =~= line);
        assert(text.last() == '\n');
        assert(split_lines(line) == (Seq::<Seq<char>>::empty(), line));
        assert(split_lines(text).0 =~= seq![super::without_return(line)]);
        assert(seq![super::without_return(line)] + split_lines(rest).0 =~= seq![
            super::without_return(line),
        ]);
    }
}

/// The first line of a text ends at the first line feed, and the lines of the text behind it
/// follow. A carriage return in front of the line feed does not belong to the line. Without a line
/// feed the text is one line, unless it is empty.
pub proof fn lines_end_at_line_feeds(line: Seq<char>, rest: Seq<char>)
    requires
        !line.contains('\n'),
    ensures
        lines(line) == if line.len() == 0 {
            Seq::<Seq<char>>::empty()
        } else {
            seq![line]
        },
        lines(line.push('\n') + rest) == seq![
            if line.len() > 0 && line.last() == '\r' {
                line.drop_last()
            } else {
                line
            },
        ] + lines(rest),
{
    lemma_split(line, rest);
    let first = super::without_return(line);
    let (done, current) = split_lines(rest);
    assert(Seq::<Seq<char>>::empty().push(line) =~= seq![line]);
    assert((seq![first] + done).push(current) =~= seq![first] + done.push(current));
}

/// Between two positions in the same line there is no line feed.
proof fn lemma_same_line(text: Seq<char>, a: int, b: int)
    requires
        0 <= a <= b <= text.len(),
    ensures
        newlines(text.take(a)) <= newlines(text.take(b)),
        newlines(text.take(a)) == newlines(text.take(b)) ==> last_newline(text.take(a))
            == last_newline(text.take(b)),
    decreases b - a,
{
    if a < b {
        lemma_same_line(text, a, b - 1);
        assert(text.take(b).drop_last() =~= text.take(b - 1));
    }
}

/// In one line, columns are as far apart as positions.
pub proof fn columns_count_bytes(text: Seq<char>, start: nat, end: nat)
    requires
        start <= end,
        chars_before(text, start) is Some,
        chars_before(text, end) is Some,
        line_col(text, start).0 == line_col(text, end).0,
    ensures
        line_col(text, end).1 - line_col(text, start).1 == end - start,
{
    let a = chars_before(text, start)->0 as int;
    let b = chars_before(text, end)->0 as int;
    lemma_chars_before(text, start);
    lemma_chars_before(text, end);
    if b < a {
        lemma_monotone(text.take(a), b);
        assert(text.take(a).take(b) =~= text.take(b));
    }
    lemma_same_line(text, a, b);
}

} // verus!
