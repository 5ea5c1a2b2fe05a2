//! What texts that are put together look like.
use super::{decimal, digit_char, joined, repeated};
use crate::value::laws::{is_numeral, numerals_are_positional};
use crate::value::number;
use vstd::prelude::*;

verus! {

/// The digits of a number are read as the number.
proof fn lemma_decimal(n: nat)
    ensures
        number(decimal(n), 10) == Some(n),
        decimal(n).len() > 0,
        n > 0 ==> decimal(n)[0] != '0',
    decreases n,
{
    reveal_with_fuel(number, 2);
    if n < 10 {
        assert(decimal(n).drop_last() =~= Seq::empty());
    } else {
        lemma_decimal(n / 10);
        let text = decimal(n);
        assert(text.drop_last() =~= decimal(n / 10));
        assert(text.last() == digit_char(n % 10));
        assert(text[0] == decimal(n / 10)[0]);
    }
}

/// The decimal notation of a number is a decimal numeral of that number. It is not empty, and it
/// starts with zero only if the number is zero.
pub proof fn decimal_notation_denotes_number(n: nat)
    ensures
        is_numeral(decimal(n), 10, n as int),
        decimal(n).len() > 0,
        n > 0 ==> decimal(n)[0] != '0',
        n == 0 ==> decimal(n) == seq!['0'],
{
    lemma_decimal(n);
    numerals_are_positional(decimal(n), 10, n);
}

/// Different numbers have different decimal notations.
pub proof fn decimal_notation_is_unique(a: nat, b: nat)
    requires
        decimal(a) == decimal(b),
    ensures
        a == b,
{
    lemma_decimal(a);
    lemma_decimal(b);
}

/// Texts that are joined in two groups are joined.
pub proof fn joined_in_groups(a: Seq<Seq<char>>, b: Seq<Seq<char>>, separator: Seq<char>)
    requires
        a.len() > 0,
        b.len() > 0,
    ensures
        joined(a + b, separator) == joined(a, separator) + separator + joined(b, separator),
    decreases b.len(),
{
    let all = a + b;
    assert(all.drop_last() =~= a + b.drop_last());
    assert(all.last() == b.last());
    if b.len() == 1 {
        assert(b.drop_last() =~= Seq::empty());
        assert(a + b.drop_last() =~= a);
        assert(b.last() == b[0]);
    } else {
        joined_in_groups(a, b.drop_last(), separator);
        assert(joined(all, separator) =~= joined(a, separator) + separator + joined(b, separator));
    }
}

/// A single text is joined to itself, and two texts have the separator between them.
pub proof fn joined_texts(first: Seq<char>, second: Seq<char>, separator: Seq<char>)
    ensures
        joined(Seq::empty(), separator) == Seq::<char>::empty(),
        joined(seq![first], separator) == first,
        joined(seq![first, second], separator) == first + separator + second,
{
    assert(seq![first, second] =~= seq![first] + seq![second]);
    joined_in_groups(seq![first], seq![second], separator);
}

/// A character that is repeated fills a text of that length.
pub proof fn repeated_character(c: char, n: nat)
    ensures
        repeated(seq![c], n).len() == n,
        forall|i: int| 0 <= i < n ==> #[trigger] repeated(seq![c], n)[i] == c,
    decreases n,
{
    if n > 0 {
        repeated_character(c, (n - 1) as nat);
    }
}

/// Whether a text occurs in another one.
pub open spec fn occurs(text: Seq<char>, part: Seq<char>) -> bool {
    exists|k: int|
        0 <= k <= text.len() - part.len() && #[trigger] text.subrange(k, k + part.len()) == part
}

/// A text occurs where it is appended.
pub proof fn lemma_appended(a: Seq<char>, part: Seq<char>)
    ensures
        occurs(a + part, part),
{
    let start = a.len() as int;
    assert((a + part).subrange(start, start + part.len()) =~= part);
}

/// What occurs in a text occurs in what continues it.
pub proof fn lemma_continued(a: Seq<char>, b: Seq<char>, part: Seq<char>)
    requires
        occurs(a, part),
    ensures
        occurs(a + b, part),
{
    let k = choose|k: int|
        0 <= k <= a.len() - part.len() && #[trigger] a.subrange(k, k + part.len()) == part;
    assert((a + b).subrange(k, k + part.len()) =~= a.subrange(k, k + part.len()));
}

/// What occurs in a text that occurs in another one occurs there.
pub proof fn lemma_transitive(text: Seq<char>, middle: Seq<char>, part: Seq<char>)
    requires
        occurs(text, middle),
        occurs(middle, part),
    ensures
        occurs(text, part),
{
    let k = choose|k: int|
        0 <= k <= text.len() - middle.len() && #[trigger] text.subrange(k, k + middle.len())
            == middle;
    let j = choose|j: int|
        0 <= j <= middle.len() - part.len() && #[trigger] middle.subrange(j, j + part.len())
            == part;
    assert(text.subrange(k + j, k + j + part.len()) =~= middle.subrange(j, j + part.len()));
}

/// Each text occurs where texts are joined.
pub proof fn lemma_joined(parts: Seq<Seq<char>>, separator: Seq<char>, i: int)
    requires
        0 <= i < parts.len(),
    ensures
        occurs(joined(parts, separator), parts[i]),
    decreases parts.len(),
{
    if parts.len() == 1 {
        lemma_appended(Seq::empty(), parts[0]);
        assert(Seq::<char>::empty() + parts[0] =~= parts[0]);
    } else {
        let start = joined(parts.drop_last(), separator);
        if i < parts.len() - 1 {
            lemma_joined(parts.drop_last(), separator, i);
            lemma_continued(start, separator, parts[i]);
            lemma_continued(start + separator, parts.last(), parts[i]);
        } else {
            lemma_appended(start + separator, parts.last());
        }
    }
}

} // verus!
