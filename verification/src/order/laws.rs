//! What the order of texts and paths means.
use super::{
    lemma_irreflexive, lemma_path_irreflexive, lemma_path_transitive, lemma_total,
    lemma_transitive, path_precedes, precedes,
};
use vstd::prelude::*;

verus! {

/// The order of texts ignores what they start with in common.
proof fn lemma_common(start: Seq<char>, a: Seq<char>, b: Seq<char>)
    ensures
        precedes(start + a, start + b) == precedes(a, b),
    decreases start.len(),
{
    if start.len() == 0 {
        assert(start + a =~= a);
        assert(start + b =~= b);
    } else {
        let rest = start.drop_first();
        lemma_common(rest, a, b);
        assert((start + a).drop_first() =~= rest + a);
        assert((start + b).drop_first() =~= rest + b);
    }
}

/// Texts are in alphabetical order: whatever they start with in common, a text that ends there
/// comes before one that goes on, and of two texts that go on the one with the smaller character
/// comes first.
pub proof fn texts_are_in_alphabetical_order(
    start: Seq<char>,
    c: char,
    d: char,
    rest: Seq<char>,
    other: Seq<char>,
)
    ensures
        precedes(start, start + seq![c] + rest),
        precedes(start + seq![c] + rest, start + seq![d] + other) <== c < d,
        !precedes(start + seq![c] + rest, start),
        !precedes(start + seq![c] + rest, start + seq![d] + other) <== d < c,
{
    let empty = Seq::<char>::empty();
    assert(start + empty =~= start);
    assert(start + seq![c] + rest =~= start + (seq![c] + rest));
    assert(start + seq![d] + other =~= start + (seq![d] + other));
    lemma_common(start, empty, seq![c] + rest);
    lemma_common(start, seq![c] + rest, empty);
    lemma_common(start, seq![c] + rest, seq![d] + other);
}

/// Of two texts, exactly one of three holds: they are the same, the first comes before the second,
/// or the second comes before the first.
pub proof fn order_of_texts_is_total(a: Seq<char>, b: Seq<char>)
    ensures
        a == b || precedes(a, b) || precedes(b, a),
        precedes(a, b) ==> a != b && !precedes(b, a),
{
    lemma_total(a, b);
    lemma_irreflexive(a);
    if precedes(a, b) && precedes(b, a) {
        lemma_transitive(a, b, a);
    }
}

/// The order of paths ignores what they start with in common.
proof fn lemma_path_common(start: Seq<Seq<char>>, a: Seq<Seq<char>>, b: Seq<Seq<char>>)
    ensures
        path_precedes(start + a, start + b) == path_precedes(a, b),
    decreases start.len(),
{
    if start.len() == 0 {
        assert(start + a =~= a);
        assert(start + b =~= b);
    } else {
        let rest = start.drop_first();
        lemma_path_common(rest, a, b);
        assert((start + a).drop_first() =~= rest + a);
        assert((start + b).drop_first() =~= rest + b);
    }
}

/// A directory comes before what is inside of it, and what is inside of two directories of the same
/// directory is in the order of the names of these two.
pub proof fn paths_are_in_order_of_names(
    start: Seq<Seq<char>>,
    name: Seq<char>,
    other_name: Seq<char>,
    rest: Seq<Seq<char>>,
    other: Seq<Seq<char>>,
)
    ensures
        path_precedes(start, start + seq![name] + rest),
        path_precedes(start + seq![name] + rest, start + seq![other_name] + other) <== precedes(
            name,
            other_name,
        ),
{
    let empty = Seq::<Seq<char>>::empty();
    assert(start + empty =~= start);
    assert(start + seq![name] + rest =~= start + (seq![name] + rest));
    assert(start + seq![other_name] + other =~= start + (seq![other_name] + other));
    lemma_path_common(start, empty, seq![name] + rest);
    lemma_path_common(start, seq![name] + rest, seq![other_name] + other);
    lemma_irreflexive(name);
}

/// No path comes before a path that comes before it.
pub proof fn order_of_paths_is_strict(a: Seq<Seq<char>>, b: Seq<Seq<char>>)
    ensures
        path_precedes(a, b) ==> a != b && !path_precedes(b, a),
{
    lemma_path_irreflexive(a);
    if path_precedes(a, b) && path_precedes(b, a) {
        lemma_path_transitive(a, b, a);
    }
}

} // verus!
