//! The merge of sequences of which none is reordered.
use vstd::prelude::*;

verus! {

/// The number of elements of all sequences.
pub open spec fn total_len(seqs: Seq<Seq<usize>>) -> nat
    decreases seqs.len(),
{
    if seqs.len() == 0 {
        0
    } else {
        total_len(seqs.drop_last()) + seqs.last().len()
    }
}

/// Whether no sequence has the element behind its first element.
pub open spec fn is_free(seqs: Seq<Seq<usize>>, element: usize) -> bool {
    forall|i: int, j: int|
        0 <= i < seqs.len() && 1 <= j < seqs[i].len() ==> #[trigger] seqs[i][j] != element
}

/// Whether the element at the front of the sequence at index `i` is free.
pub open spec fn is_candidate(seqs: Seq<Seq<usize>>, i: int) -> bool {
    0 <= i < seqs.len() && seqs[i].len() > 0 && is_free(seqs, seqs[i][0])
}

/// Whether the sequence at index `i` is the first whose front element is free.
pub open spec fn is_first_candidate(seqs: Seq<Seq<usize>>, i: int) -> bool {
    is_candidate(seqs, i) && forall|j: int| 0 <= j < i ==> !is_candidate(seqs, j)
}

/// The sequence without the element at its front, if it is the given one.
pub open spec fn without_front(seq: Seq<usize>, element: usize) -> Seq<usize> {
    if seq.len() > 0 && seq[0] == element {
        seq.drop_first()
    } else {
        seq
    }
}

/// The sequences without the element at their front, if it is the given one.
pub open spec fn without_fronts(seqs: Seq<Seq<usize>>, element: usize) -> Seq<Seq<usize>> {
    Seq::new(seqs.len(), |i: int| without_front(seqs[i], element))
}

/// Removing elements leaves fewer elements.
pub proof fn lemma_without_fronts(seqs: Seq<Seq<usize>>, element: usize)
    ensures
        total_len(without_fronts(seqs, element)) <= total_len(seqs),
        forall|i: int|
            0 <= i < seqs.len() && (#[trigger] seqs[i]).len() > 0 && seqs[i][0] == element
                ==> total_len(without_fronts(seqs, element)) < total_len(seqs),
    decreases seqs.len(),
{
    if seqs.len() > 0 {
        let shorter = seqs.drop_last();
        lemma_without_fronts(shorter, element);
        assert(without_fronts(seqs, element).drop_last() =~= without_fronts(shorter, element));
        assert forall|i: int|
            0 <= i < seqs.len() && (#[trigger] seqs[i]).len() > 0 && seqs[i][0]
                == element implies total_len(without_fronts(seqs, element)) < total_len(seqs) by {
            if i < shorter.len() {
                assert(shorter[i] == seqs[i]);
            }
        }
    }
}

/// The merge of sequences: again and again, the first front element that no sequence has behind
/// its front is taken. There is no merge if there is no such element.
pub open spec fn merged(seqs: Seq<Seq<usize>>) -> Option<Seq<usize>>
    decreases total_len(seqs),
{
    if forall|i: int| 0 <= i < seqs.len() ==> (#[trigger] seqs[i]).len() == 0 {
        Some(Seq::empty())
    } else if exists|i: int| is_first_candidate(seqs, i) {
        let first = choose|i: int| is_first_candidate(seqs, i);
        let head = seqs[first][0];
        proof {
            lemma_without_fronts(seqs, head);
        }
        match merged(without_fronts(seqs, head)) {
            Some(tail) => Some(seq![head] + tail),
            None => None,
        }
    } else {
        None
    }
}

/// The elements of each sequence.
pub open spec fn views(seqs: Seq<Vec<usize>>) -> Seq<Seq<usize>> {
    Seq::new(seqs.len(), |i: int| seqs[i]@)
}

/// Check whether no sequence has the element behind its first element.
fn check_free(seqs: &Vec<Vec<usize>>, element: usize) -> (result: bool)
    ensures
        result == is_free(views(seqs@), element),
{
    let mut i: usize = 0;
    while i < seqs.len()
        invariant
            i <= seqs.len(),
            forall|k: int, j: int|
                0 <= k < i && 1 <= j < views(seqs@)[k].len() ==> #[trigger] views(seqs@)[k][j]
                    != element,
        decreases seqs.len() - i,
    {
        let seq = &seqs[i];
        let mut j: usize = 1;
        while j < seq.len()
            invariant
                i < seqs.len(),
                *seq == seqs@[i as int],
                1 <= j,
                forall|k: int|
                    1 <= k < j && k < seq.len() ==> #[trigger] views(seqs@)[i as int][k] != element,
            decreases seq.len() - j,
        {
            if seq[j] == element {
                assert(views(seqs@)[i as int][j as int] == element);
                return false;
            }
            j = j + 1;
        }
        i = i + 1;
    }
    true
}

/// Find the first front element that no sequence has behind its front.
fn find_candidate(seqs: &Vec<Vec<usize>>) -> (result: Option<usize>)
    ensures
        match result {
            Some(i) => i < seqs.len() && is_first_candidate(views(seqs@), i as int),
            None => forall|i: int| !is_candidate(views(seqs@), i),
        },
{
    let mut i: usize = 0;
    while i < seqs.len()
        invariant
            i <= seqs.len(),
            forall|j: int| 0 <= j < i ==> !is_candidate(views(seqs@), j),
        decreases seqs.len() - i,
    {
        if seqs[i].len() > 0 && check_free(seqs, seqs[i][0]) {
            return Some(i);
        }
        i = i + 1;
    }
    None
}

/// Remove the element from the front of each sequence that starts with it.
fn remove_fronts(seqs: &mut Vec<Vec<usize>>, element: usize)
    ensures
        views(final(seqs)@) == without_fronts(views(old(seqs)@), element),
{
    let mut i: usize = 0;
    while i < seqs.len()
        invariant
            i <= seqs.len(),
            seqs.len() == old(seqs).len(),
            forall|j: int|
                0 <= j < i ==> #[trigger] seqs@[j]@ == without_front(old(seqs)@[j]@, element),
            forall|j: int| i <= j < seqs.len() ==> #[trigger] seqs@[j] == old(seqs)@[j],
        decreases seqs.len() - i,
    {
        if seqs[i].len() > 0 && seqs[i][0] == element {
            let mut seq: Vec<usize> = Vec::new();
            let mut j: usize = 1;
            while j < seqs[i].len()
                invariant
                    i < seqs.len(),
                    1 <= j <= seqs@[i as int].len(),
                    seq@ == seqs@[i as int]@.subrange(1, j as int),
                decreases seqs@[i as int].len() - j,
            {
                seq.push(seqs[i][j]);
                j = j + 1;
            }
            assert(seq@ =~= old(seqs)@[i as int]@.drop_first());
            seqs.set(i, seq);
        }
        i = i + 1;
    }
    assert(views(seqs@) =~= without_fronts(views(old(seqs)@), element));
}

/// Check whether all sequences are empty.
fn all_empty(seqs: &Vec<Vec<usize>>) -> (result: bool)
    ensures
        result == (forall|i: int|
            0 <= i < seqs.len() ==> (#[trigger] views(seqs@)[i]).len() == 0),
{
    let mut i: usize = 0;
    while i < seqs.len()
        invariant
            i <= seqs.len(),
            forall|j: int| 0 <= j < i ==> (#[trigger] views(seqs@)[j]).len() == 0,
        decreases seqs.len() - i,
    {
        if seqs[i].len() > 0 {
            assert(views(seqs@)[i as int].len() > 0);
            return false;
        }
        i = i + 1;
    }
    true
}

/// There is only one first candidate.
proof fn lemma_first_candidate(seqs: Seq<Seq<usize>>, i: int)
    requires
        is_first_candidate(seqs, i),
    ensures
        (choose|j: int| is_first_candidate(seqs, j)) == i,
{
    let j = choose|j: int| is_first_candidate(seqs, j);
    assert(is_first_candidate(seqs, j));
}

/// Merge sequences without reordering any of them.
pub fn merge(seqs: Vec<Vec<usize>>) -> (result: Option<Vec<usize>>)
    ensures
        match result {
            Some(order) => merged(views(seqs@)) == Some(order@),
            None => merged(views(seqs@)) is None,
        },
{
    let ghost start = views(seqs@);
    let mut rest: Vec<Vec<usize>> = seqs;
    let mut result: Vec<usize> = Vec::new();
    proof {
        if let Some(tail) = merged(start) {
            assert(result@ + tail =~= tail);
        }
    }
    loop
        invariant
            start == views(seqs@),
            match merged(views(rest@)) {
                Some(tail) => merged(start) == Some(result@ + tail),
                None => merged(start) is None,
            },
        decreases total_len(views(rest@)),
    {
        let ghost before = views(rest@);
        if all_empty(&rest) {
            assert(result@ + Seq::<usize>::empty() =~= result@);
            return Some(result);
        }
        match find_candidate(&rest) {
            None => {
                assert forall|i: int| !is_first_candidate(before, i) by {
                    assert(!is_candidate(before, i));
                }
                return None;
            },
            Some(i) => {
                let head: usize = rest[i][0];
                proof {
                    lemma_first_candidate(before, i as int);
                    lemma_without_fronts(before, head);
                    assert(before[i as int][0] == head);
                    if let Some(tail) = merged(without_fronts(before, head)) {
                        assert(result@ + (seq![head] + tail) =~= result@.push(head) + tail);
                    }
                }
                result.push(head);
                remove_fronts(&mut rest, head);
            },
        }
    }
}

/// Whether an element comes before another one in a sequence.
pub open spec fn comes_before(order: Seq<usize>, x: usize, y: usize) -> bool {
    exists|p: int, q: int| 0 <= p < q < order.len() && order[p] == x && order[q] == y
}

/// Whether some sequence has the element.
pub open spec fn occurs_in(seqs: Seq<Seq<usize>>, x: usize) -> bool {
    exists|i: int| 0 <= i < seqs.len() && (#[trigger] seqs[i]).contains(x)
}

/// Removing an element from the fronts of sequences leaves the other elements and their order.
proof fn lemma_remaining(seqs: Seq<Seq<usize>>, element: usize)
    ensures
        forall|x: usize| #[trigger]
            occurs_in(without_fronts(seqs, element), x) ==> occurs_in(seqs, x),
        forall|x: usize| #[trigger]
            occurs_in(seqs, x) && x != element ==> occurs_in(without_fronts(seqs, element), x),
        is_free(seqs, element) ==> !occurs_in(without_fronts(seqs, element), element),
{
    let rest = without_fronts(seqs, element);
    assert forall|x: usize| #[trigger] occurs_in(rest, x) implies occurs_in(seqs, x) by {
        let i = choose|i: int| 0 <= i < rest.len() && (#[trigger] rest[i]).contains(x);
        let j = choose|j: int| 0 <= j < rest[i].len() && rest[i][j] == x;
        if rest[i] == seqs[i] {
            assert(seqs[i][j] == x);
        } else {
            assert(seqs[i][j + 1] == x);
        }
        assert(seqs[i].contains(x));
    }
    assert forall|x: usize| #[trigger] occurs_in(seqs, x) && x != element implies occurs_in(
        rest,
        x,
    ) by {
        let i = choose|i: int| 0 <= i < seqs.len() && (#[trigger] seqs[i]).contains(x);
        let j = choose|j: int| 0 <= j < seqs[i].len() && seqs[i][j] == x;
        if rest[i] == seqs[i] {
            assert(rest[i][j] == x);
        } else {
            assert(rest[i][j - 1] == x);
        }
        assert(rest[i].contains(x));
    }
    if is_free(seqs, element) && occurs_in(rest, element) {
        let i = choose|i: int| 0 <= i < rest.len() && (#[trigger] rest[i]).contains(element);
        let j = choose|j: int| 0 <= j < rest[i].len() && rest[i][j] == element;
        if rest[i] == seqs[i] {
            assert(seqs[i][j] == element);
        } else {
            assert(seqs[i][j + 1] == element);
        }
    }
}

/// A merge has the elements of the sequences, each of them once, and reorders none of the
/// sequences.
pub proof fn merge_keeps_order(seqs: Seq<Seq<usize>>)
    requires
        merged(seqs) is Some,
    ensures
        forall|x: usize| #[trigger] (merged(seqs)->0).contains(x) <==> occurs_in(seqs, x),
        (merged(seqs)->0).no_duplicates(),
        forall|i: int, a: int, b: int|
            0 <= i < seqs.len() && 0 <= a < b < seqs[i].len() ==> comes_before(
                merged(seqs)->0,
                #[trigger] seqs[i][a],
                #[trigger] seqs[i][b],
            ),
    decreases total_len(seqs),
{
    let order = merged(seqs)->0;
    if forall|i: int| 0 <= i < seqs.len() ==> (#[trigger] seqs[i]).len() == 0 {
    } else {
        let first = choose|i: int| is_first_candidate(seqs, i);
        let head = seqs[first][0];
        let rest = without_fronts(seqs, head);
        let tail = merged(rest)->0;
        lemma_without_fronts(seqs, head);
        merge_keeps_order(rest);
        lemma_remaining(seqs, head);
        assert(order =~= seq![head] + tail);
        assert(seqs[first].contains(head));
        assert(occurs_in(seqs, head));
        assert forall|x: usize| #[trigger] order.contains(x) <==> occurs_in(seqs, x) by {
            if order.contains(x) {
                let p = choose|p: int| 0 <= p < order.len() && order[p] == x;
                if p > 0 {
                    assert(tail[p - 1] == x);
                    assert(tail.contains(x));
                }
            }
            if occurs_in(seqs, x) {
                if x == head {
                    assert(order[0] == x);
                } else {
                    assert(tail.contains(x));
                    let p = choose|p: int| 0 <= p < tail.len() && tail[p] == x;
                    assert(order[p + 1] == x);
                }
            }
        }
        assert(!tail.contains(head));
        assert forall|p: int, q: int| 0 <= p < q < order.len() implies order[p] != order[q] by {
            if p == 0 {
                assert(tail[q - 1] == order[q]);
            } else {
                assert(tail[p - 1] == order[p] && tail[q - 1] == order[q]);
            }
        }
        assert forall|i: int, a: int, b: int|
            0 <= i < seqs.len() && 0 <= a < b < seqs[i].len() implies comes_before(
            order,
            #[trigger] seqs[i][a],
            #[trigger] seqs[i][b],
        ) by {
            let x = seqs[i][a];
            let y = seqs[i][b];
            assert(seqs[i].contains(y));
            if seqs[i][0] == head {
                if a == 0 {
                    assert(y != head);
                    assert(occurs_in(seqs, y));
                    assert(order.contains(y));
                    let q = choose|q: int| 0 <= q < order.len() && order[q] == y;
                    assert(0 < q && order[0] == x);
                } else {
                    assert(rest[i][a - 1] == x && rest[i][b - 1] == y);
                    assert(comes_before(tail, x, y));
                    let (p, q) = choose|p: int, q: int|
                        0 <= p < q < tail.len() && tail[p] == x && tail[q] == y;
                    assert(order[p + 1] == x && order[q + 1] == y);
                }
            } else {
                assert(rest[i][a] == x && rest[i][b] == y);
                assert(comes_before(tail, x, y));
                let (p, q) = choose|p: int, q: int|
                    0 <= p < q < tail.len() && tail[p] == x && tail[q] == y;
                assert(order[p + 1] == x && order[q + 1] == y);
            }
        }
    }
}

/// Whether the elements of each sequence have increasing ranks.
spec fn is_ranked(seqs: Seq<Seq<usize>>, rank: spec_fn(usize) -> int) -> bool {
    forall|i: int, a: int, b: int|
        0 <= i < seqs.len() && 0 <= a < b < seqs[i].len() ==> rank(#[trigger] seqs[i][a]) < rank(
            #[trigger] seqs[i][b],
        )
}

/// Whether the front of a sequence has the least rank among the fronts of the first `n` sequences.
spec fn is_least_front(
    seqs: Seq<Seq<usize>>,
    rank: spec_fn(usize) -> int,
    n: int,
    least: int,
) -> bool {
    &&& 0 <= least < n
    &&& seqs[least].len() > 0
    &&& forall|i: int|
        0 <= i < n && (#[trigger] seqs[i]).len() > 0 ==> rank(seqs[least][0]) <= rank(seqs[i][0])
}

/// One of the fronts has the least rank.
proof fn lemma_least_front(
    seqs: Seq<Seq<usize>>,
    rank: spec_fn(usize) -> int,
    n: int,
    some: int,
) -> (least: int)
    requires
        0 <= some < n <= seqs.len(),
        seqs[some].len() > 0,
    ensures
        is_least_front(seqs, rank, n, least),
    decreases n,
{
    let last = n - 1;
    if some < last {
        let before = lemma_least_front(seqs, rank, last, some);
        if seqs[last].len() > 0 && rank(seqs[last][0]) < rank(seqs[before][0]) {
            last
        } else {
            before
        }
    } else if exists|i: int| 0 <= i < last && (#[trigger] seqs[i]).len() > 0 {
        let other = choose|i: int| 0 <= i < last && (#[trigger] seqs[i]).len() > 0;
        let before = lemma_least_front(seqs, rank, last, other);
        if rank(seqs[last][0]) < rank(seqs[before][0]) {
            last
        } else {
            before
        }
    } else {
        last
    }
}

/// If there is a candidate then there is a first one.
proof fn lemma_some_first_candidate(seqs: Seq<Seq<usize>>, i: int)
    requires
        is_candidate(seqs, i),
    ensures
        exists|j: int| is_first_candidate(seqs, j),
    decreases i,
{
    if exists|j: int| 0 <= j < i && is_candidate(seqs, j) {
        let j = choose|j: int| 0 <= j < i && is_candidate(seqs, j);
        lemma_some_first_candidate(seqs, j);
    } else {
        assert(is_first_candidate(seqs, i));
    }
}

/// Sequences with increasing ranks have a merge.
proof fn lemma_ranked(seqs: Seq<Seq<usize>>, rank: spec_fn(usize) -> int)
    requires
        is_ranked(seqs, rank),
    ensures
        merged(seqs) is Some,
    decreases total_len(seqs),
{
    if !(forall|i: int| 0 <= i < seqs.len() ==> (#[trigger] seqs[i]).len() == 0) {
        let some = choose|i: int| 0 <= i < seqs.len() && (#[trigger] seqs[i]).len() != 0;
        let least = lemma_least_front(seqs, rank, seqs.len() as int, some);
        assert(is_free(seqs, seqs[least][0])) by {
            assert forall|i: int, j: int|
                0 <= i < seqs.len() && 1 <= j < seqs[i].len() implies #[trigger] seqs[i][j]
                != seqs[least][0] by {
                assert(rank(seqs[i][0]) < rank(seqs[i][j]));
                assert(seqs[i].len() > 0);
            }
        }
        lemma_some_first_candidate(seqs, least);
        let first = choose|i: int| is_first_candidate(seqs, i);
        let head = seqs[first][0];
        let rest = without_fronts(seqs, head);
        lemma_without_fronts(seqs, head);
        assert(is_ranked(rest, rank)) by {
            assert forall|i: int, a: int, b: int|
                0 <= i < rest.len() && 0 <= a < b < rest[i].len() implies rank(
                #[trigger] rest[i][a],
            ) < rank(#[trigger] rest[i][b]) by {
                if rest[i] == seqs[i] {
                    assert(rank(seqs[i][a]) < rank(seqs[i][b]));
                } else {
                    assert(rank(seqs[i][a + 1]) < rank(seqs[i][b + 1]));
                }
            }
        }
        lemma_ranked(rest, rank);
    }
}

/// Sequences have a merge whenever some order without repetitions reorders none of them: the merge
/// fails only if the sequences contradict each other.
pub proof fn merge_fails_only_on_contradiction(seqs: Seq<Seq<usize>>, order: Seq<usize>)
    requires
        order.no_duplicates(),
        forall|i: int, a: int, b: int|
            0 <= i < seqs.len() && 0 <= a < b < seqs[i].len() ==> comes_before(
                order,
                #[trigger] seqs[i][a],
                #[trigger] seqs[i][b],
            ),
    ensures
        merged(seqs) is Some,
{
    let rank = |x: usize| order.index_of(x);
    assert forall|i: int, a: int, b: int|
        0 <= i < seqs.len() && 0 <= a < b < seqs[i].len() implies rank(#[trigger] seqs[i][a])
        < rank(#[trigger] seqs[i][b]) by {
        let x = seqs[i][a];
        let y = seqs[i][b];
        assert(comes_before(order, x, y));
        let (p, q) = choose|p: int, q: int|
            0 <= p < q < order.len() && order[p] == x && order[q] == y;
        assert(order.index_of(x) == p) by {
            assert(order[order.index_of(x)] == x);
        }
        assert(order.index_of(y) == q) by {
            assert(order[order.index_of(y)] == y);
        }
    }
    lemma_ranked(seqs, rank);
}

} // verus!
