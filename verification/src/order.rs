//! Order of texts and paths.
pub mod laws;

use crate::path::FilePath;
use vstd::prelude::*;

verus! {

/// Whether a text comes before another one: at the first place where they differ it has the
/// smaller character, or it is the beginning of the other one.
///
/// This is also the order of the encodings of the texts in UTF-8.
pub open spec fn precedes(a: Seq<char>, b: Seq<char>) -> bool
    decreases a.len(),
{
    if b.len() == 0 {
        false
    } else if a.len() == 0 {
        true
    } else if a[0] == b[0] {
        precedes(a.drop_first(), b.drop_first())
    } else {
        (a[0] as int) < (b[0] as int)
    }
}

/// No text comes before itself.
pub proof fn lemma_irreflexive(a: Seq<char>)
    ensures
        !precedes(a, a),
    decreases a.len(),
{
    if a.len() > 0 {
        lemma_irreflexive(a.drop_first());
    }
}

/// A text comes before those that come after a text that it comes before.
pub proof fn lemma_transitive(a: Seq<char>, b: Seq<char>, c: Seq<char>)
    requires
        precedes(a, b),
        precedes(b, c),
    ensures
        precedes(a, c),
    decreases a.len(),
{
    if a.len() > 0 && a[0] == b[0] && b[0] == c[0] {
        lemma_transitive(a.drop_first(), b.drop_first(), c.drop_first());
    }
}

/// Of two different texts one comes before the other.
pub proof fn lemma_total(a: Seq<char>, b: Seq<char>)
    ensures
        a == b || precedes(a, b) || precedes(b, a),
    decreases a.len(),
{
    if a.len() == 0 && b.len() == 0 {
        assert(a =~= b);
    } else if a.len() > 0 && b.len() > 0 && a[0] == b[0] {
        lemma_total(a.drop_first(), b.drop_first());
        if a.drop_first() == b.drop_first() {
            assert(a =~= seq![a[0]] + a.drop_first());
            assert(b =~= seq![b[0]] + b.drop_first());
        }
    }
}

/// How a value relates to another one.
#[derive(Clone, Copy, Debug, PartialEq, Eq, Structural)]
pub enum Relation {
    Before,
    Same,
    After,
}

/// Compare two texts.
pub fn relate(a: &str, b: &str) -> (relation: Relation)
    ensures
        match relation {
            Relation::Before => precedes(a@, b@),
            Relation::Same => a@ == b@,
            Relation::After => precedes(b@, a@),
        },
{
    let n: usize = a.unicode_len();
    let m: usize = b.unicode_len();
    let mut i: usize = 0;
    assert(a@.skip(0) =~= a@ && b@.skip(0) =~= b@);
    while i < n && i < m
        invariant
            n == a@.len(),
            m == b@.len(),
            i <= n,
            i <= m,
            precedes(a@, b@) == precedes(a@.skip(i as int), b@.skip(i as int)),
            precedes(b@, a@) == precedes(b@.skip(i as int), a@.skip(i as int)),
            a@.take(i as int) == b@.take(i as int),
        decreases n - i,
    {
        let c = a.get_char(i);
        let d = b.get_char(i);
        assert(a@.skip(i as int)[0] == c && b@.skip(i as int)[0] == d);
        if c != d {
            if (c as u32) < (d as u32) {
                return Relation::Before;
            } else {
                return Relation::After;
            }
        }
        assert(a@.skip(i as int).drop_first() =~= a@.skip(i + 1));
        assert(b@.skip(i as int).drop_first() =~= b@.skip(i + 1));
        assert(a@.take(i + 1) =~= a@.take(i as int).push(c));
        assert(b@.take(i + 1) =~= b@.take(i as int).push(d));
        i = i + 1;
    }
    if n < m {
        Relation::Before
    } else if m < n {
        Relation::After
    } else {
        assert(a@ =~= a@.take(i as int) && b@ =~= b@.take(i as int));
        Relation::Same
    }
}

/// Whether a path comes before another one: at the first place where they differ it has the name
/// that comes first, or it is the beginning of the other one.
pub open spec fn path_precedes(a: Seq<Seq<char>>, b: Seq<Seq<char>>) -> bool
    decreases a.len(),
{
    if b.len() == 0 {
        false
    } else if a.len() == 0 {
        true
    } else if a[0] == b[0] {
        path_precedes(a.drop_first(), b.drop_first())
    } else {
        precedes(a[0], b[0])
    }
}

/// No path comes before itself.
pub proof fn lemma_path_irreflexive(a: Seq<Seq<char>>)
    ensures
        !path_precedes(a, a),
    decreases a.len(),
{
    if a.len() > 0 {
        lemma_path_irreflexive(a.drop_first());
    }
}

/// A path comes before those that come after a path that it comes before.
pub proof fn lemma_path_transitive(a: Seq<Seq<char>>, b: Seq<Seq<char>>, c: Seq<Seq<char>>)
    requires
        path_precedes(a, b),
        path_precedes(b, c),
    ensures
        path_precedes(a, c),
    decreases a.len(),
{
    if a.len() > 0 {
        if a[0] == b[0] && b[0] == c[0] {
            lemma_path_transitive(a.drop_first(), b.drop_first(), c.drop_first());
        } else if a[0] != b[0] && b[0] != c[0] {
            lemma_transitive(a[0], b[0], c[0]);
            if a[0] == c[0] {
                lemma_irreflexive(a[0]);
            }
        }
    }
}

/// Compare two paths.
pub fn relate_paths(a: &FilePath, b: &FilePath) -> (relation: Relation)
    ensures
        match relation {
            Relation::Before => path_precedes(a@, b@),
            Relation::Same => a@ == b@,
            Relation::After => path_precedes(b@, a@),
        },
{
    let n: usize = a.components.len();
    let m: usize = b.components.len();
    let mut i: usize = 0;
    assert(a@.skip(0) =~= a@ && b@.skip(0) =~= b@);
    while i < n && i < m
        invariant
            n == a.components.len(),
            m == b.components.len(),
            i <= n,
            i <= m,
            path_precedes(a@, b@) == path_precedes(a@.skip(i as int), b@.skip(i as int)),
            path_precedes(b@, a@) == path_precedes(b@.skip(i as int), a@.skip(i as int)),
            a@.take(i as int) == b@.take(i as int),
        decreases n - i,
    {
        let relation = relate(a.components[i].as_str(), b.components[i].as_str());
        assert(a@.skip(i as int)[0] == a@[i as int] && b@.skip(i as int)[0] == b@[i as int]);
        match relation {
            Relation::Same => {},
            _ => {
                proof {
                    lemma_irreflexive(a@[i as int]);
                    lemma_irreflexive(b@[i as int]);
                }
                return relation;
            },
        }
        assert(a@.skip(i as int).drop_first() =~= a@.skip(i + 1));
        assert(b@.skip(i as int).drop_first() =~= b@.skip(i + 1));
        assert(a@.take(i + 1) =~= a@.take(i as int).push(a@[i as int]));
        assert(b@.take(i + 1) =~= b@.take(i as int).push(b@[i as int]));
        i = i + 1;
    }
    if n < m {
        Relation::Before
    } else if m < n {
        Relation::After
    } else {
        assert(a@ =~= a@.take(i as int) && b@ =~= b@.take(i as int));
        Relation::Same
    }
}

} // verus!
