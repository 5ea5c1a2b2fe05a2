//! The names that are known in a file.
use crate::list::List;
use crate::name::Identifier;
use crate::name_map::contents;
use crate::order::{lemma_irreflexive, precedes, relate, Relation};
use crate::parse::Visibility;
use vstd::prelude::*;

verus! {

/// What a name stands for in a file.
#[derive(Clone, Copy, Debug, PartialEq, Eq, Hash, Structural)]
pub struct Resolution {
    pub visibility: Visibility,
}

/// The names that are known in a file, in alphabetical order.
#[derive(Debug)]
pub struct FileResolutions {
    pub entries: List<(Identifier, Resolution)>,
}

impl View for FileResolutions {
    type V = Map<Seq<char>, Resolution>;

    open spec fn view(&self) -> Map<Seq<char>, Resolution> {
        contents(self.entries)
    }
}

/// Whether a name comes before all entries.
pub open spec fn is_below(name: Seq<char>, entries: List<(Identifier, Resolution)>) -> bool {
    match entries {
        List::Nil => true,
        List::Cons(head, _) => precedes(name, head.0@),
    }
}

/// Whether the names of the entries are in alphabetical order.
pub open spec fn is_sorted(entries: List<(Identifier, Resolution)>) -> bool
    decreases entries,
{
    match entries {
        List::Nil => true,
        List::Cons(head, tail) => is_below(head.0@, *tail) && is_sorted(*tail),
    }
}

/// Insert an entry in alphabetical order. It replaces an entry of the same name.
fn insert_sorted(
    entries: List<(Identifier, Resolution)>,
    name: Identifier,
    resolution: Resolution,
) -> (result: List<(Identifier, Resolution)>)
    requires
        is_sorted(entries),
    ensures
        is_sorted(result),
        contents(result) == contents(entries).insert(name@, resolution),
        forall|below: Seq<char>| #[trigger]
            is_below(below, entries) && precedes(below, name@) ==> is_below(below, result),
    decreases entries,
{
    match entries {
        List::Nil => List::Cons((name, resolution), Box::new(List::Nil)),
        List::Cons(head, tail) => match relate(name.as_inner(), head.0.as_inner()) {
            Relation::Before => List::Cons(
                (name, resolution),
                Box::new(List::Cons(head, tail)),
            ),
            Relation::Same => {
                let result = List::Cons((name, resolution), tail);
                assert(contents(result) =~= contents(entries).insert(name@, resolution));
                result
            },
            Relation::After => {
                proof {
                    lemma_irreflexive(name@);
                }
                let rest = insert_sorted(*tail, name, resolution);
                let result = List::Cons(head, Box::new(rest));
                assert(is_below(head.0@, *tail));
                assert(contents(result) =~= contents(entries).insert(name@, resolution));
                result
            },
        },
    }
}

/// Look up a name.
fn find<'a>(entries: &'a List<(Identifier, Resolution)>, name: &Identifier) -> (result: Option<
    &'a Resolution,
>)
    ensures
        match result {
            Some(resolution) => contents(*entries).contains_key(name@) && *resolution == contents(
                *entries,
            )[name@],
            None => !contents(*entries).contains_key(name@),
        },
    decreases entries,
{
    match entries {
        List::Nil => None,
        List::Cons(head, tail) => {
            if head.0.same(name) {
                Some(&head.1)
            } else {
                find(tail, name)
            }
        },
    }
}

/// Copy entries.
fn copy_entries(entries: &List<(Identifier, Resolution)>) -> (copy: List<(Identifier, Resolution)>)
    ensures
        copy == *entries,
    decreases entries,
{
    match entries {
        List::Nil => List::Nil,
        List::Cons(entry, tail) => List::Cons(
            (entry.0.clone(), entry.1),
            Box::new(copy_entries(tail)),
        ),
    }
}

impl Clone for FileResolutions {
    fn clone(&self) -> (result: Self)
        ensures
            result == *self,
    {
        FileResolutions { entries: copy_entries(&self.entries) }
    }
}

impl FileResolutions {
    /// The names are in alphabetical order.
    pub open spec fn wf(self) -> bool {
        is_sorted(self.entries)
    }

    /// Create a table without names.
    pub fn new() -> (result: FileResolutions)
        ensures
            result.wf(),
            result@ == Map::<Seq<char>, Resolution>::empty(),
    {
        FileResolutions { entries: List::Nil }
    }

    /// Look up a name.
    pub fn get(&self, name: &Identifier) -> (result: Option<&Resolution>)
        ensures
            match result {
                Some(resolution) => self@.contains_key(name@) && *resolution == self@[name@],
                None => !self@.contains_key(name@),
            },
    {
        find(&self.entries, name)
    }

    /// Add a name, or replace what it stands for.
    pub fn insert(&mut self, name: Identifier, resolution: Resolution)
        requires
            old(self).wf(),
        ensures
            final(self).wf(),
            final(self)@ == old(self)@.insert(name@, resolution),
    {
        let mut entries: List<(Identifier, Resolution)> = List::Nil;
        std::mem::swap(&mut self.entries, &mut entries);
        self.entries = insert_sorted(entries, name, resolution);
    }
}

} // verus!
