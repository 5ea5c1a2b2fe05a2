//! Maps from names to values.
use crate::list::List;
use crate::name::Identifier;
use vstd::prelude::*;

verus! {

/// A map from names to values.
///
/// The entries are searched first to last: an entry hides later entries of the same name.
#[derive(Debug)]
pub struct NameMap<V> {
    /// The entries of the map, latest first.
    pub entries: List<(Identifier, V)>,
}

/// The map that a list of entries stands for.
pub open spec fn contents<V>(entries: List<(Identifier, V)>) -> Map<Seq<char>, V>
    decreases entries,
{
    match entries {
        List::Nil => Map::empty(),
        List::Cons(entry, tail) => contents(*tail).insert(entry.0@, entry.1),
    }
}

impl<V> View for NameMap<V> {
    type V = Map<Seq<char>, V>;

    open spec fn view(&self) -> Map<Seq<char>, V> {
        contents(self.entries)
    }
}

/// Look up a name in a list of entries.
fn find<'a, V>(entries: &'a List<(Identifier, V)>, name: &Identifier) -> (result: Option<&'a V>)
    ensures
        match result {
            Some(value) => contents(*entries).contains_key(name@) && *value == contents(
                *entries,
            )[name@],
            None => !contents(*entries).contains_key(name@),
        },
    decreases entries,
{
    match entries {
        List::Nil => None,
        List::Cons(entry, tail) => {
            if entry.0.same(name) {
                Some(&entry.1)
            } else {
                find(tail, name)
            }
        },
    }
}

/// Add an entry in front of a list of entries.
fn insert_entry<V>(entries: &mut List<(Identifier, V)>, name: Identifier, value: V)
    ensures
        contents(*final(entries)) == contents(*old(entries)).insert(name@, value),
{
    let mut tail: List<(Identifier, V)> = List::Nil;
    std::mem::swap(entries, &mut tail);
    *entries = List::Cons((name, value), Box::new(tail));
}

impl<V> NameMap<V> {
    /// Create an empty map.
    pub fn new() -> (map: NameMap<V>)
        ensures
            map@ == Map::<Seq<char>, V>::empty(),
    {
        NameMap { entries: List::Nil }
    }

    /// Look up the value of a name.
    pub fn get(&self, name: &Identifier) -> (result: Option<&V>)
        ensures
            match result {
                Some(value) => self@.contains_key(name@) && *value == self@[name@],
                None => !self@.contains_key(name@),
            },
    {
        find(&self.entries, name)
    }

    /// Check whether the name has a value.
    pub fn contains_key(&self, name: &Identifier) -> (result: bool)
        ensures
            result == self@.contains_key(name@),
    {
        self.get(name).is_some()
    }

    /// Set the value of a name.
    pub fn insert(&mut self, name: Identifier, value: V)
        ensures
            final(self)@ == old(self)@.insert(name@, value),
    {
        insert_entry(&mut self.entries, name, value);
    }
}

} // verus!
