//! Types of the parameters and of the witnesses of a program.
use crate::list::List;
use crate::name::WitnessName;
use crate::name_map::{contents, NameMap};
use crate::types::ResolvedType;
use vstd::prelude::*;
use vstd::std_specs::cmp::PartialEqSpecImpl;

verus! {

/// The types of the parameters of a program.
#[derive(Debug)]
pub struct Parameters {
    pub types: NameMap<ResolvedType>,
}

/// The types of the witnesses of a program.
#[derive(Debug)]
pub struct WitnessTypes {
    pub types: NameMap<ResolvedType>,
}

impl View for Parameters {
    type V = Map<Seq<char>, ResolvedType>;

    open spec fn view(&self) -> Map<Seq<char>, ResolvedType> {
        self.types@
    }
}

impl View for WitnessTypes {
    type V = Map<Seq<char>, ResolvedType>;

    open spec fn view(&self) -> Map<Seq<char>, ResolvedType> {
        self.types@
    }
}

impl Parameters {
    /// Get the type of the parameter of the given name.
    pub fn get(&self, name: &WitnessName) -> (result: Option<&ResolvedType>)
        ensures
            match result {
                Some(ty) => self@.contains_key(name@) && *ty == self@[name@],
                None => !self@.contains_key(name@),
            },
    {
        self.types.get(name)
    }
}

impl WitnessTypes {
    /// Get the type of the witness of the given name.
    pub fn get(&self, name: &WitnessName) -> (result: Option<&ResolvedType>)
        ensures
            match result {
                Some(ty) => self@.contains_key(name@) && *ty == self@[name@],
                None => !self@.contains_key(name@),
            },
    {
        self.types.get(name)
    }
}

/// Copy entries.
fn copy_entries(entries: &List<(WitnessName, ResolvedType)>) -> (copy: List<
    (WitnessName, ResolvedType),
>)
    ensures
        copy == *entries,
    decreases entries,
{
    match entries {
        List::Nil => List::Nil,
        List::Cons(entry, tail) => List::Cons(
            (entry.0.clone(), entry.1.clone()),
            Box::new(copy_entries(tail)),
        ),
    }
}

impl Clone for Parameters {
    fn clone(&self) -> (result: Self)
        ensures
            result == *self,
    {
        Parameters { types: NameMap { entries: copy_entries(&self.types.entries) } }
    }
}

impl Clone for WitnessTypes {
    fn clone(&self) -> (result: Self)
        ensures
            result == *self,
    {
        WitnessTypes { types: NameMap { entries: copy_entries(&self.types.entries) } }
    }
}

/// Whether two maps agree on a name.
spec fn agree_on(
    a: Map<Seq<char>, ResolvedType>,
    b: Map<Seq<char>, ResolvedType>,
    name: Seq<char>,
) -> bool {
    a.contains_key(name) == b.contains_key(name) && (a.contains_key(name) ==> a[name] == b[name])
}

/// Check whether two maps agree on the names of some entries.
fn check_agreement(
    entries: &List<(WitnessName, ResolvedType)>,
    a: &NameMap<ResolvedType>,
    b: &NameMap<ResolvedType>,
) -> (result: bool)
    ensures
        result == (forall|name: Seq<char>| #[trigger]
            contents(*entries).contains_key(name) ==> agree_on(a@, b@, name)),
    decreases entries,
{
    match entries {
        List::Nil => {
            assert(contents(*entries) =~= Map::empty());
            true
        },
        List::Cons(entry, tail) => {
            let agree = match (a.get(&entry.0), b.get(&entry.0)) {
                (Some(s), Some(t)) => s.same(t),
                (None, None) => true,
                _ => false,
            };
            assert(agree == agree_on(a@, b@, entry.0@));
            let rest = check_agreement(tail, a, b);
            assert forall|name: Seq<char>| #[trigger]
                contents(*entries).contains_key(name) == (name == entry.0@ || contents(
                    **tail,
                ).contains_key(name)) by {
            }
            assert(contents(*entries).contains_key(entry.0@));
            proof {
                if agree && rest {
                    assert forall|name: Seq<char>| #[trigger]
                        contents(*entries).contains_key(name) implies agree_on(a@, b@, name) by {
                        assert(name == entry.0@ || contents(**tail).contains_key(name));
                    }
                } else if agree {
                    let name = choose|name: Seq<char>| #[trigger]
                        contents(**tail).contains_key(name) && !agree_on(a@, b@, name);
                    assert(contents(*entries).contains_key(name));
                }
            }
            agree && rest
        },
    }
}

/// Check whether two maps have the same types for the same names.
pub fn same_types(a: &NameMap<ResolvedType>, b: &NameMap<ResolvedType>) -> (result: bool)
    ensures
        result == (a@ == b@),
{
    let result = check_agreement(&a.entries, a, b) && check_agreement(&b.entries, a, b);
    proof {
        if result {
            assert forall|name: Seq<char>| agree_on(a@, b@, name) by {
                assert(contents(a.entries).contains_key(name) == a@.contains_key(name));
                assert(contents(b.entries).contains_key(name) == b@.contains_key(name));
            }
            assert(a@ =~= b@) by {
                assert forall|name: Seq<char>| a@.contains_key(name) == b@.contains_key(name) && (
                a@.contains_key(name) ==> a@[name] == b@[name]) by {
                    assert(agree_on(a@, b@, name));
                }
            }
        }
    }
    result
}

impl PartialEq for Parameters {
    fn eq(&self, other: &Self) -> (result: bool) {
        same_types(&self.types, &other.types)
    }
}

impl PartialEqSpecImpl for Parameters {
    open spec fn obeys_eq_spec() -> bool {
        true
    }

    open spec fn eq_spec(&self, other: &Self) -> bool {
        self@ == other@
    }
}

impl Eq for Parameters {

}

impl PartialEq for WitnessTypes {
    fn eq(&self, other: &Self) -> (result: bool) {
        same_types(&self.types, &other.types)
    }
}

impl PartialEqSpecImpl for WitnessTypes {
    open spec fn obeys_eq_spec() -> bool {
        true
    }

    open spec fn eq_spec(&self, other: &Self) -> bool {
        self@ == other@
    }
}

impl Eq for WitnessTypes {

}

} // verus!
