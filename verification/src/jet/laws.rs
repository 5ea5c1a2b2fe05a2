//! Which signature a jet has.
use super::{elements_jet_exists, signature, Jet, JetHinter, TypedJets};
use crate::list::List;
use vstd::prelude::*;

verus! {

/// The signature of a name is the first given one of a jet of this name. There is none if and only
/// if none is given.
pub proof fn first_signature_counts(signatures: List<Jet>, name: Seq<char>, i: int)
    requires
        0 <= i < signatures@.len(),
    ensures
        signatures@[i].name@ == name && (forall|j: int|
            0 <= j < i ==> (#[trigger] signatures@[j]).name@ != name) ==> signature(
            signatures,
            name,
        ) == Some(signatures@[i]),
        signatures@[i].name@ == name ==> signature(signatures, name) is Some,
    decreases signatures,
{
    if let List::Cons(jet, rest) = signatures {
        assert(signatures@ =~= seq![jet] + rest@);
        if i > 0 {
            assert(rest@[i - 1] == signatures@[i]);
            if signatures@[i].name@ == name && (forall|j: int|
                0 <= j < i ==> (#[trigger] signatures@[j]).name@ != name) {
                assert(signatures@[0].name@ != name);
                assert forall|j: int| 0 <= j < i - 1 implies (#[trigger] rest@[j]).name@ != name by {
                    assert(rest@[j] == signatures@[j + 1]);
                }
            }
            first_signature_counts(*rest, name, i - 1);
        }
    }
}

/// A jet is known if and only if the family has a jet of its name and its signature is given. It is
/// one of the given jets, and it has the name that it is known by.
pub proof fn known_jets_have_signatures(jets: TypedJets, name: Seq<char>)
    ensures
        jets.jets().contains_key(name) <==> elements_jet_exists(name) && (exists|i: int|
            0 <= i < jets.signatures@.len() && (#[trigger] jets.signatures@[i]).name@ == name),
        jets.jets().contains_key(name) ==> jets.jets()[name].name@ == name
            && jets.signatures@.contains(jets.jets()[name]),
{
    lemma_given(jets.signatures, name);
    if exists|i: int|
        0 <= i < jets.signatures@.len() && (#[trigger] jets.signatures@[i]).name@ == name {
        let i = choose|i: int|
            0 <= i < jets.signatures@.len() && (#[trigger] jets.signatures@[i]).name@ == name;
        first_signature_counts(jets.signatures, name, i);
    }
}

/// A signature that is found is one of the given ones.
proof fn lemma_given(signatures: List<Jet>, name: Seq<char>)
    ensures
        signature(signatures, name) matches Some(jet) ==> jet.name@ == name && (exists|i: int|
            0 <= i < signatures@.len() && #[trigger] signatures@[i] == jet),
    decreases signatures,
{
    if let List::Cons(jet, rest) = signatures {
        assert(signatures@ =~= seq![jet] + rest@);
        if jet.name@ == name {
            assert(signatures@[0] == jet);
        } else {
            lemma_given(*rest, name);
            if let Some(found) = signature(*rest, name) {
                let i = choose|i: int| 0 <= i < rest@.len() && #[trigger] rest@[i] == found;
                assert(signatures@[i + 1] == found);
            }
        }
    }
}

} // verus!
