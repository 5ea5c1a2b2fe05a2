//! Jets, the builtin functions of the machine.
pub mod laws;

use crate::list::List;
use crate::name::{Identifier, JetName};
use crate::types::AliasedType;
use std::sync::Arc;
use vstd::prelude::*;

verus! {

/// A jet: a builtin function with its signature.
#[derive(Debug, PartialEq, Eq, Hash)]
pub struct Jet {
    /// The name of the jet.
    pub name: JetName,
    /// The types of the arguments.
    pub source_type: Arc<List<AliasedType>>,
    /// The type of the result.
    pub target_type: Arc<AliasedType>,
    /// Whether programs must not call the jet.
    pub disabled: bool,
}

impl View for Jet {
    type V = Jet;

    /// A jet with its signature stands for itself.
    open spec fn view(&self) -> Jet {
        *self
    }
}

impl Clone for Jet {
    fn clone(&self) -> (result: Self)
        ensures
            result == *self,
    {
        Jet {
            name: self.name.clone(),
            source_type: self.source_type.clone(),
            target_type: self.target_type.clone(),
            disabled: self.disabled,
        }
    }
}

/// Object which produces a specific kind of jet.
pub trait JetHinter: Sized {
    /// The kind of jet.
    type Jet: View;

    /// The jets that can be produced, by name.
    spec fn jets(&self) -> Map<Seq<char>, <Self::Jet as View>::V>;

    /// The name of a jet.
    spec fn jet_name(jet: <Self::Jet as View>::V) -> Seq<char>;

    /// Attempts to parse a jet from a string.
    fn parse_jet(&self, name: &str) -> (jet: Option<Self::Jet>)
        ensures
            match jet {
                Some(j) => self.jets().contains_key(name@) && j@ == self.jets()[name@],
                None => !self.jets().contains_key(name@),
            },
    ;

    /// Constructs an instance of the `verify` jet.
    fn construct_verify(&self) -> (jet: Self::Jet)
        ensures
            Self::jet_name(jet@) == "verify"@,
    ;

    /// Clones the hinter into a box.
    fn clone_box(&self) -> (copy: Box<Self>)
        ensures
            copy.jets() == self.jets(),
    ;
}

/// Whether the Elements family of jets has a jet of the given name.
pub uninterp spec fn elements_jet_exists(name: Seq<char>) -> bool;

/// Calls `Elements::parse` of the crate `simplicity` and reports whether it found a jet.
///
/// Whether a jet is found depends on the given name alone.
#[verifier::external_body]
fn find_elements_jet(name: &str) -> (exists: bool)
    ensures
        exists == elements_jet_exists(name@),
{
    <simplicity::jet::Elements as simplicity::jet::Jet>::parse(name).is_ok()
}

/// The first signature of the given name.
pub open spec fn signature(signatures: List<Jet>, name: Seq<char>) -> Option<Jet>
    decreases signatures,
{
    match signatures {
        List::Nil => None,
        List::Cons(jet, rest) => if jet.name@ == name {
            Some(jet)
        } else {
            signature(*rest, name)
        },
    }
}

/// A jet of the Elements family.
#[derive(Debug, PartialEq, Eq, Hash)]
pub struct ElementsJet {
    /// The name of the jet.
    pub name: JetName,
}

impl View for ElementsJet {
    type V = Seq<char>;

    /// A jet of the Elements family is known by its name.
    open spec fn view(&self) -> Seq<char> {
        self.name@
    }
}

/// Produces the jets of the Elements family.
#[derive(Debug, Default)]
pub struct ElementsJetHinter;

impl Clone for ElementsJetHinter {
    fn clone(&self) -> (result: Self)
        ensures
            result == *self,
    {
        ElementsJetHinter
    }
}

impl ElementsJetHinter {
    /// Create a hinter.
    pub fn new() -> (hinter: ElementsJetHinter)
        ensures
            hinter == ElementsJetHinter,
    {
        ElementsJetHinter
    }

    /// The jet of the given name, if such a jet exists.
    pub fn known_jet(&self, name: &str, exists: bool) -> (jet: Option<ElementsJet>)
        ensures
            match jet {
                Some(jet) => exists && jet@ == name@,
                None => !exists,
            },
    {
        if exists {
            Some(ElementsJet { name: Identifier::from_str_unchecked(name) })
        } else {
            None
        }
    }

    /// Give the jets their signatures. Of two signatures of the same name the former counts.
    ///
    /// The family itself knows only the names of its jets. A program is checked against their
    /// signatures, so that it can call the jets whose signature is given.
    pub fn with_signatures(self, signatures: Vec<Jet>) -> (jets: TypedJets)
        ensures
            jets.signatures@ == signatures@,
    {
        TypedJets { hinter: self, signatures: List::from_vec(signatures) }
    }
}

impl JetHinter for ElementsJetHinter {
    type Jet = ElementsJet;

    open spec fn jets(&self) -> Map<Seq<char>, Seq<char>> {
        Map::new(|name: Seq<char>| elements_jet_exists(name), |name: Seq<char>| name)
    }

    open spec fn jet_name(jet: Seq<char>) -> Seq<char> {
        jet
    }

    fn parse_jet(&self, name: &str) -> (jet: Option<ElementsJet>) {
        let exists = find_elements_jet(name);
        self.known_jet(name, exists)
    }

    fn construct_verify(&self) -> (jet: ElementsJet) {
        ElementsJet { name: Identifier::from_str_unchecked("verify") }
    }

    fn clone_box(&self) -> (copy: Box<Self>)
        ensures
            *copy == *self,
    {
        Box::new(self.clone())
    }
}

/// The jets of the Elements family with their signatures, as far as these are given.
#[derive(Debug)]
pub struct TypedJets {
    pub hinter: ElementsJetHinter,
    pub signatures: List<Jet>,
}

/// Copy signatures.
fn copy_signatures(signatures: &List<Jet>) -> (copy: List<Jet>)
    ensures
        copy == *signatures,
    decreases signatures,
{
    match signatures {
        List::Nil => List::Nil,
        List::Cons(head, tail) => List::Cons(head.clone(), Box::new(copy_signatures(tail))),
    }
}

impl Clone for TypedJets {
    fn clone(&self) -> (result: Self)
        ensures
            result == *self,
    {
        TypedJets {
            hinter: self.hinter.clone(),
            signatures: copy_signatures(&self.signatures),
        }
    }
}

/// Find the first signature of the given name.
fn find_signature(signatures: &List<Jet>, name: &str) -> (result: Option<Jet>)
    ensures
        result == signature(*signatures, name@),
    decreases signatures,
{
    match signatures {
        List::Nil => None,
        List::Cons(jet, rest) => {
            if jet.name.is(name) {
                Some(jet.clone())
            } else {
                find_signature(rest, name)
            }
        },
    }
}

impl TypedJets {
    /// The jet of the given name with its signature, if such a jet exists and its signature is
    /// given.
    pub fn typed_jet(&self, name: &str, exists: bool) -> (jet: Option<Jet>)
        ensures
            jet == (if exists {
                signature(self.signatures, name@)
            } else {
                None
            }),
    {
        if exists {
            find_signature(&self.signatures, name)
        } else {
            None
        }
    }
}

impl JetHinter for TypedJets {
    type Jet = Jet;

    open spec fn jets(&self) -> Map<Seq<char>, Jet> {
        Map::new(
            |name: Seq<char>|
                self.hinter.jets().contains_key(name) && signature(self.signatures, name) is Some,
            |name: Seq<char>| signature(self.signatures, name)->0,
        )
    }

    open spec fn jet_name(jet: Jet) -> Seq<char> {
        jet.name@
    }

    fn parse_jet(&self, name: &str) -> (jet: Option<Jet>) {
        let exists = self.hinter.parse_jet(name).is_some();
        self.typed_jet(name, exists)
    }

    fn construct_verify(&self) -> (jet: Jet)
        ensures
            jet.source_type@ == seq![AliasedType::Boolean],
            *jet.target_type == AliasedType::Tuple(Arc::new(List::Nil)),
            !jet.disabled,
    {
        let source_type: List<AliasedType> = List::Cons(
            AliasedType::Boolean,
            Box::new(List::Nil),
        );
        proof {
            reveal_with_fuel(List::seq, 2);
        }
        Jet {
            name: Identifier::from_str_unchecked("verify"),
            source_type: Arc::new(source_type),
            target_type: Arc::new(AliasedType::Tuple(Arc::new(List::Nil))),
            disabled: false,
        }
    }

    fn clone_box(&self) -> (copy: Box<Self>)
        ensures
            *copy == *self,
    {
        Box::new(self.clone())
    }
}

} // verus!
