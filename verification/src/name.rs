//! Names that occur in programs.
use vstd::prelude::*;

verus! {

/// The name of a variable, of an item or of a path segment.
#[derive(Debug, PartialEq, Eq, Hash)]
pub struct Identifier {
    /// The characters of the name.
    pub text: String,
}

/// The name of a function.
pub type FunctionName = Identifier;

/// The name of a type alias.
pub type AliasName = Identifier;

/// The name of a module.
pub type ModuleName = Identifier;

/// The name of a witness or of a parameter.
pub type WitnessName = Identifier;

/// The name of a jet.
pub type JetName = Identifier;

/// The name of an imported item of any kind.
pub type SymbolName = Identifier;

impl View for Identifier {
    type V = Seq<char>;

    open spec fn view(&self) -> Seq<char> {
        self.text@
    }
}

impl Clone for Identifier {
    fn clone(&self) -> (result: Self)
        ensures
            result == *self,
    {
        Identifier { text: self.text.clone() }
    }
}

/// The characters of each name.
pub open spec fn names(ids: Seq<Identifier>) -> Seq<Seq<char>> {
    Seq::new(ids.len(), |i: int| ids[i]@)
}

impl Identifier {
    /// Create a name from its characters, without checking that they form an identifier.
    pub fn from_str_unchecked(text: &str) -> (result: Identifier)
        ensures
            result@ == text@,
    {
        Identifier { text: text.to_owned() }
    }

    /// The characters of the name.
    pub fn as_inner(&self) -> (text: &str)
        ensures
            text@ == self@,
    {
        self.text.as_str()
    }

    /// Check whether two names have the same characters.
    pub fn same(&self, other: &Identifier) -> (result: bool)
        ensures
            result == (self@ == other@),
    {
        self.text == other.text
    }

    /// Check whether the name has the given characters.
    pub fn is(&self, text: &str) -> (result: bool)
        ensures
            result == (self@ == text@),
    {
        self.text == text.to_owned()
    }
}

} // verus!
