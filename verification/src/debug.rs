//! Record of the function calls of a program, for debugging.
use crate::error::Span;
use crate::types::ResolvedType;
use vstd::prelude::*;

verus! {

/// Name of a tracked call.
#[derive(Debug, PartialEq, Eq, Hash)]
pub enum TrackedCallName {
    Assert,
    Panic,
    Jet,
    UnwrapLeft(ResolvedType),
    UnwrapRight(ResolvedType),
    Unwrap,
    Debug(ResolvedType),
}

/// The calls of a program that can fail or print something, in the order of their analysis.
#[derive(Debug, PartialEq, Eq)]
pub struct CallTracker {
    pub calls: Vec<(Span, TrackedCallName)>,
}

impl View for CallTracker {
    type V = Seq<(Span, TrackedCallName)>;

    open spec fn view(&self) -> Seq<(Span, TrackedCallName)> {
        self.calls@
    }
}

impl CallTracker {
    /// Create a tracker without calls.
    pub fn new() -> (tracker: CallTracker)
        ensures
            tracker@ == Seq::<(Span, TrackedCallName)>::empty(),
    {
        CallTracker { calls: Vec::new() }
    }

    /// Record a call at the given place.
    pub fn track_call(&mut self, span: Span, name: TrackedCallName)
        ensures
            final(self)@ == old(self)@.push((span, name)),
    {
        self.calls.push((span, name));
    }
}

} // verus!
