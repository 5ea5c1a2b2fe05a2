//! Singly linked lists.
//!
//! The children of a syntax tree are kept in such lists: a tree is then an ordinary
//! algebraic value, and a contract can name the tree that a function returns.
use std::sync::Arc;
use vstd::prelude::*;

verus! {

/// A singly linked list.
#[derive(Debug, PartialEq, Eq, Hash)]
pub enum List<T> {
    Nil,
    Cons(T, Box<List<T>>),
}

impl<T> List<T> {
    /// The elements of the list, first to last.
    pub open spec fn seq(self) -> Seq<T>
        decreases self,
    {
        match self {
            List::Nil => Seq::empty(),
            List::Cons(head, tail) => seq![head] + tail.seq(),
        }
    }
}

impl<T> View for List<T> {
    type V = Seq<T>;

    open spec fn view(&self) -> Seq<T> {
        self.seq()
    }
}

/// The value that a shared pointer leads to.
#[verifier::inline]
pub open spec fn shared<T>(pointer: Arc<T>) -> T {
    *pointer
}

/// The number `n`, or the largest number of the machine if `n` is larger.
pub open spec fn clamp_to_usize(n: nat) -> usize {
    if n <= usize::MAX {
        n as usize
    } else {
        usize::MAX
    }
}

impl<T> List<T> {
    /// Convert a vector into a list of the same elements.
    pub fn from_vec(elements: Vec<T>) -> (list: List<T>)
        ensures
            list@ == elements@,
    {
        let mut rest: Vec<T> = elements;
        let mut list: List<T> = List::Nil;
        while rest.len() > 0
            invariant
                rest@ + list@ == elements@,
            decreases rest.len(),
        {
            let ghost before = rest@;
            let ghost tail = list@;
            if let Some(last) = rest.pop() {
                list = List::Cons(last, Box::new(list));
                assert(list@ == seq![before.last()] + tail);
                assert(rest@ + list@ =~= before + tail);
            }
        }
        list
    }

    /// References to the elements of the list, first to last.
    pub fn to_vec(&self) -> (elements: Vec<&T>)
        ensures
            elements@.len() == self@.len(),
            forall|i: int| 0 <= i < self@.len() ==> *#[trigger] elements@[i] == self@[i],
    {
        let mut elements: Vec<&T> = Vec::new();
        let mut rest: &List<T> = self;
        loop
            invariant
                elements@.len() + rest@.len() == self@.len(),
                forall|i: int| 0 <= i < elements@.len() ==> *#[trigger] elements@[i] == self@[i],
                forall|i: int|
                    0 <= i < rest@.len() ==> #[trigger] rest@[i] == self@[elements@.len() + i],
            ensures
                elements@.len() == self@.len(),
                forall|i: int| 0 <= i < self@.len() ==> *#[trigger] elements@[i] == self@[i],
            decreases *rest,
        {
            match rest {
                List::Nil => {
                    break;
                },
                List::Cons(head, tail) => {
                    assert(rest@[0] == *head);
                    assert forall|i: int| 0 <= i < tail@.len() implies #[trigger] tail@[i]
                        == self@[elements@.len() + 1 + i] by {
                        assert(rest@[i + 1] == tail@[i]);
                    }
                    elements.push(head);
                    rest = tail;
                },
            }
        }
        elements
    }

    /// Check whether the list has exactly `n` elements.
    pub fn has_len(&self, n: usize) -> (result: bool)
        ensures
            result == (self@.len() == n),
        decreases self,
    {
        match self {
            List::Nil => n == 0,
            List::Cons(_, tail) => n > 0 && tail.has_len(n - 1),
        }
    }

    /// Check whether the list has at least `n` elements.
    pub fn has_at_least(&self, n: usize) -> (result: bool)
        ensures
            result == (self@.len() >= n),
        decreases self,
    {
        match self {
            List::Nil => n == 0,
            List::Cons(_, tail) => n == 0 || tail.has_at_least(n - 1),
        }
    }

    /// Check whether two lists have the same number of elements.
    pub fn same_len<U>(&self, other: &List<U>) -> (result: bool)
        ensures
            result == (self@.len() == other@.len()),
        decreases self,
    {
        match (self, other) {
            (List::Nil, List::Nil) => true,
            (List::Cons(_, a), List::Cons(_, b)) => a.same_len(b),
            _ => false,
        }
    }

    /// The number of elements.
    ///
    /// A list that is longer than any number of the machine counts as `usize::MAX` long.
    pub fn len(&self) -> (n: usize)
        ensures
            n == clamp_to_usize(self@.len()),
    {
        let mut n: usize = 0;
        let mut rest: &List<T> = self;
        loop
            invariant
                clamp_to_usize(self@.len()) == clamp_to_usize((n + rest@.len()) as nat),
            ensures
                n == clamp_to_usize(self@.len()),
            decreases *rest,
        {
            match rest {
                List::Nil => {
                    break;
                },
                List::Cons(_, tail) => {
                    n = n.saturating_add(1);
                    rest = tail;
                },
            }
        }
        n
    }

    /// Check whether the list is empty.
    pub fn is_empty(&self) -> (result: bool)
        ensures
            result == (self@.len() == 0),
    {
        match self {
            List::Nil => true,
            List::Cons(_, _) => false,
        }
    }
}

} // verus!
