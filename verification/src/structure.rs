//! The structure of types.
//!
//! A value can be cast from one type to another if both types have the same structure.
pub mod laws;

use crate::list::List;
use crate::types::{ResolvedType, UIntType};
use std::sync::Arc;
use vstd::prelude::*;

verus! {

/// A type built from the unit type by sums and products.
#[derive(Debug, PartialEq, Eq, Hash)]
pub enum StructuralType {
    Unit,
    Sum(Arc<StructuralType>, Arc<StructuralType>),
    Product(Arc<StructuralType>, Arc<StructuralType>),
}

/// The largest power of two below `n`, for `n` larger than one.
pub open spec fn power_below(n: nat) -> nat
    decreases n,
{
    if n <= 2 {
        1
    } else {
        2 * power_below(((n + 1) / 2) as nat)
    }
}

/// The largest power of two below `n` splits `n` into two smaller numbers.
proof fn lemma_power_below(n: nat)
    requires
        n >= 2,
    ensures
        0 < power_below(n) < n,
    decreases n,
{
    if n > 2 {
        lemma_power_below(((n + 1) / 2) as nat);
    }
}

/// The structure of a word of two to the power of `k` bits.
pub open spec fn word(k: nat) -> StructuralType
    decreases k,
{
    if k == 0 {
        StructuralType::Sum(Arc::new(StructuralType::Unit), Arc::new(StructuralType::Unit))
    } else {
        let half = word((k - 1) as nat);
        StructuralType::Product(Arc::new(half), Arc::new(half))
    }
}

/// The product of the given types, as a binary tree that is perfect on the left.
pub open spec fn product(elements: Seq<StructuralType>) -> StructuralType
    decreases elements.len(),
{
    if elements.len() == 0 {
        StructuralType::Unit
    } else if elements.len() == 1 {
        elements[0]
    } else {
        let half = power_below(elements.len());
        if 0 < half < elements.len() {
            StructuralType::Product(
                Arc::new(product(elements.take(half as int))),
                Arc::new(product(elements.skip(half as int))),
            )
        } else {
            StructuralType::Unit
        }
    }
}

/// The product of `n` copies of a type, as a binary tree that is perfect on the left.
pub open spec fn power(element: StructuralType, n: nat) -> StructuralType {
    product(Seq::new(n, |i: int| element))
}

/// The structure of a list of fewer than `bound` elements.
///
/// The list is stored in blocks of half of `bound` elements, a quarter of `bound` elements,
/// and so on down to a single element. Each block is either there or not.
pub open spec fn list_structure(element: StructuralType, bound: nat) -> StructuralType
    decreases bound,
{
    let half = (bound / 2) as nat;
    let block = StructuralType::Sum(
        Arc::new(StructuralType::Unit),
        Arc::new(power(element, half)),
    );
    if bound <= 3 {
        block
    } else {
        StructuralType::Product(Arc::new(block), Arc::new(list_structure(element, half)))
    }
}

/// The structure of a type.
pub open spec fn structure(ty: ResolvedType) -> StructuralType
    decreases ty,
{
    match ty {
        ResolvedType::Either(l, r) => StructuralType::Sum(
            Arc::new(structure(*l)),
            Arc::new(structure(*r)),
        ),
        ResolvedType::Option(t) => StructuralType::Sum(
            Arc::new(StructuralType::Unit),
            Arc::new(structure(*t)),
        ),
        ResolvedType::Boolean => word(0),
        ResolvedType::UInt(n) => word(n.log_width()),
        ResolvedType::Tuple(ts) => product(structures(*ts)),
        ResolvedType::Array(t, n) => power(structure(*t), n as nat),
        ResolvedType::List(t, n) => list_structure(structure(*t), n as nat),
    }
}

/// The structure of each type.
pub open spec fn structures(tys: List<ResolvedType>) -> Seq<StructuralType>
    decreases tys,
{
    match tys {
        List::Nil => Seq::empty(),
        List::Cons(head, tail) => seq![structure(head)] + structures(*tail),
    }
}

/// Compute the largest power of two below `n`.
fn find_power_below(n: usize) -> (result: usize)
    requires
        n >= 2,
    ensures
        result == power_below(n as nat),
        0 < result < n,
    decreases n,
{
    proof {
        lemma_power_below(n as nat);
    }
    if n <= 2 {
        1
    } else {
        assert((n + 1) / 2 == n / 2 + n % 2);
        2 * find_power_below(n / 2 + n % 2)
    }
}

impl Clone for StructuralType {
    fn clone(&self) -> (result: Self)
        ensures
            result == *self,
    {
        match self {
            StructuralType::Unit => StructuralType::Unit,
            StructuralType::Sum(l, r) => StructuralType::Sum(l.clone(), r.clone()),
            StructuralType::Product(l, r) => StructuralType::Product(l.clone(), r.clone()),
        }
    }
}

impl StructuralType {
    /// Check whether two types are equal.
    pub fn same(&self, other: &StructuralType) -> (result: bool)
        ensures
            result == (*self == *other),
        decreases self,
    {
        match (self, other) {
            (StructuralType::Unit, StructuralType::Unit) => true,
            (StructuralType::Sum(a, b), StructuralType::Sum(c, d)) => a.same(c) && b.same(d),
            (StructuralType::Product(a, b), StructuralType::Product(c, d)) => a.same(c) && b.same(
                d,
            ),
            _ => false,
        }
    }

    /// Build a word of two to the power of `k` bits.
    fn word(k: u8) -> (result: StructuralType)
        ensures
            result == word(k as nat),
        decreases k,
    {
        if k == 0 {
            StructuralType::Sum(Arc::new(StructuralType::Unit), Arc::new(StructuralType::Unit))
        } else {
            let half = Arc::new(StructuralType::word(k - 1));
            StructuralType::Product(half.clone(), half)
        }
    }

    /// Build the product of the elements from index `start` up to index `end`.
    fn product(elements: &Vec<StructuralType>, start: usize, end: usize) -> (result: StructuralType)
        requires
            start <= end <= elements.len(),
        ensures
            result == product(elements@.subrange(start as int, end as int)),
        decreases end - start,
    {
        let ghost part = elements@.subrange(start as int, end as int);
        let n: usize = end - start;
        if n == 0 {
            StructuralType::Unit
        } else if n == 1 {
            elements[start].clone()
        } else {
            let half: usize = find_power_below(n);
            assert(part.take(half as int) =~= elements@.subrange(
                start as int,
                (start + half) as int,
            ));
            assert(part.skip(half as int) =~= elements@.subrange(
                (start + half) as int,
                end as int,
            ));
            StructuralType::Product(
                Arc::new(StructuralType::product(elements, start, start + half)),
                Arc::new(StructuralType::product(elements, start + half, end)),
            )
        }
    }

    /// Build the product of `n` copies of a type.
    fn power(element: &StructuralType, n: usize) -> (result: StructuralType)
        ensures
            result == power(*element, n as nat),
        decreases n,
    {
        let ghost copies = Seq::new(n as nat, |i: int| *element);
        if n == 0 {
            StructuralType::Unit
        } else if n == 1 {
            element.clone()
        } else {
            let half: usize = find_power_below(n);
            assert(copies.take(half as int) =~= Seq::new(half as nat, |i: int| *element));
            assert(copies.skip(half as int) =~= Seq::new((n - half) as nat, |i: int| *element));
            StructuralType::Product(
                Arc::new(StructuralType::power(element, half)),
                Arc::new(StructuralType::power(element, n - half)),
            )
        }
    }

    /// Build the structure of a list of fewer than `bound` elements.
    fn list(element: &StructuralType, bound: usize) -> (result: StructuralType)
        ensures
            result == list_structure(*element, bound as nat),
        decreases bound,
    {
        let half: usize = bound / 2;
        let block = StructuralType::Sum(
            Arc::new(StructuralType::Unit),
            Arc::new(StructuralType::power(element, half)),
        );
        if bound <= 3 {
            block
        } else {
            StructuralType::Product(Arc::new(block), Arc::new(StructuralType::list(element, half)))
        }
    }

    /// Append the structure of each type to `out`.
    fn push_all(tys: &List<ResolvedType>, out: &mut Vec<StructuralType>)
        ensures
            final(out)@ == old(out)@ + structures(*tys),
        decreases tys,
    {
        match tys {
            List::Nil => {
                assert(out@ =~= out@ + Seq::<StructuralType>::empty());
            },
            List::Cons(head, tail) => {
                let ghost start = out@;
                out.push(StructuralType::of(head));
                StructuralType::push_all(tail, out);
                assert(out@ =~= start + structures(*tys));
            },
        }
    }

    /// Build the structure of a type.
    pub fn of(ty: &ResolvedType) -> (result: StructuralType)
        ensures
            result == structure(*ty),
        decreases ty,
    {
        match ty {
            ResolvedType::Either(l, r) => StructuralType::Sum(
                Arc::new(StructuralType::of(l)),
                Arc::new(StructuralType::of(r)),
            ),
            ResolvedType::Option(t) => StructuralType::Sum(
                Arc::new(StructuralType::Unit),
                Arc::new(StructuralType::of(t)),
            ),
            ResolvedType::Boolean => StructuralType::word(0),
            ResolvedType::UInt(n) => StructuralType::word(
                match n {
                    UIntType::U1 => 0,
                    UIntType::U2 => 1,
                    UIntType::U4 => 2,
                    UIntType::U8 => 3,
                    UIntType::U16 => 4,
                    UIntType::U32 => 5,
                    UIntType::U64 => 6,
                    UIntType::U128 => 7,
                    UIntType::U256 => 8,
                },
            ),
            ResolvedType::Tuple(ts) => {
                let mut elements: Vec<StructuralType> = Vec::new();
                StructuralType::push_all(ts, &mut elements);
                assert(elements@ =~= structures(**ts));
                assert(elements@.subrange(0, elements@.len() as int) =~= elements@);
                StructuralType::product(&elements, 0, elements.len())
            },
            ResolvedType::Array(t, n) => StructuralType::power(&StructuralType::of(t), *n),
            ResolvedType::List(t, n) => StructuralType::list(&StructuralType::of(t), *n),
        }
    }
}

} // verus!
