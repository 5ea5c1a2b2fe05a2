//! Which types have the same structure.
use super::{
    list_structure, power, power_below, product, structure, structures, word, StructuralType,
};
use crate::list::{shared, List};
use crate::types::{ResolvedType, UIntType};
use crate::value::laws::width_of;
use std::sync::Arc;
use vstd::arithmetic::power2::{lemma_pow2_unfold, pow2};
use vstd::prelude::*;

verus! {

/// The larger of two numbers.
pub open spec fn larger(a: nat, b: nat) -> nat {
    if a >= b {
        a
    } else {
        b
    }
}

/// The number of bits that it takes to store a value of a structure: one bit tells left and right
/// values apart.
pub open spec fn bits(t: StructuralType) -> nat
    decreases t,
{
    match t {
        StructuralType::Unit => 0,
        StructuralType::Sum(l, r) => 1 + larger(bits(*l), bits(*r)),
        StructuralType::Product(l, r) => bits(*l) + bits(*r),
    }
}

/// The number of bits of values of structures together.
pub open spec fn all_bits(list: Seq<StructuralType>) -> nat
    decreases list.len(),
{
    if list.len() == 0 {
        0
    } else {
        all_bits(list.drop_last()) + bits(list.last())
    }
}

/// The bits of two lists of structures.
proof fn lemma_all_bits(a: Seq<StructuralType>, b: Seq<StructuralType>)
    ensures
        all_bits(a + b) == all_bits(a) + all_bits(b),
    decreases b.len(),
{
    if b.len() == 0 {
        assert(a + b =~= a);
    } else {
        lemma_all_bits(a, b.drop_last());
        assert((a + b).drop_last() =~= a + b.drop_last());
        assert((a + b).last() == b.last());
    }
}

/// The number that splits a list is a power of two, smaller than the length of the list and at
/// least half of it.
pub proof fn split_is_power_of_two(n: nat)
    requires
        n >= 2,
    ensures
        power_below(n) < n <= 2 * power_below(n),
        exists|k: nat| power_below(n) == #[trigger] pow2(k),
    decreases n,
{
    if n == 2 {
        vstd::arithmetic::power2::lemma2_to64();
        assert(power_below(n) == pow2(0));
    } else {
        let half = ((n + 1) / 2) as nat;
        split_is_power_of_two(half);
        let k = choose|k: nat| power_below(half) == #[trigger] pow2(k);
        lemma_pow2_unfold(k + 1);
        assert(power_below(n) == pow2(k + 1));
    }
}

/// Whether a structure is the balanced product of others: the first ones, as many as the largest
/// power of two below their number, are on the left, and the other ones are on the right.
pub open spec fn is_balanced(t: StructuralType, list: Seq<StructuralType>) -> bool
    decreases list.len(),
{
    if list.len() == 0 {
        t == StructuralType::Unit
    } else if list.len() == 1 {
        t == list[0]
    } else {
        t matches StructuralType::Product(l, r) && exists|k: nat|
            0 < #[trigger] pow2(k) < list.len() <= 2 * pow2(k) && is_balanced(
                *l,
                list.take(pow2(k) as int),
            ) && is_balanced(*r, list.skip(pow2(k) as int))
    }
}

/// A product is balanced, and it takes the bits of all its parts.
proof fn lemma_product(list: Seq<StructuralType>)
    ensures
        is_balanced(product(list), list),
        bits(product(list)) == all_bits(list),
    decreases list.len(),
{
    reveal_with_fuel(all_bits, 2);
    if list.len() == 1 {
        assert(list.drop_last() =~= Seq::empty());
        assert(list.last() == list[0]);
    } else if list.len() >= 2 {
        split_is_power_of_two(list.len());
        let half = power_below(list.len());
        let k = choose|k: nat| half == #[trigger] pow2(k);
        let (a, b) = (list.take(half as int), list.skip(half as int));
        lemma_product(a);
        lemma_product(b);
        assert(a + b =~= list);
        lemma_all_bits(a, b);
        let (l, r) = (product(a), product(b));
        assert(product(list) == StructuralType::Product(Arc::new(l), Arc::new(r)));
        assert(0 < pow2(k) < list.len() <= 2 * pow2(k));
    }
}

/// The structures of types, one for each.
proof fn lemma_structures(tys: List<ResolvedType>)
    ensures
        structures(tys).len() == tys@.len(),
        forall|i: int|
            0 <= i < tys@.len() ==> #[trigger] structures(tys)[i] == structure(tys@[i]),
    decreases tys,
{
    if let List::Cons(head, tail) = tys {
        lemma_structures(*tail);
        assert forall|i: int| 0 <= i < tys@.len() implies #[trigger] structures(tys)[i]
            == structure(tys@[i]) by {
            if i > 0 {
                assert(tys@[i] == tail@[i - 1]);
                assert(structures(tys)[i] == structures(*tail)[i - 1]);
            }
        }
    }
}

/// A tuple is the balanced product of its components, in their order.
pub proof fn tuples_are_products(tys: Arc<List<ResolvedType>>)
    ensures
        is_balanced(
            structure(ResolvedType::Tuple(tys)),
            Seq::new(tys@.len(), |i: int| structure(tys@[i])),
        ),
{
    let list = shared(tys);
    lemma_structures(list);
    lemma_product(structures(list));
    assert(structures(list) =~= Seq::new(list@.len(), |i: int| structure(list@[i])));
}

/// An array has the structure of a tuple of as many elements.
pub proof fn arrays_are_tuples(element: Arc<ResolvedType>, n: usize, tys: Arc<List<ResolvedType>>)
    requires
        tys@.len() == n,
        forall|i: int| 0 <= i < n ==> #[trigger] tys@[i] == *element,
    ensures
        structure(ResolvedType::Array(element, n)) == structure(ResolvedType::Tuple(tys)),
{
    let list = shared(tys);
    lemma_structures(list);
    let t = structure(shared(element));
    assert(structures(list) =~= Seq::new(n as nat, |i: int| t)) by {
        assert forall|i: int| 0 <= i < n implies structures(list)[i] == t by {
            assert(list@[i] == shared(element));
        }
    }
}

/// A truth value is a word of one bit, and a word is a pair of words of half its width.
pub proof fn words_are_pairs()
    ensures
        structure(ResolvedType::Boolean) == StructuralType::Sum(
            Arc::new(StructuralType::Unit),
            Arc::new(StructuralType::Unit),
        ),
        structure(ResolvedType::UInt(UIntType::U1)) == structure(ResolvedType::Boolean),
        is_pair(UIntType::U2, UIntType::U1),
        is_pair(UIntType::U4, UIntType::U2),
        is_pair(UIntType::U8, UIntType::U4),
        is_pair(UIntType::U16, UIntType::U8),
        is_pair(UIntType::U32, UIntType::U16),
        is_pair(UIntType::U64, UIntType::U32),
        is_pair(UIntType::U128, UIntType::U64),
        is_pair(UIntType::U256, UIntType::U128),
{
    assert(word(0) == StructuralType::Sum(
        Arc::new(StructuralType::Unit),
        Arc::new(StructuralType::Unit),
    ));
    lemma_word(1);
    lemma_word(2);
    lemma_word(3);
    lemma_word(4);
    lemma_word(5);
    lemma_word(6);
    lemma_word(7);
    lemma_word(8);
}

/// A word is a pair of words.
proof fn lemma_word(k: nat)
    requires
        k > 0,
    ensures
        word(k) == StructuralType::Product(
            Arc::new(word((k - 1) as nat)),
            Arc::new(word((k - 1) as nat)),
        ),
{
}

/// Whether a word is a pair of other words.
pub open spec fn is_pair(ty: UIntType, half: UIntType) -> bool {
    structure(ResolvedType::UInt(ty)) == StructuralType::Product(
        Arc::new(structure(ResolvedType::UInt(half))),
        Arc::new(structure(ResolvedType::UInt(half))),
    )
}

/// The structure of an either type tells the left and the right type apart, and that of an optional
/// type tells nothing and something apart.
pub proof fn sums_tell_values_apart(l: Arc<ResolvedType>, r: Arc<ResolvedType>)
    ensures
        structure(ResolvedType::Either(l, r)) == StructuralType::Sum(
            Arc::new(structure(*l)),
            Arc::new(structure(*r)),
        ),
        structure(ResolvedType::Option(r)) == StructuralType::Sum(
            Arc::new(StructuralType::Unit),
            Arc::new(structure(*r)),
        ),
{
}

/// A list of fewer than two elements is an optional element. A list of fewer than twice `n`
/// elements is an optional array of `n` elements and a list of fewer than `n` elements.
pub proof fn lists_are_blocks(element: Arc<ResolvedType>, n: usize)
    requires
        n >= 1,
        2 * n <= usize::MAX,
    ensures
        n == 1 ==> structure(ResolvedType::List(element, 2)) == structure(
            ResolvedType::Option(element),
        ),
        n >= 2 ==> structure(ResolvedType::List(element, (2 * n) as usize))
            == StructuralType::Product(
            Arc::new(
                structure(ResolvedType::Option(Arc::new(ResolvedType::Array(element, n)))),
            ),
            Arc::new(structure(ResolvedType::List(element, n))),
        ),
{
    let t = structure(shared(element));
    let array = ResolvedType::Array(element, n);
    assert(structure(array) == power(t, n as nat));
    assert(power(t, 1) == t) by {
        assert(Seq::new(1nat, |i: int| t)[0] == t);
    }
    if n >= 2 {
        assert(((2 * n) as nat) / 2 == n as nat);
        assert(list_structure(t, (2 * n) as nat) == StructuralType::Product(
            Arc::new(
                StructuralType::Sum(
                    Arc::new(StructuralType::Unit),
                    Arc::new(power(t, n as nat)),
                ),
            ),
            Arc::new(list_structure(t, n as nat)),
        ));
        assert(structure(ResolvedType::Option(Arc::new(array))) == StructuralType::Sum(
            Arc::new(StructuralType::Unit),
            Arc::new(structure(array)),
        ));
    }
}

/// A word of two to the power of `k` bits.
proof fn lemma_word_bits(k: nat)
    ensures
        bits(word(k)) == pow2(k),
    decreases k,
{
    vstd::arithmetic::power2::lemma2_to64();
    reveal_with_fuel(bits, 2);
    if k > 0 {
        lemma_word_bits((k - 1) as nat);
        lemma_pow2_unfold(k);
    }
}

/// An integer takes as many bits as its type is wide, and a tuple as many as its components take
/// together.
pub proof fn values_take_their_bits(ty: UIntType, tys: Arc<List<ResolvedType>>)
    ensures
        bits(structure(ResolvedType::UInt(ty))) == width_of(ty),
        bits(structure(ResolvedType::Tuple(tys))) == all_bits(
            Seq::new(tys@.len(), |i: int| structure(tys@[i])),
        ),
{
    vstd::arithmetic::power2::lemma2_to64();
    lemma_word_bits(ty.log_width());
    let list = shared(tys);
    lemma_structures(list);
    lemma_product(structures(list));
    assert(structures(list) =~= Seq::new(list@.len(), |i: int| structure(list@[i])));
}

} // verus!
