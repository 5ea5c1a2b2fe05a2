//! Equal types and equal patterns mean the same.
use super::equality::{are_same_aliased, are_same_patterns, is_same_aliased, is_same_pattern};
use crate::list::{shared, List};
use crate::pattern::{bound_by, bound_by_array, bound_by_tuple, Bindings, Pattern};
use crate::types::{resolved, resolved_all, AliasMap, AliasedType, ResolvedType};
use vstd::prelude::*;

verus! {

/// Equal types stand for the same type, or the same alias in them is not in scope.
pub proof fn equal_types_stand_for_the_same(a: AliasedType, b: AliasedType, aliases: AliasMap)
    requires
        is_same_aliased(a, b),
    ensures
        resolved(a, aliases) == resolved(b, aliases),
    decreases a,
{
    match (a, b) {
        (AliasedType::Either(s, t), AliasedType::Either(u, v)) => {
            equal_types_stand_for_the_same(shared(s), shared(u), aliases);
            equal_types_stand_for_the_same(shared(t), shared(v), aliases);
        },
        (AliasedType::Option(s), AliasedType::Option(t)) => {
            equal_types_stand_for_the_same(shared(s), shared(t), aliases);
        },
        (AliasedType::Tuple(s), AliasedType::Tuple(t)) => {
            lemma_types(shared(s), shared(t), aliases);
        },
        (AliasedType::Array(s, _), AliasedType::Array(t, _)) => {
            equal_types_stand_for_the_same(shared(s), shared(t), aliases);
        },
        (AliasedType::List(s, _), AliasedType::List(t, _)) => {
            equal_types_stand_for_the_same(shared(s), shared(t), aliases);
        },
        _ => {},
    }
}

/// Equal lists of types stand for the same types.
proof fn lemma_types(a: List<AliasedType>, b: List<AliasedType>, aliases: AliasMap)
    requires
        are_same_aliased(a, b),
    ensures
        resolved_all(a, aliases) == resolved_all(b, aliases),
    decreases a,
{
    match (a, b) {
        (List::Cons(x, xs), List::Cons(y, ys)) => {
            equal_types_stand_for_the_same(x, y, aliases);
            lemma_types(*xs, *ys, aliases);
        },
        _ => {},
    }
}

/// Equal patterns have as many elements.
proof fn lemma_len(a: List<Pattern>, b: List<Pattern>)
    requires
        are_same_patterns(a, b),
    ensures
        a@.len() == b@.len(),
    decreases a,
{
    match (a, b) {
        (List::Cons(_, xs), List::Cons(_, ys)) => {
            lemma_len(*xs, *ys);
        },
        _ => {},
    }
}

/// Equal patterns bind the same variables to the same parts, or fail in the same way.
pub proof fn equal_patterns_bind_the_same(
    a: Pattern,
    b: Pattern,
    ty: ResolvedType,
    before: Bindings,
)
    requires
        is_same_pattern(a, b),
    ensures
        bound_by(a, ty, before) == bound_by(b, ty, before),
    decreases a,
{
    match (a, b) {
        (Pattern::Tuple(x), Pattern::Tuple(y)) => {
            lemma_len(shared(x), shared(y));
            if let ResolvedType::Tuple(tys) = ty {
                lemma_tuple(shared(x), shared(y), shared(tys), before);
            }
        },
        (Pattern::Array(x), Pattern::Array(y)) => {
            lemma_len(shared(x), shared(y));
            if let ResolvedType::Array(element, _) = ty {
                lemma_array(shared(x), shared(y), shared(element), before);
            }
        },
        _ => {},
    }
}

/// Equal patterns bind the same components of a tuple.
proof fn lemma_tuple(
    a: List<Pattern>,
    b: List<Pattern>,
    tys: List<ResolvedType>,
    before: Bindings,
)
    requires
        are_same_patterns(a, b),
    ensures
        bound_by_tuple(a, tys, before) == bound_by_tuple(b, tys, before),
    decreases a,
{
    match (a, b, tys) {
        (List::Cons(x, xs), List::Cons(y, ys), List::Cons(ty, rest)) => {
            equal_patterns_bind_the_same(x, y, ty, before);
            if let Ok(after) = bound_by(x, ty, before) {
                lemma_tuple(*xs, *ys, *rest, after);
            }
        },
        _ => {},
    }
}

/// Equal patterns bind the same elements of an array.
proof fn lemma_array(a: List<Pattern>, b: List<Pattern>, element: ResolvedType, before: Bindings)
    requires
        are_same_patterns(a, b),
    ensures
        bound_by_array(a, element, before) == bound_by_array(b, element, before),
    decreases a,
{
    match (a, b) {
        (List::Cons(x, xs), List::Cons(y, ys)) => {
            equal_patterns_bind_the_same(x, y, element, before);
            if let Ok(after) = bound_by(x, element, before) {
                lemma_array(*xs, *ys, element, after);
            }
        },
        _ => {},
    }
}

} // verus!
