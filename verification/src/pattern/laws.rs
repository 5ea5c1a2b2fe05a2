//! What patterns bind.
use super::{bound_by, bound_by_array, bound_by_tuple, Bindings, Pattern};
use crate::error::ErrorView;
use crate::list::{shared, List};
use crate::types::ResolvedType;
use vstd::prelude::*;

verus! {

/// Whether a pattern has the shape of a type.
pub open spec fn fits(pattern: Pattern, ty: ResolvedType) -> bool
    decreases pattern,
{
    match pattern {
        Pattern::Identifier(_) => true,
        Pattern::Ignore => true,
        Pattern::Tuple(ps) => ty matches ResolvedType::Tuple(tys) && all_fit(*ps, *tys),
        Pattern::Array(ps) => ty matches ResolvedType::Array(element, n) && ps@.len() == n
            && all_fit_one(*ps, *element),
    }
}

/// Whether patterns have the shapes of the types at the same positions.
pub open spec fn all_fit(patterns: List<Pattern>, tys: List<ResolvedType>) -> bool
    decreases patterns,
{
    match (patterns, tys) {
        (List::Nil, List::Nil) => true,
        (List::Cons(p, ps), List::Cons(ty, rest)) => fits(p, ty) && all_fit(*ps, *rest),
        _ => false,
    }
}

/// Whether patterns all have the shape of one type.
pub open spec fn all_fit_one(patterns: List<Pattern>, ty: ResolvedType) -> bool
    decreases patterns,
{
    match patterns {
        List::Nil => true,
        List::Cons(p, ps) => fits(p, ty) && all_fit_one(*ps, ty),
    }
}

/// How often a variable occurs in a pattern.
pub open spec fn occurrences(pattern: Pattern, name: Seq<char>) -> nat
    decreases pattern,
{
    match pattern {
        Pattern::Identifier(x) => if x@ == name {
            1
        } else {
            0
        },
        Pattern::Ignore => 0,
        Pattern::Tuple(ps) => all_occurrences(*ps, name),
        Pattern::Array(ps) => all_occurrences(*ps, name),
    }
}

/// How often a variable occurs in patterns.
pub open spec fn all_occurrences(patterns: List<Pattern>, name: Seq<char>) -> nat
    decreases patterns,
{
    match patterns {
        List::Nil => 0,
        List::Cons(p, ps) => occurrences(p, name) + all_occurrences(*ps, name),
    }
}

/// Whether a pattern binds a variable to the part of a value that is of a type, given the type of
/// the value.
pub open spec fn binds(
    pattern: Pattern,
    ty: ResolvedType,
    name: Seq<char>,
    part: ResolvedType,
) -> bool
    decreases pattern,
{
    match pattern {
        Pattern::Identifier(x) => x@ == name && part == ty,
        Pattern::Ignore => false,
        Pattern::Tuple(ps) => ty matches ResolvedType::Tuple(tys) && any_binds(
            *ps,
            *tys,
            name,
            part,
        ),
        Pattern::Array(ps) => ty matches ResolvedType::Array(element, _) && any_binds_one(
            *ps,
            *element,
            name,
            part,
        ),
    }
}

/// Whether one of the patterns binds a variable to a part of the value at the same position.
pub open spec fn any_binds(
    patterns: List<Pattern>,
    tys: List<ResolvedType>,
    name: Seq<char>,
    part: ResolvedType,
) -> bool
    decreases patterns,
{
    match (patterns, tys) {
        (List::Cons(p, ps), List::Cons(ty, rest)) => binds(p, ty, name, part) || any_binds(
            *ps,
            *rest,
            name,
            part,
        ),
        _ => false,
    }
}

/// Whether one of the patterns binds a variable to a part of a value of one type.
pub open spec fn any_binds_one(
    patterns: List<Pattern>,
    ty: ResolvedType,
    name: Seq<char>,
    part: ResolvedType,
) -> bool
    decreases patterns,
{
    match patterns {
        List::Nil => false,
        List::Cons(p, ps) => binds(p, ty, name, part) || any_binds_one(*ps, ty, name, part),
    }
}

/// Whether a variable that occurs this often can be added to those that are bound: it occurs at
/// most once, and not at all if it is bound already.
spec fn is_free(count: nat, before: Bindings, name: Seq<char>) -> bool {
    count == 0 || count == 1 && !before.contains_key(name)
}

/// What is bound after more variables were bound.
spec fn is_bound(
    before: Bindings,
    after: Bindings,
    name: Seq<char>,
    part: ResolvedType,
    is_new: bool,
) -> bool {
    after.contains_key(name) && after[name] == part <==> before.contains_key(name) && before[name]
        == part || is_new
}

/// Whether the outcome of a binding is the one that is expected.
spec fn is_outcome(
    outcome: Result<Bindings, ErrorView>,
    before: Bindings,
    fit: bool,
    count: spec_fn(Seq<char>) -> nat,
    bind: spec_fn(Seq<char>, ResolvedType) -> bool,
) -> bool {
    &&& outcome is Ok <==> fit && forall|name: Seq<char>|
        is_free(#[trigger] count(name), before, name)
    &&& outcome matches Ok(after) ==> {
        &&& forall|name: Seq<char>| #[trigger]
            after.contains_key(name) <==> before.contains_key(name) || count(name) > 0
        &&& forall|name: Seq<char>, part: ResolvedType|
            is_bound(before, after, name, part, #[trigger] bind(name, part))
    }
}

/// The outcome of a binding.
proof fn lemma_bound_by(pattern: Pattern, ty: ResolvedType, before: Bindings)
    ensures
        is_outcome(
            bound_by(pattern, ty, before),
            before,
            fits(pattern, ty),
            |name: Seq<char>| occurrences(pattern, name),
            |name: Seq<char>, part: ResolvedType| binds(pattern, ty, name, part),
        ),
    decreases pattern,
{
    let count = |name: Seq<char>| occurrences(pattern, name);
    let outcome = bound_by(pattern, ty, before);
    match pattern {
        Pattern::Identifier(x) => {
            assert(count(x@) == 1);
        },
        Pattern::Ignore => {},
        Pattern::Tuple(ps) => {
            if let ResolvedType::Tuple(tys) = ty {
                lemma_all_fit(shared(ps), shared(tys));
                if shared(ps)@.len() == shared(tys)@.len() {
                    lemma_tuple(shared(ps), shared(tys), before);
                    let all = |name: Seq<char>| all_occurrences(*ps, name);
                    assert forall|name: Seq<char>| #[trigger] count(name) == all(name) by {}
                    let inner = |name: Seq<char>, part: ResolvedType|
                        any_binds(*ps, *tys, name, part);
                    let outer = |name: Seq<char>, part: ResolvedType|
                        binds(pattern, ty, name, part);
                    assert forall|name: Seq<char>, part: ResolvedType| #[trigger]
                        outer(name, part) == inner(name, part) by {}
                    assert(is_outcome(outcome, before, fits(pattern, ty), all, inner));
                    lemma_same_outcome(outcome, before, fits(pattern, ty), all, inner, count, outer);
                }
            }
        },
        Pattern::Array(ps) => {
            if let ResolvedType::Array(element, n) = ty {
                if shared(ps)@.len() == n {
                    lemma_array(shared(ps), shared(element), before);
                    let all = |name: Seq<char>| all_occurrences(*ps, name);
                    assert forall|name: Seq<char>| #[trigger] count(name) == all(name) by {}
                    let inner = |name: Seq<char>, part: ResolvedType|
                        any_binds_one(*ps, *element, name, part);
                    let outer = |name: Seq<char>, part: ResolvedType|
                        binds(pattern, ty, name, part);
                    assert forall|name: Seq<char>, part: ResolvedType| #[trigger]
                        outer(name, part) == inner(name, part) by {}
                    lemma_same_outcome(outcome, before, fits(pattern, ty), all, inner, count, outer);
                }
            }
        },
    }
}

/// The outcome of a binding can be stated with functions of the same values.
proof fn lemma_same_outcome(
    outcome: Result<Bindings, ErrorView>,
    before: Bindings,
    fit: bool,
    count: spec_fn(Seq<char>) -> nat,
    bind: spec_fn(Seq<char>, ResolvedType) -> bool,
    other_count: spec_fn(Seq<char>) -> nat,
    other_bind: spec_fn(Seq<char>, ResolvedType) -> bool,
)
    requires
        is_outcome(outcome, before, fit, count, bind),
        forall|name: Seq<char>| #[trigger] other_count(name) == count(name),
        forall|name: Seq<char>, part: ResolvedType| #[trigger]
            other_bind(name, part) == bind(name, part),
    ensures
        is_outcome(outcome, before, fit, other_count, other_bind),
{
    assert(count =~= other_count);
    assert(bind =~= other_bind);
}

/// Patterns that fit types are as many as the types.
proof fn lemma_all_fit(patterns: List<Pattern>, tys: List<ResolvedType>)
    ensures
        all_fit(patterns, tys) ==> patterns@.len() == tys@.len(),
    decreases patterns,
{
    match (patterns, tys) {
        (List::Cons(_, ps), List::Cons(_, rest)) => {
            lemma_all_fit(*ps, *rest);
        },
        _ => {},
    }
}

/// What one pattern and then other patterns bind.
proof fn lemma_then(
    first: Result<Bindings, ErrorView>,
    outcome: Result<Bindings, ErrorView>,
    before: Bindings,
    fit: bool,
    rest_fit: bool,
    count: spec_fn(Seq<char>) -> nat,
    rest_count: spec_fn(Seq<char>) -> nat,
    bind: spec_fn(Seq<char>, ResolvedType) -> bool,
    rest_bind: spec_fn(Seq<char>, ResolvedType) -> bool,
    all_count: spec_fn(Seq<char>) -> nat,
    all_bind: spec_fn(Seq<char>, ResolvedType) -> bool,
)
    requires
        is_outcome(first, before, fit, count, bind),
        first matches Ok(inside) ==> is_outcome(outcome, inside, rest_fit, rest_count, rest_bind),
        first is Err ==> outcome is Err,
        forall|name: Seq<char>| #[trigger] all_count(name) == count(name) + rest_count(name),
        forall|name: Seq<char>, part: ResolvedType| #[trigger]
            all_bind(name, part) == (bind(name, part) || rest_bind(name, part)),
    ensures
        is_outcome(outcome, before, fit && rest_fit, all_count, all_bind),
{
    if fit && rest_fit && (forall|name: Seq<char>|
        is_free(#[trigger] all_count(name), before, name)) {
        assert forall|name: Seq<char>| is_free(#[trigger] count(name), before, name) by {
            assert(is_free(all_count(name), before, name));
        }
        let inside = first->Ok_0;
        assert forall|name: Seq<char>| is_free(#[trigger] rest_count(name), inside, name) by {
            assert(is_free(all_count(name), before, name));
            assert(inside.contains_key(name) || !inside.contains_key(name));
            assert(is_free(count(name), before, name));
        }
    }
    if let Ok(after) = outcome {
        let inside = first->Ok_0;
        assert forall|name: Seq<char>| is_free(#[trigger] all_count(name), before, name) by {
            assert(is_free(count(name), before, name));
            assert(is_free(rest_count(name), inside, name));
            assert(inside.contains_key(name) || !inside.contains_key(name));
        }
        assert forall|name: Seq<char>| #[trigger]
            after.contains_key(name) <==> before.contains_key(name) || all_count(name) > 0 by {
            assert(inside.contains_key(name) || !inside.contains_key(name));
        }
        assert forall|name: Seq<char>, part: ResolvedType|
            is_bound(before, after, name, part, #[trigger] all_bind(name, part)) by {
            assert(is_bound(before, inside, name, part, bind(name, part)));
            assert(is_bound(inside, after, name, part, rest_bind(name, part)));
        }
    }
}

/// The outcome of binding the components of a tuple.
proof fn lemma_tuple(patterns: List<Pattern>, tys: List<ResolvedType>, before: Bindings)
    requires
        patterns@.len() == tys@.len(),
    ensures
        is_outcome(
            bound_by_tuple(patterns, tys, before),
            before,
            all_fit(patterns, tys),
            |name: Seq<char>| all_occurrences(patterns, name),
            |name: Seq<char>, part: ResolvedType| any_binds(patterns, tys, name, part),
        ),
    decreases patterns,
{
    match (patterns, tys) {
        (List::Cons(p, ps), List::Cons(ty, rest)) => {
            lemma_bound_by(p, ty, before);
            let first = bound_by(p, ty, before);
            if let Ok(inside) = first {
                lemma_tuple(*ps, *rest, inside);
            }
            lemma_then(
                first,
                bound_by_tuple(patterns, tys, before),
                before,
                fits(p, ty),
                all_fit(*ps, *rest),
                |name: Seq<char>| occurrences(p, name),
                |name: Seq<char>| all_occurrences(*ps, name),
                |name: Seq<char>, part: ResolvedType| binds(p, ty, name, part),
                |name: Seq<char>, part: ResolvedType| any_binds(*ps, *rest, name, part),
                |name: Seq<char>| all_occurrences(patterns, name),
                |name: Seq<char>, part: ResolvedType| any_binds(patterns, tys, name, part),
            );
        },
        (List::Cons(_, ps), List::Nil) => {
            assert(patterns@.len() == 1 + ps@.len());
        },
        (List::Nil, List::Cons(_, rest)) => {
            assert(tys@.len() == 1 + rest@.len());
        },
        (List::Nil, List::Nil) => {},
    }
}

/// The outcome of binding the elements of an array.
proof fn lemma_array(patterns: List<Pattern>, element: ResolvedType, before: Bindings)
    ensures
        is_outcome(
            bound_by_array(patterns, element, before),
            before,
            all_fit_one(patterns, element),
            |name: Seq<char>| all_occurrences(patterns, name),
            |name: Seq<char>, part: ResolvedType| any_binds_one(patterns, element, name, part),
        ),
    decreases patterns,
{
    if let List::Cons(p, ps) = patterns {
        lemma_bound_by(p, element, before);
        let first = bound_by(p, element, before);
        if let Ok(inside) = first {
            lemma_array(*ps, element, inside);
        }
        lemma_then(
            first,
            bound_by_array(patterns, element, before),
            before,
            fits(p, element),
            all_fit_one(*ps, element),
            |name: Seq<char>| occurrences(p, name),
            |name: Seq<char>| all_occurrences(*ps, name),
            |name: Seq<char>, part: ResolvedType| binds(p, element, name, part),
            |name: Seq<char>, part: ResolvedType| any_binds_one(*ps, element, name, part),
            |name: Seq<char>| all_occurrences(patterns, name),
            |name: Seq<char>, part: ResolvedType| any_binds_one(patterns, element, name, part),
        );
    }
}

/// A value can be bound to a pattern if and only if the pattern has the shape of its type and no
/// variable occurs twice in the pattern.
pub proof fn patterns_bind_values(pattern: Pattern, ty: ResolvedType)
    ensures
        bound_by(pattern, ty, Map::empty()) is Ok <==> fits(pattern, ty) && forall|name: Seq<char>|
            #[trigger] occurrences(pattern, name) <= 1,
{
    lemma_bound_by(pattern, ty, Map::empty());
    let count = |name: Seq<char>| occurrences(pattern, name);
    if forall|name: Seq<char>| #[trigger] occurrences(pattern, name) <= 1 {
        assert forall|name: Seq<char>| is_free(
            #[trigger] count(name),
            Map::<Seq<char>, ResolvedType>::empty(),
            name,
        ) by {
            assert(occurrences(pattern, name) <= 1);
        }
    }
    if bound_by(pattern, ty, Map::empty()) is Ok {
        assert forall|name: Seq<char>| #[trigger] occurrences(pattern, name) <= 1 by {
            assert(is_free(count(name), Map::<Seq<char>, ResolvedType>::empty(), name));
        }
    }
}

/// Each variable of a pattern is bound to the part of the value at its position, and nothing else
/// is bound.
pub proof fn variables_are_bound_to_parts(
    pattern: Pattern,
    ty: ResolvedType,
    name: Seq<char>,
    part: ResolvedType,
)
    ensures
        bound_by(pattern, ty, Map::empty()) matches Ok(after) ==> {
            &&& after.contains_key(name) <==> occurrences(pattern, name) > 0
            &&& after.contains_key(name) && after[name] == part <==> binds(pattern, ty, name, part)
        },
{
    let before = Map::<Seq<char>, ResolvedType>::empty();
    lemma_bound_by(pattern, ty, before);
    let count = |name: Seq<char>| occurrences(pattern, name);
    let bind = |name: Seq<char>, part: ResolvedType| binds(pattern, ty, name, part);
    if let Ok(after) = bound_by(pattern, ty, before) {
        assert(after.contains_key(name) <==> before.contains_key(name) || count(name) > 0);
        assert(is_bound(before, after, name, part, bind(name, part)));
    }
}

} // verus!
