//! Which arguments calls take, which values match expressions take apart, and which calls are
//! tracked.
use crate::ast::frame::each_keeps;
use crate::ast::meaning::{are_types, definitions, is_type};
use crate::ast::meaning_laws::{resolved_type_replaces_aliases, resolved_types_replace_aliases};
use crate::ast::rules::{
    argument_types, call, call_name, checked_arguments, each, expression, match_, output_type,
    param_types, tracked_before,
};
use crate::ast::scope::ScopeView;
use crate::ast::{CallName, CustomFunction, Expression, FunctionParam};
use crate::debug::TrackedCallName;
use crate::error::ErrorView;
use crate::list::{shared, List};
use crate::parse;
use crate::parse::scrutinee_type;
use crate::pattern::MatchPattern;
use crate::structure::structure;
use crate::types::{resolved, ResolvedType};
use std::sync::Arc;
use vstd::prelude::*;

verus! {

/// The types of expressions.
pub open spec fn types_at(list: Seq<Expression>) -> Seq<ResolvedType> {
    Seq::new(list.len(), |i: int| list[i].ty)
}

/// Whether a function takes arguments of the given types and returns a value of a type.
pub open spec fn has_signature(name: CallName, args: Seq<ResolvedType>, out: ResolvedType) -> bool {
    match name {
        CallName::Jet(jet) => {
            &&& exists|list: List<ResolvedType>|
                list@ == args && #[trigger] are_types(*jet.source_type, list, Map::empty())
            &&& is_type(*jet.target_type, out, Map::empty())
        },
        CallName::UnwrapLeft(right) => args.len() == 1 && args[0] == ResolvedType::Either(
            Arc::new(out),
            Arc::new(right),
        ),
        CallName::UnwrapRight(left) => args.len() == 1 && args[0] == ResolvedType::Either(
            Arc::new(left),
            Arc::new(out),
        ),
        CallName::IsNone(some) => args.len() == 1 && args[0] == ResolvedType::Option(Arc::new(some))
            && out == ResolvedType::Boolean,
        CallName::Unwrap => args.len() == 1 && args[0] == ResolvedType::Option(Arc::new(out)),
        CallName::Assert => args.len() == 1 && args[0] == ResolvedType::Boolean && (
        out matches ResolvedType::Tuple(elements) && *elements is Nil),
        CallName::Panic => args.len() == 0,
        CallName::Debug => args.len() == 1 && args[0] == out,
        CallName::TypeCast(source) => args.len() == 1 && args[0] == source && structure(source)
            == structure(out),
        CallName::Custom(f) => {
            &&& args.len() == f.params@.len()
            &&& forall|i: int| 0 <= i < args.len() ==> #[trigger] args[i] == f.params@[i].ty
            &&& out == f.body.ty
        },
        CallName::Fold(f, bound) => {
            &&& args.len() == 2
            &&& args[0] == ResolvedType::List(Arc::new(f.params@[0].ty), bound)
            &&& args[1] == f.params@[1].ty
            &&& out == f.body.ty
        },
        CallName::ArrayFold(f, size) => {
            &&& args.len() == 2
            &&& args[0] == ResolvedType::Array(Arc::new(f.params@[0].ty), size)
            &&& args[1] == f.params@[1].ty
            &&& out == f.body.ty
        },
        CallName::ForWhile(f, _) => {
            &&& args.len() == 2
            &&& args[0] == f.params@[0].ty
            &&& args[1] == f.params@[1].ty
            &&& out == f.body.ty
        },
    }
}

/// The types of parameters, one for each.
proof fn lemma_param_types(params: List<FunctionParam>)
    ensures
        param_types(params)@.len() == params@.len(),
        forall|i: int|
            0 <= i < params@.len() ==> #[trigger] param_types(params)@[i] == params@[i].ty,
    decreases params,
{
    if let List::Cons(head, tail) = params {
        lemma_param_types(*tail);
        let all = param_types(params)@;
        assert forall|i: int| 0 <= i < params@.len() implies #[trigger] all[i]
            == params@[i].ty by {
            if i > 0 {
                assert(all[i] == param_types(*tail)@[i - 1]);
                assert(params@[i] == tail@[i - 1]);
            }
        }
    }
}

/// Lists of the same elements are the same.
proof fn lemma_same_list<T>(a: List<T>, b: List<T>)
    requires
        a@ == b@,
    ensures
        a == b,
    decreases a,
{
    match (a, b) {
        (List::Cons(x, xs), List::Cons(y, ys)) => {
            assert(a@[0] == x);
            assert(b@[0] == y);
            assert(a@.drop_first() =~= xs@);
            assert(b@.drop_first() =~= ys@);
            lemma_same_list(*xs, *ys);
        },
        (List::Cons(_, xs), List::Nil) => {
            assert(a@.len() == 1 + xs@.len());
        },
        (List::Nil, List::Cons(_, ys)) => {
            assert(b@.len() == 1 + ys@.len());
        },
        (List::Nil, List::Nil) => {},
    }
}

/// A list of one element.
proof fn lemma_one(ty: ResolvedType)
    ensures
        crate::ast::rules::one(ty)@ == seq![ty],
{
    reveal_with_fuel(List::seq, 2);
    assert(crate::ast::rules::one(ty)@ =~= seq![ty]);
}

/// A list of two elements.
proof fn lemma_two(first: ResolvedType, second: ResolvedType)
    ensures
        crate::ast::rules::two(first, second)@ == seq![first, second],
{
    reveal_with_fuel(List::seq, 3);
    assert(crate::ast::rules::two(first, second)@ =~= seq![first, second]);
}

/// The arguments that a function takes have the types of its signature, wherever it returns a value
/// of the expected type.
proof fn lemma_signature(name: CallName, ty: ResolvedType)
    ensures
        argument_types(name, ty) matches Ok(tys) ==> (output_type(name) matches Ok(out) ==> {
            let fits = (out is None || out == Some(ty)) && !(
            name matches CallName::TypeCast(source) && structure(source) != structure(ty));
            fits <==> has_signature(name, tys@, ty)
        }),
{
    match name {
        CallName::Jet(jet) => {
            if let (Ok(tys), Ok(Some(out))) = (argument_types(name, ty), output_type(name)) {
                let source = shared(jet.source_type);
                let target = shared(jet.target_type);
                resolved_types_replace_aliases(source, tys, Map::empty());
                resolved_type_replaces_aliases(target, ty, Map::empty());
                assert(are_types(source, tys, Map::empty()));
            }
        },
        CallName::UnwrapLeft(right) => {
            lemma_one(ResolvedType::Either(Arc::new(ty), Arc::new(right)));
        },
        CallName::UnwrapRight(left) => {
            lemma_one(ResolvedType::Either(Arc::new(left), Arc::new(ty)));
        },
        CallName::IsNone(some) => {
            lemma_one(ResolvedType::Option(Arc::new(some)));
        },
        CallName::Unwrap => {
            lemma_one(ResolvedType::Option(Arc::new(ty)));
        },
        CallName::Assert => {
            lemma_one(ResolvedType::Boolean);
        },
        CallName::Panic => {},
        CallName::Debug => {
            lemma_one(ty);
        },
        CallName::TypeCast(source) => {
            lemma_one(source);
        },
        CallName::Custom(f) => {
            lemma_param_types(shared(f.params));
        },
        CallName::Fold(f, bound) => {
            let params = shared(f.params)@;
            lemma_two(ResolvedType::List(Arc::new(params[0].ty), bound), params[1].ty);
        },
        CallName::ArrayFold(f, size) => {
            let params = shared(f.params)@;
            lemma_two(ResolvedType::Array(Arc::new(params[0].ty), size), params[1].ty);
        },
        CallName::ForWhile(f, _) => {
            let params = shared(f.params)@;
            lemma_two(params[0].ty, params[1].ty);
        },
    }
}

/// A call is accepted with arguments of the given types if and only if these are the types of the
/// signature of the function, for the type that the call is expected to return.
pub proof fn calls_follow_signatures(name: CallName, args: List<ResolvedType>, ty: ResolvedType)
    ensures
        checked_arguments(name, args@.len(), ty) == Ok::<List<ResolvedType>, ErrorView>(args)
            <==> has_signature(name, args@, ty),
{
    lemma_signature(name, ty);
    if has_signature(name, args@, ty) {
        match name {
            CallName::Jet(jet) => {
                let source = shared(jet.source_type);
                let target = shared(jet.target_type);
                let list = choose|list: List<ResolvedType>|
                    list@ == args@ && #[trigger] are_types(source, list, Map::empty());
                resolved_types_replace_aliases(source, list, Map::empty());
                resolved_type_replaces_aliases(target, ty, Map::empty());
                lemma_same_list(list, args);
            },
            CallName::Custom(f) => {
                lemma_param_types(shared(f.params));
                assert(param_types(shared(f.params))@ =~= args@);
                lemma_same_list(param_types(shared(f.params)), args);
            },
            CallName::UnwrapLeft(right) => {
                let only = ResolvedType::Either(Arc::new(ty), Arc::new(right));
                lemma_one(only);
                assert(args@ =~= seq![only]);
                lemma_same_list(crate::ast::rules::one(only), args);
            },
            CallName::UnwrapRight(left) => {
                let only = ResolvedType::Either(Arc::new(left), Arc::new(ty));
                lemma_one(only);
                assert(args@ =~= seq![only]);
                lemma_same_list(crate::ast::rules::one(only), args);
            },
            CallName::IsNone(some) => {
                let only = ResolvedType::Option(Arc::new(some));
                lemma_one(only);
                assert(args@ =~= seq![only]);
                lemma_same_list(crate::ast::rules::one(only), args);
            },
            CallName::Unwrap => {
                let only = ResolvedType::Option(Arc::new(ty));
                lemma_one(only);
                assert(args@ =~= seq![only]);
                lemma_same_list(crate::ast::rules::one(only), args);
            },
            CallName::Assert => {
                lemma_one(ResolvedType::Boolean);
                assert(args@ =~= seq![ResolvedType::Boolean]);
                lemma_same_list(crate::ast::rules::one(ResolvedType::Boolean), args);
            },
            CallName::Panic => {
                assert(args@ =~= List::<ResolvedType>::Nil@);
                lemma_same_list(List::Nil, args);
            },
            CallName::Debug => {
                lemma_one(ty);
                assert(args@ =~= seq![ty]);
                lemma_same_list(crate::ast::rules::one(ty), args);
            },
            CallName::TypeCast(source) => {
                lemma_one(source);
                assert(args@ =~= seq![source]);
                lemma_same_list(crate::ast::rules::one(source), args);
            },
            CallName::Fold(f, bound) => {
                let params = shared(f.params)@;
                let first = ResolvedType::List(Arc::new(params[0].ty), bound);
                lemma_two(first, params[1].ty);
                assert(args@ =~= seq![first, params[1].ty]);
                lemma_same_list(crate::ast::rules::two(first, params[1].ty), args);
            },
            CallName::ArrayFold(f, size) => {
                let params = shared(f.params)@;
                let first = ResolvedType::Array(Arc::new(params[0].ty), size);
                lemma_two(first, params[1].ty);
                assert(args@ =~= seq![first, params[1].ty]);
                lemma_same_list(crate::ast::rules::two(first, params[1].ty), args);
            },
            CallName::ForWhile(f, _) => {
                let params = shared(f.params)@;
                lemma_two(params[0].ty, params[1].ty);
                assert(args@ =~= seq![params[0].ty, params[1].ty]);
                lemma_same_list(crate::ast::rules::two(params[0].ty, params[1].ty), args);
            },
        }
    }
}

/// Whether a function can be used in a fold: it takes an element and an accumulator, and returns an
/// accumulator.
pub open spec fn can_fold(f: CustomFunction) -> bool {
    f.params@.len() == 2 && f.params@[1].ty == f.body.ty
}

/// Whether a function can be used in a loop with a counter of the given number of bits: it takes an
/// accumulator, a context and the counter, and returns either a result or an accumulator.
pub open spec fn can_loop(f: CustomFunction, width: usize) -> bool {
    &&& f.params@.len() == 3
    &&& f.params@[2].ty matches ResolvedType::UInt(counter) && counter.width() == width
    &&& width <= 16
    &&& f.body.ty matches ResolvedType::Either(_, accumulator) && *accumulator == f.params@[0].ty
}

/// A jet can be called if it exists and is enabled, and a function if it is defined in the current
/// module. Functions of folds and loops have the parameters that are asked for. Other names can be
/// called if their types resolve.
pub proof fn callable_names(from: parse::CallName, s: ScopeView)
    ensures
        ({
            let known = s.current().functions;
            let outcome = call_name(from, s);
            match from {
                parse::CallName::Jet(name) => outcome is Ok <==> s.jets.contains_key(name@)
                    && !s.jets[name@].disabled,
                parse::CallName::Custom(name) => outcome is Ok <==> known.contains_key(name@),
                parse::CallName::Fold(name, _) => outcome is Ok <==> known.contains_key(name@)
                    && can_fold(known[name@].0),
                parse::CallName::ArrayFold(name, _) => outcome is Ok <==> known.contains_key(name@)
                    && can_fold(known[name@].0),
                parse::CallName::ForWhile(name) => match outcome {
                    Ok(CallName::ForWhile(f, width)) => can_loop(f, width),
                    Ok(_) => false,
                    Err(_) => !known.contains_key(name@) || forall|width: usize|
                        !#[trigger] can_loop(known[name@].0, width),
                },
                parse::CallName::UnwrapLeft(ty) => outcome is Ok <==> resolved(
                    ty,
                    s.current().aliases,
                ) is Ok,
                parse::CallName::UnwrapRight(ty) => outcome is Ok <==> resolved(
                    ty,
                    s.current().aliases,
                ) is Ok,
                parse::CallName::IsNone(ty) => outcome is Ok <==> resolved(
                    ty,
                    s.current().aliases,
                ) is Ok,
                parse::CallName::TypeCast(ty) => outcome is Ok <==> resolved(
                    ty,
                    s.current().aliases,
                ) is Ok,
                _ => outcome is Ok,
            }
        }),
{
}

/// Analyzed expressions have the expected types.
proof fn lemma_each_types(from: List<parse::Expression>, tys: List<ResolvedType>, s: ScopeView)
    requires
        from@.len() == tys@.len(),
    ensures
        each(from, tys, s).0 matches Ok(list) ==> types_at(list@) == tys@,
    decreases from,
{
    match (from, tys) {
        (List::Cons(head, tail), List::Cons(ty, rest)) => {
            crate::ast::meaning_laws::analyzed_expression_keeps_meaning(head, ty, s);
            let inside = expression(head, ty, s).1;
            lemma_each_types(*tail, *rest, inside);
            if let Ok(list) = each(from, tys, s).0 {
                let others = each(*tail, *rest, inside).0->Ok_0;
                assert(list@ =~= seq![expression(head, ty, s).0->Ok_0] + others@);
                assert(types_at(list@) =~= seq![ty] + types_at(others@));
            }
        },
        (List::Cons(_, tail), List::Nil) => {
            assert(from@.len() == 1 + tail@.len());
        },
        (List::Nil, List::Cons(_, rest)) => {
            assert(tys@.len() == 1 + rest@.len());
        },
        (List::Nil, List::Nil) => {
            if let Ok(list) = each(from, tys, s).0 {
                assert(types_at(list@) =~= tys@);
            }
        },
    }
}

/// The arguments of an analyzed call have the types of the signature of the called function, which
/// returns a value of the expected type. There is one for each parsed argument.
pub proof fn analyzed_call_has_signature(from: parse::Call, ty: ResolvedType, s: ScopeView)
    ensures
        call(from, ty, s).0 matches Ok(c) ==> has_signature(c.name, types_at(c.args@), ty)
            && c.args@.len() == from.args@.len(),
{
    if let Ok(name) = call_name(from.name, s) {
        if let Ok(tys) = checked_arguments(name, from.args@.len(), ty) {
            calls_follow_signatures(name, tys, ty);
            lemma_each_types(shared(from.args), tys, tracked_before(name, from.span, s));
            if let Ok(c) = call(from, ty, s).0 {
                assert(types_at(c.args@).len() == c.args@.len());
            }
        }
    }
}

/// The value that an analyzed match expression takes apart has the type that the patterns of its
/// arms ask for. The arms are for a left and a right value, for no and for some value, or for false
/// and true, in this order.
pub proof fn analyzed_match_takes_value_apart(from: parse::Match, ty: ResolvedType, s: ScopeView)
    ensures
        match_(from, ty, s).0 matches Ok(m) ==> {
            let aliases = definitions(s).aliases;
            match (from.left.pattern, from.right.pattern) {
                (MatchPattern::Left(_, a), MatchPattern::Right(_, b)) => m.scrutinee.ty
                    matches ResolvedType::Either(left, right) && is_type(a, *left, aliases)
                    && is_type(b, *right, aliases),
                (MatchPattern::Nothing, MatchPattern::Something(_, a)) => m.scrutinee.ty
                    matches ResolvedType::Option(some) && is_type(a, *some, aliases),
                (MatchPattern::False, MatchPattern::True) => m.scrutinee.ty
                    == ResolvedType::Boolean,
                _ => false,
            }
        },
{
    if let Some(aliased) = scrutinee_type(from.left.pattern, from.right.pattern) {
        if let Ok(scrutinee_ty) = s.resolved(aliased) {
            resolved_type_replaces_aliases(aliased, scrutinee_ty, s.current().aliases);
            reveal_with_fuel(is_type, 2);
            crate::ast::meaning_laws::analyzed_expression_keeps_meaning(
                shared(from.scrutinee),
                scrutinee_ty,
                s,
            );
        }
    }
}

/// A call of a jet, an unwrapping, an assertion or a panic is tracked at its place, in front of the
/// calls in its arguments. An unwrapping of a left or right value and a debug output are tracked
/// with their types, behind the calls in their arguments. Other calls are not tracked.
pub proof fn calls_are_tracked(from: parse::Call, ty: ResolvedType, s: ScopeView)
    ensures
        call(from, ty, s).0 matches Ok(c) ==> {
            let before = s.calls;
            let after = call(from, ty, s).1.calls;
            let next = after[before.len() as int];
            let is_next = |name: TrackedCallName|
                after.len() > before.len() && next == (from.span, name);
            let is_last = |name: TrackedCallName|
                after.len() > before.len() && after.last() == (from.span, name);
            &&& before.is_prefix_of(after)
            &&& match c.name {
                CallName::Jet(_) => is_next(TrackedCallName::Jet),
                CallName::Unwrap => is_next(TrackedCallName::Unwrap),
                CallName::Assert => is_next(TrackedCallName::Assert),
                CallName::Panic => is_next(TrackedCallName::Panic),
                CallName::UnwrapLeft(_) => is_last(TrackedCallName::UnwrapLeft(c.args@[0].ty)),
                CallName::UnwrapRight(_) => is_last(TrackedCallName::UnwrapRight(c.args@[0].ty)),
                CallName::Debug => is_last(TrackedCallName::Debug(c.args@[0].ty)),
                _ => from.args@.len() == 0 ==> after == before,
            }
        },
{
    analyzed_call_has_signature(from, ty, s);
    if let Ok(c) = call(from, ty, s).0 {
        let name = c.name;
        let tys = checked_arguments(name, from.args@.len(), ty)->Ok_0;
        let args = shared(from.args);
        let inside = tracked_before(name, from.span, s);
        each_keeps(args, tys, inside);
        let middle = each(args, tys, inside).1;
        let before = s.calls;
        let after = call(from, ty, s).1.calls;
        assert(inside.calls =~= middle.calls.subrange(0, inside.calls.len() as int));
        assert(before =~= inside.calls.subrange(0, before.len() as int));
        assert(before =~= after.subrange(0, before.len() as int)) by {
            assert forall|i: int| 0 <= i < before.len() implies before[i] == after[i] by {
                assert(before[i] == inside.calls[i]);
                assert(inside.calls[i] == middle.calls[i]);
            }
        }
        assert(types_at(c.args@).len() == c.args@.len());
        if c.args@.len() > 0 {
            assert(types_at(c.args@)[0] == c.args@[0].ty);
        }
        if inside.calls.len() > before.len() {
            assert(inside.calls[before.len() as int] == middle.calls[before.len() as int]);
        }
        match args {
            List::Nil => {},
            List::Cons(_, tail) => {
                assert(args@.len() == 1 + tail@.len());
            },
        }
    }
}

} // verus!
