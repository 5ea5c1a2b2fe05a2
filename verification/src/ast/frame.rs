//! What the analysis of an expression leaves unchanged.
use crate::ast::rules::{
    all, arm_bindings, assignment, call, call_name, checked_arguments, each, expression, function,
    item, items, match_, match_arm, params, return_type, single_expression, single_inner, statement,
    statements, tracked_before, with_params,
};
use crate::ast::scope::ScopeView;
use crate::ast::FunctionParam;
use crate::error::Span;
use crate::list::{shared, List};
use crate::parse;
use crate::parse::Either;
use crate::types::{unit_type, ResolvedType};
use vstd::map_lib::lemma_submap_of_trans;
use vstd::prelude::*;

verus! {

/// The items, the position in the module tree and the jets are the same. Parameters, witnesses
/// and tracked calls that were there before are still there.
pub open spec fn keeps_items(before: ScopeView, after: ScopeView) -> bool {
    &&& after.position == before.position
    &&& after.root == before.root
    &&& after.is_main == before.is_main
    &&& after.jets == before.jets
    &&& before.parameters.submap_of(after.parameters)
    &&& before.witnesses.submap_of(after.witnesses)
    &&& before.calls.is_prefix_of(after.calls)
}

/// The blocks outside the innermost block have the same variables.
pub open spec fn keeps_outer_blocks(before: ScopeView, after: ScopeView) -> bool {
    &&& after.variables.len() == before.variables.len()
    &&& before.variables.len() > 0 ==> after.variables.drop_last() == before.variables.drop_last()
}

/// The outcome of an analysis that starts in the scope `before`: items stay as they are, and so
/// do the outer blocks if the analysis succeeds.
pub open spec fn keeps(before: ScopeView, after: ScopeView, is_ok: bool) -> bool {
    keeps_items(before, after) && (is_ok ==> keeps_outer_blocks(before, after))
}

/// What two steps keep one after the other, they keep together.
proof fn lemma_steps(first: ScopeView, second: ScopeView, third: ScopeView)
    ensures
        keeps_items(first, second) && keeps_items(second, third) ==> keeps_items(first, third),
        keeps_outer_blocks(first, second) && keeps_outer_blocks(second, third)
            ==> keeps_outer_blocks(first, third),
{
    if keeps_items(first, second) && keeps_items(second, third) {
        lemma_submap_of_trans(first.parameters, second.parameters, third.parameters);
        lemma_submap_of_trans(first.witnesses, second.witnesses, third.witnesses);
        assert(first.calls =~= third.calls.subrange(0, first.calls.len() as int)) by {
            assert(first.calls =~= second.calls.subrange(0, first.calls.len() as int));
            assert(second.calls =~= third.calls.subrange(0, second.calls.len() as int));
            assert forall|i: int| 0 <= i < first.calls.len() implies first.calls[i]
                == third.calls[i] by {
                assert(first.calls[i] == second.calls.subrange(0, first.calls.len() as int)[i]);
                assert(second.calls[i] == third.calls.subrange(0, second.calls.len() as int)[i]);
            }
        }
    }
}

/// A scope keeps what it holds.
proof fn lemma_same(s: ScopeView)
    ensures
        keeps_items(s, s),
        keeps_outer_blocks(s, s),
{
    assert(s.calls =~= s.calls.subrange(0, s.calls.len() as int));
}

/// Tracking a call keeps what was there.
proof fn lemma_tracked(s: ScopeView)
    ensures
        forall|span: Span, name| #[trigger] keeps(s, s.with_call(span, name), true),
{
    assert forall|span: Span, name| #[trigger] keeps(s, s.with_call(span, name), true) by {
        let after = s.with_call(span, name);
        assert(s.calls =~= after.calls.subrange(0, s.calls.len() as int));
    }
}

/// A block changes only what lies outside of all blocks.
proof fn lemma_block(s: ScopeView, after: ScopeView)
    ensures
        keeps_items(s, s.in_block()),
        keeps_items(s.in_block(), after) ==> keeps_items(s, after),
        keeps_items(s.in_block(), after) && keeps_outer_blocks(s.in_block(), after)
            ==> keeps_items(s, after.after_block()) && keeps_outer_blocks(s, after.after_block()),
{
    lemma_same(s);
    lemma_steps(s, s.in_block(), after);
    if keeps_outer_blocks(s.in_block(), after) {
        assert(s.in_block().variables.drop_last() =~= s.variables);
    }
}

/// The analysis of an expression changes no items and no variables outside the innermost block.
/// It forgets no parameter, no witness and no tracked call.
pub proof fn expression_keeps(from: parse::Expression, ty: ResolvedType, s: ScopeView)
    ensures
        keeps(s, expression(from, ty, s).1, expression(from, ty, s).0 is Ok),
    decreases from,
{
    match from.inner {
        parse::ExpressionInner::Single(single) => {
            single_keeps(single, ty, s);
        },
        parse::ExpressionInner::Block(list, last) => {
            statements_keep(shared(list), s.in_block());
            let inside = statements(shared(list), s.in_block()).1;
            lemma_block(s, inside);
            match last {
                Some(e) => {
                    expression_keeps(shared(e), ty, inside);
                    let after = expression(shared(e), ty, inside).1;
                    lemma_steps(s.in_block(), inside, after);
                    lemma_block(s, after);
                },
                None => {},
            }
        },
    }
}

/// The analysis of statements changes no items and no variables outside the innermost block.
pub proof fn statements_keep(from: List<parse::Statement>, s: ScopeView)
    requires
        s.variables.len() > 0,
    ensures
        keeps(s, statements(from, s).1, statements(from, s).0 is Ok),
    decreases from,
{
    match from {
        List::Nil => {
            lemma_same(s);
        },
        List::Cons(head, tail) => {
            statement_keeps(head, s);
            let inside = statement(head, s).1;
            if statement(head, s).0 is Ok {
                statements_keep(*tail, inside);
                lemma_steps(s, inside, statements(*tail, inside).1);
            }
        },
    }
}

/// The analysis of a statement changes no items and no variables outside the innermost block.
pub proof fn statement_keeps(from: parse::Statement, s: ScopeView)
    requires
        s.variables.len() > 0,
    ensures
        keeps(s, statement(from, s).1, statement(from, s).0 is Ok),
    decreases from,
{
    match from {
        parse::Statement::Assignment(a) => {
            assignment_keeps(a, s);
        },
        parse::Statement::Expression(e) => {
            expression_keeps(e, unit_type(), s);
        },
    }
}

/// The analysis of an assignment changes no items and no variables outside the innermost block.
pub proof fn assignment_keeps(from: parse::Assignment, s: ScopeView)
    requires
        s.variables.len() > 0,
    ensures
        keeps(s, assignment(from, s).1, assignment(from, s).0 is Ok),
    decreases from,
{
    lemma_same(s);
    if let Ok(ty) = s.resolved(from.ty) {
        expression_keeps(from.expression, ty, s);
        let after = expression(from.expression, ty, s).1;
        if expression(from.expression, ty, s).0 is Ok {
            assert forall|bindings| #[trigger]
                keeps(s, after.with_variables(bindings), true) by {
                assert(after.with_variables(bindings).variables.drop_last()
                    =~= after.variables.drop_last());
            }
        }
    }
}

/// The analysis of expressions changes no items and no variables outside the innermost block.
pub proof fn each_keeps(from: List<parse::Expression>, tys: List<ResolvedType>, s: ScopeView)
    ensures
        keeps(s, each(from, tys, s).1, each(from, tys, s).0 is Ok),
    decreases from,
{
    lemma_same(s);
    match (from, tys) {
        (List::Cons(head, tail), List::Cons(ty, rest)) => {
            expression_keeps(head, ty, s);
            let inside = expression(head, ty, s).1;
            each_keeps(*tail, *rest, inside);
            lemma_steps(s, inside, each(*tail, *rest, inside).1);
        },
        _ => {},
    }
}

/// The analysis of expressions changes no items and no variables outside the innermost block.
pub proof fn all_keep(from: List<parse::Expression>, ty: ResolvedType, s: ScopeView)
    ensures
        keeps(s, all(from, ty, s).1, all(from, ty, s).0 is Ok),
    decreases from,
{
    lemma_same(s);
    match from {
        List::Nil => {},
        List::Cons(head, tail) => {
            expression_keeps(head, ty, s);
            let inside = expression(head, ty, s).1;
            all_keep(*tail, ty, inside);
            lemma_steps(s, inside, all(*tail, ty, inside).1);
        },
    }
}

/// The analysis of a single expression changes no items and no variables outside the innermost
/// block.
pub proof fn single_keeps(from: parse::SingleExpression, ty: ResolvedType, s: ScopeView)
    ensures
        keeps(s, single_expression(from, ty, s).1, single_expression(from, ty, s).0 is Ok),
    decreases from,
{
    inner_keeps(from.inner, from.span, ty, s);
}

/// The analysis of a single expression changes no items and no variables outside the innermost
/// block.
proof fn inner_keeps(
    from: parse::SingleExpressionInner,
    span: Span,
    ty: ResolvedType,
    s: ScopeView,
)
    ensures
        keeps(s, single_inner(from, span, ty, s).1, single_inner(from, span, ty, s).0 is Ok),
    decreases from,
{
    lemma_same(s);
    match from {
        parse::SingleExpressionInner::Variable(name) => {
            if s.variables.len() > 0 {
                assert(s.with_variable(name@, ty).variables.drop_last()
                    =~= s.variables.drop_last());
            }
        },
        parse::SingleExpressionInner::Expression(e) => {
            expression_keeps(shared(e), ty, s);
        },
        parse::SingleExpressionInner::Tuple(es) => {
            if let ResolvedType::Tuple(tys) = ty {
                each_keeps(shared(es), shared(tys), s);
            }
        },
        parse::SingleExpressionInner::Array(es) => {
            if let ResolvedType::Array(element, _) = ty {
                all_keep(shared(es), shared(element), s);
            }
        },
        parse::SingleExpressionInner::List(es) => {
            if let ResolvedType::List(element, _) = ty {
                all_keep(shared(es), shared(element), s);
            }
        },
        parse::SingleExpressionInner::Either(Either::Left(e)) => {
            if let ResolvedType::Either(ty_l, _) = ty {
                expression_keeps(shared(e), shared(ty_l), s);
            }
        },
        parse::SingleExpressionInner::Either(Either::Right(e)) => {
            if let ResolvedType::Either(_, ty_r) = ty {
                expression_keeps(shared(e), shared(ty_r), s);
            }
        },
        parse::SingleExpressionInner::Option(Some(e)) => {
            if let ResolvedType::Option(ty_some) = ty {
                expression_keeps(shared(e), shared(ty_some), s);
            }
        },
        parse::SingleExpressionInner::Call(c) => {
            call_keeps(c, ty, s);
        },
        parse::SingleExpressionInner::Match(m) => {
            match_keeps(m, ty, s);
        },
        _ => {},
    }
}

/// The analysis of a call changes no items and no variables outside the innermost block.
pub proof fn call_keeps(from: parse::Call, ty: ResolvedType, s: ScopeView)
    ensures
        keeps(s, call(from, ty, s).1, call(from, ty, s).0 is Ok),
    decreases from,
{
    lemma_same(s);
    lemma_tracked(s);
    if let Ok(name) = call_name(from.name, s) {
        if let Ok(tys) = checked_arguments(name, from.args@.len(), ty) {
            let inside = tracked_before(name, from.span, s);
            each_keeps(shared(from.args), tys, inside);
            let after = each(shared(from.args), tys, inside).1;
            lemma_steps(s, inside, after);
            lemma_tracked(after);
            lemma_same(after);
            lemma_steps(s, after, call(from, ty, s).1);
        }
    }
}

/// The analysis of a match arm changes no items and no variables outside of it.
pub proof fn match_arm_keeps(from: parse::MatchArm, span: Span, ty: ResolvedType, s: ScopeView)
    ensures
        keeps_items(s, match_arm(from, span, ty, s).1),
        match_arm(from, span, ty, s).0 is Ok ==> match_arm(from, span, ty, s).1.variables
            == s.variables,
    decreases from,
{
    let start = s.in_block();
    lemma_same(start);
    lemma_block(s, start);
    let inside = arm_bindings(from.pattern, start).1;
    assert(keeps(start, inside, true)) by {
        assert(inside.variables.drop_last() =~= start.variables.drop_last());
    }
    if arm_bindings(from.pattern, start).0 is Ok {
        expression_keeps(shared(from.expression), ty, inside);
        let after = expression(shared(from.expression), ty, inside).1;
        lemma_steps(start, inside, after);
        lemma_block(s, after);
        assert(start.variables.drop_last() =~= s.variables);
    }
}

/// The analysis of a match expression changes no items and no variables outside the innermost
/// block.
pub proof fn match_keeps(from: parse::Match, ty: ResolvedType, s: ScopeView)
    ensures
        keeps(s, match_(from, ty, s).1, match_(from, ty, s).0 is Ok),
    decreases from,
{
    lemma_same(s);
    if let Some(aliased) = parse::scrutinee_type(from.left.pattern, from.right.pattern) {
        if let Ok(scrutinee_ty) = s.resolved(aliased) {
            expression_keeps(shared(from.scrutinee), scrutinee_ty, s);
            let s1 = expression(shared(from.scrutinee), scrutinee_ty, s).1;
            match_arm_keeps(from.left, from.span, ty, s1);
            let s2 = match_arm(from.left, from.span, ty, s1).1;
            lemma_steps(s, s1, s2);
            match_arm_keeps(from.right, from.span, ty, s2);
            let s3 = match_arm(from.right, from.span, ty, s2).1;
            lemma_steps(s, s2, s3);
        }
    }
}

/// The parameters of a function are variables of its outermost block.
pub proof fn with_params_keeps(list: List<FunctionParam>, s: ScopeView)
    requires
        s.variables.len() > 0,
    ensures
        keeps(s, with_params(list, s), true),
    decreases list,
{
    lemma_same(s);
    if let List::Cons(head, tail) = list {
        let inside = s.with_variable(head.identifier@, head.ty);
        assert(inside.variables.drop_last() =~= s.variables.drop_last());
        with_params_keeps(*tail, inside);
        lemma_steps(s, inside, with_params(*tail, inside));
    }
}

/// The scope is outside of functions.
pub open spec fn is_outside(s: ScopeView) -> bool {
    s.variables.len() == 0 && !s.is_main
}

/// A scope outside of functions, at the same position in the module tree, with the same jets.
/// Parameters, witnesses and tracked calls that were there before are still there.
pub open spec fn keeps_position(before: ScopeView, after: ScopeView) -> bool {
    &&& is_outside(after)
    &&& after.position == before.position
    &&& after.jets == before.jets
    &&& before.parameters.submap_of(after.parameters)
    &&& before.witnesses.submap_of(after.witnesses)
    &&& before.calls.is_prefix_of(after.calls)
}

/// What two steps keep one after the other, they keep together.
proof fn lemma_positions(first: ScopeView, second: ScopeView, third: ScopeView)
    requires
        keeps_position(first, second),
        keeps_position(second, third),
    ensures
        keeps_position(first, third),
{
    lemma_submap_of_trans(first.parameters, second.parameters, third.parameters);
    lemma_submap_of_trans(first.witnesses, second.witnesses, third.witnesses);
    assert(first.calls =~= third.calls.subrange(0, first.calls.len() as int)) by {
        assert forall|i: int| 0 <= i < first.calls.len() implies first.calls[i]
            == third.calls[i] by {
            assert(first.calls[i] == second.calls.subrange(0, first.calls.len() as int)[i]);
            assert(second.calls[i] == third.calls.subrange(0, second.calls.len() as int)[i]);
        }
    }
}

/// The analysis of a function ends outside of functions, in the same module.
pub proof fn function_keeps(from: parse::Function, s: ScopeView)
    requires
        is_outside(s),
    ensures
        function(from, s).0 is Ok ==> keeps_position(s, function(from, s).1),
{
    lemma_same(s);
    if from.name@ == "main"@ {
        let start = s.in_main();
        lemma_same(start);
        expression_keeps(shared(from.body), unit_type(), start);
    } else if let Ok(list) = params(shared(from.params), s) {
        if let Ok(ret) = return_type(from.ret, s) {
            let start = with_params(list, s.in_block());
            with_params_keeps(list, s.in_block());
            lemma_block(s, start);
            expression_keeps(shared(from.body), ret, start);
            let after = expression(shared(from.body), ret, start).1;
            lemma_steps(s.in_block(), start, after);
            lemma_block(s, after);
        }
    }
}

/// The analysis of an item ends outside of functions, in the same module.
pub proof fn item_keeps(from: parse::Item, s: ScopeView)
    requires
        is_outside(s),
    ensures
        item(from, s).0 is Ok ==> keeps_position(s, item(from, s).1),
    decreases from,
{
    lemma_same(s);
    match from {
        parse::Item::Function(f) => {
            function_keeps(f, s);
        },
        parse::Item::Module(module) => {
            let start = s.in_module(module.name@, module.visibility);
            items_keep(shared(module.items), start);
            assert(start.position.drop_last() =~= s.position);
        },
        _ => {},
    }
}

/// The analysis of items ends outside of functions, in the same module.
pub proof fn items_keep(from: List<parse::Item>, s: ScopeView)
    requires
        is_outside(s),
    ensures
        items(from, s).0 is Ok ==> keeps_position(s, items(from, s).1),
    decreases from,
{
    lemma_same(s);
    if let List::Cons(head, tail) = from {
        item_keeps(head, s);
        if item(head, s).0 is Ok {
            let inside = item(head, s).1;
            items_keep(*tail, inside);
            if items(*tail, inside).0 is Ok {
                lemma_positions(s, inside, items(*tail, inside).1);
            }
        }
    }
}

} // verus!
