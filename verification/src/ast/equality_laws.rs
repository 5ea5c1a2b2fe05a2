//! Equality of syntax trees is an equivalence.
use crate::ast::equality::{
    are_same_expressions, are_same_items, are_same_params,
    are_same_statements, is_same_arm, is_same_assignment, is_same_call,
    is_same_call_name, is_same_expression, is_same_function, is_same_inner, is_same_item,
    is_same_jet, is_same_match, is_same_single,
    is_same_single_inner, is_same_statement,
};
use crate::ast::{
    Assignment, Call, CallName, CustomFunction, Expression, ExpressionInner, Function,
    FunctionParam, Item, Match, MatchArm, SingleExpression, SingleExpressionInner, Statement,
};
use crate::jet::Jet;
use crate::list::{shared, List};
use crate::parse::equality_laws::{
    lemma_aliased, lemma_aliased_list, lemma_match_pattern, lemma_pattern,
};
use crate::parse::Either;
use vstd::prelude::*;

verus! {

/// Equality of jets is an equivalence.
proof fn lemma_jet(a: Jet, b: Jet, c: Jet)
    ensures
        is_same_jet(a, a),
        is_same_jet(a, b) == is_same_jet(b, a),
        is_same_jet(a, b) && is_same_jet(b, c) ==> is_same_jet(a, c),
{
    lemma_aliased_list(shared(a.source_type), shared(b.source_type), shared(c.source_type));
    lemma_aliased(shared(a.target_type), shared(b.target_type), shared(c.target_type));
}

/// Equality of lists of parameters is an equivalence.
proof fn lemma_params(a: List<FunctionParam>, b: List<FunctionParam>, c: List<FunctionParam>)
    ensures
        are_same_params(a, a),
        are_same_params(a, b) == are_same_params(b, a),
        are_same_params(a, b) && are_same_params(b, c) ==> are_same_params(a, c),
    decreases a,
{
    if let List::Cons(_, tail) = a {
        lemma_params(*tail, *b->Cons_1, *c->Cons_1);
    }
}

/// Equality of variants of expressions is an equivalence.
proof fn lemma_inner(a: ExpressionInner, b: ExpressionInner, c: ExpressionInner)
    ensures
        is_same_inner(a, a),
        is_same_inner(a, b) == is_same_inner(b, a),
        is_same_inner(a, b) && is_same_inner(b, c) ==> is_same_inner(a, c),
    decreases a,
{
    match a {
        ExpressionInner::Single(x) => {
            lemma_single(x, b->Single_0, c->Single_0);
        },
        ExpressionInner::Block(statements, last) => {
            lemma_statements(shared(statements), shared(b->Block_0), shared(c->Block_0));
            if let Some(e) = last {
                expression_equality_is_equivalence(
                    shared(e),
                    shared(b->Block_1->Some_0),
                    shared(c->Block_1->Some_0),
                );
            }
        },
    }
}

/// Equality of lists of statements is an equivalence.
proof fn lemma_statements(a: List<Statement>, b: List<Statement>, c: List<Statement>)
    ensures
        are_same_statements(a, a),
        are_same_statements(a, b) == are_same_statements(b, a),
        are_same_statements(a, b) && are_same_statements(b, c) ==> are_same_statements(a, c),
    decreases a,
{
    if let List::Cons(head, tail) = a {
        lemma_statement(head, b->Cons_0, c->Cons_0);
        lemma_statements(*tail, *b->Cons_1, *c->Cons_1);
    }
}

/// Equality of statements is an equivalence.
proof fn lemma_statement(a: Statement, b: Statement, c: Statement)
    ensures
        is_same_statement(a, a),
        is_same_statement(a, b) == is_same_statement(b, a),
        is_same_statement(a, b) && is_same_statement(b, c) ==> is_same_statement(a, c),
    decreases a,
{
    match a {
        Statement::Assignment(x) => {
            lemma_assignment(x, b->Assignment_0, c->Assignment_0);
        },
        Statement::Expression(x) => {
            expression_equality_is_equivalence(x, b->Expression_0, c->Expression_0);
        },
    }
}

/// Equality of assignments is an equivalence.
proof fn lemma_assignment(a: Assignment, b: Assignment, c: Assignment)
    ensures
        is_same_assignment(a, a),
        is_same_assignment(a, b) == is_same_assignment(b, a),
        is_same_assignment(a, b) && is_same_assignment(b, c) ==> is_same_assignment(a, c),
    decreases a,
{
    lemma_pattern(a.pattern, b.pattern, c.pattern);
    expression_equality_is_equivalence(a.expression, b.expression, c.expression);
}

/// Equality of lists of expressions is an equivalence.
proof fn lemma_expressions(a: List<Expression>, b: List<Expression>, c: List<Expression>)
    ensures
        are_same_expressions(a, a),
        are_same_expressions(a, b) == are_same_expressions(b, a),
        are_same_expressions(a, b) && are_same_expressions(b, c) ==> are_same_expressions(a, c),
    decreases a,
{
    if let List::Cons(head, tail) = a {
        expression_equality_is_equivalence(head, b->Cons_0, c->Cons_0);
        lemma_expressions(*tail, *b->Cons_1, *c->Cons_1);
    }
}

/// Equality of single expressions is an equivalence.
proof fn lemma_single(a: SingleExpression, b: SingleExpression, c: SingleExpression)
    ensures
        is_same_single(a, a),
        is_same_single(a, b) == is_same_single(b, a),
        is_same_single(a, b) && is_same_single(b, c) ==> is_same_single(a, c),
    decreases a,
{
    lemma_single_inner(a.inner, b.inner, c.inner);
}

/// Equality of variants of single expressions is an equivalence.
proof fn lemma_single_inner(a: SingleExpressionInner, b: SingleExpressionInner, c: SingleExpressionInner)
    ensures
        is_same_single_inner(a, a),
        is_same_single_inner(a, b) == is_same_single_inner(b, a),
        is_same_single_inner(a, b) && is_same_single_inner(b, c) ==> is_same_single_inner(a, c),
    decreases a,
{
    match a {
        SingleExpressionInner::Expression(x) => {
            expression_equality_is_equivalence(
                shared(x),
                shared(b->Expression_0),
                shared(c->Expression_0),
            );
        },
        SingleExpressionInner::Tuple(x) => {
            lemma_expressions(shared(x), shared(b->Tuple_0), shared(c->Tuple_0));
        },
        SingleExpressionInner::Array(x) => {
            lemma_expressions(shared(x), shared(b->Array_0), shared(c->Array_0));
        },
        SingleExpressionInner::List(x) => {
            lemma_expressions(shared(x), shared(b->List_0), shared(c->List_0));
        },
        SingleExpressionInner::Either(Either::Left(x)) => {
            expression_equality_is_equivalence(
                shared(x),
                shared(b->Either_0->Left_0),
                shared(c->Either_0->Left_0),
            );
        },
        SingleExpressionInner::Either(Either::Right(x)) => {
            expression_equality_is_equivalence(
                shared(x),
                shared(b->Either_0->Right_0),
                shared(c->Either_0->Right_0),
            );
        },
        SingleExpressionInner::Option(Some(x)) => {
            expression_equality_is_equivalence(
                shared(x),
                shared(b->Option_0->Some_0),
                shared(c->Option_0->Some_0),
            );
        },
        SingleExpressionInner::Call(x) => {
            lemma_call(x, b->Call_0, c->Call_0);
        },
        SingleExpressionInner::Match(x) => {
            lemma_match(x, b->Match_0, c->Match_0);
        },
        _ => {},
    }
}

/// Equality of calls is an equivalence.
proof fn lemma_call(a: Call, b: Call, c: Call)
    ensures
        is_same_call(a, a),
        is_same_call(a, b) == is_same_call(b, a),
        is_same_call(a, b) && is_same_call(b, c) ==> is_same_call(a, c),
    decreases a,
{
    lemma_call_name(a.name, b.name, c.name);
    lemma_expressions(shared(a.args), shared(b.args), shared(c.args));
}

/// Equality of names of called functions is an equivalence.
proof fn lemma_call_name(a: CallName, b: CallName, c: CallName)
    ensures
        is_same_call_name(a, a),
        is_same_call_name(a, b) == is_same_call_name(b, a),
        is_same_call_name(a, b) && is_same_call_name(b, c) ==> is_same_call_name(a, c),
    decreases a,
{
    match a {
        CallName::Jet(jet) => {
            lemma_jet(jet, b->Jet_0, c->Jet_0);
        },
        CallName::Custom(f) => {
            lemma_function(f, b->Custom_0, c->Custom_0);
        },
        CallName::Fold(f, _) => {
            lemma_function(f, b->Fold_0, c->Fold_0);
        },
        CallName::ArrayFold(f, _) => {
            lemma_function(f, b->ArrayFold_0, c->ArrayFold_0);
        },
        CallName::ForWhile(f, _) => {
            lemma_function(f, b->ForWhile_0, c->ForWhile_0);
        },
        _ => {},
    }
}

/// Equality of custom functions is an equivalence.
proof fn lemma_function(a: CustomFunction, b: CustomFunction, c: CustomFunction)
    ensures
        is_same_function(a, a),
        is_same_function(a, b) == is_same_function(b, a),
        is_same_function(a, b) && is_same_function(b, c) ==> is_same_function(a, c),
    decreases a,
{
    lemma_params(shared(a.params), shared(b.params), shared(c.params));
    expression_equality_is_equivalence(shared(a.body), shared(b.body), shared(c.body));
}

/// Equality of match expressions is an equivalence.
proof fn lemma_match(a: Match, b: Match, c: Match)
    ensures
        is_same_match(a, a),
        is_same_match(a, b) == is_same_match(b, a),
        is_same_match(a, b) && is_same_match(b, c) ==> is_same_match(a, c),
    decreases a,
{
    expression_equality_is_equivalence(
        shared(a.scrutinee),
        shared(b.scrutinee),
        shared(c.scrutinee),
    );
    lemma_arm(a.left, b.left, c.left);
    lemma_arm(a.right, b.right, c.right);
}

/// Equality of match arms is an equivalence.
proof fn lemma_arm(a: MatchArm, b: MatchArm, c: MatchArm)
    ensures
        is_same_arm(a, a),
        is_same_arm(a, b) == is_same_arm(b, a),
        is_same_arm(a, b) && is_same_arm(b, c) ==> is_same_arm(a, c),
    decreases a,
{
    lemma_match_pattern(a.pattern, b.pattern, c.pattern);
    expression_equality_is_equivalence(
        shared(a.expression),
        shared(b.expression),
        shared(c.expression),
    );
}

/// Equality of expressions is an equivalence: an expression equals itself, equality goes both ways,
/// and expressions that equal the same one equal each other.
pub proof fn expression_equality_is_equivalence(a: Expression, b: Expression, c: Expression)
    ensures
        is_same_expression(a, a),
        is_same_expression(a, b) == is_same_expression(b, a),
        is_same_expression(a, b) && is_same_expression(b, c) ==> is_same_expression(a, c),
    decreases a,
{
    lemma_inner(a.inner, b.inner, c.inner);
}

/// Equality of items is an equivalence.
pub proof fn item_equality_is_equivalence(a: Item, b: Item, c: Item)
    ensures
        is_same_item(a, a),
        is_same_item(a, b) == is_same_item(b, a),
        is_same_item(a, b) && is_same_item(b, c) ==> is_same_item(a, c),
    decreases a,
{
    match a {
        Item::Function(Function::Main(x)) => {
            expression_equality_is_equivalence(
                x,
                b->Function_0->Main_0,
                c->Function_0->Main_0,
            );
        },
        Item::Module(items) => {
            lemma_items(*items, *b->Module_0, *c->Module_0);
        },
        _ => {},
    }
}

/// Equality of lists of items is an equivalence.
proof fn lemma_items(a: List<Item>, b: List<Item>, c: List<Item>)
    ensures
        are_same_items(a, a),
        are_same_items(a, b) == are_same_items(b, a),
        are_same_items(a, b) && are_same_items(b, c) ==> are_same_items(a, c),
    decreases a,
{
    if let List::Cons(head, tail) = a {
        item_equality_is_equivalence(head, b->Cons_0, c->Cons_0);
        lemma_items(*tail, *b->Cons_1, *c->Cons_1);
    }
}

/// The place of an expression does not matter for equality.
pub proof fn equality_ignores_places(a: Expression, b: Expression)
    requires
        a.inner == b.inner,
        a.ty == b.ty,
    ensures
        is_same_expression(a, b),
{
    expression_equality_is_equivalence(a, b, a);
}

} // verus!
