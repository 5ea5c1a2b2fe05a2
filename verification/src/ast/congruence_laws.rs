//! Syntax trees are equal if and only if their parts are.
use super::equality::{
    are_same_expressions, are_same_items, are_same_params, are_same_statements, is_same_expression,
    is_same_item, is_same_jet, is_same_program, is_same_single, is_same_statement,
};
use super::{
    CallName, CustomFunction, Expression, ExpressionInner, Function, FunctionParam, Item, Program,
    SingleExpression, SingleExpressionInner, Statement,
};
use crate::list::{shared, List};
use crate::parse::equality::{is_same_match_pattern, is_same_pattern};
use crate::parse::Either;
use vstd::prelude::*;

verus! {

/// Whether expressions are equal to those at the same positions.
pub open spec fn are_equal(a: Seq<Expression>, b: Seq<Expression>) -> bool {
    a.len() == b.len() && forall|i: int|
        0 <= i < a.len() ==> is_same_expression(#[trigger] a[i], b[i])
}

/// Lists of expressions are equal if their elements are.
proof fn lemma_expressions(a: List<Expression>, b: List<Expression>)
    ensures
        are_same_expressions(a, b) <==> are_equal(a@, b@),
    decreases a,
{
    match (a, b) {
        (List::Cons(x, xs), List::Cons(y, ys)) => {
            lemma_expressions(*xs, *ys);
            assert(a@[0] == x && b@[0] == y);
            assert forall|i: int| 0 <= i < xs@.len() implies #[trigger] xs@[i] == a@[i + 1] by {}
            assert forall|i: int| 0 <= i < ys@.len() implies #[trigger] ys@[i] == b@[i + 1] by {}
            if are_equal(a@, b@) {
                assert forall|i: int| 0 <= i < xs@.len() implies is_same_expression(
                    #[trigger] xs@[i],
                    ys@[i],
                ) by {
                    assert(is_same_expression(a@[i + 1], b@[i + 1]));
                }
            }
            if are_same_expressions(a, b) {
                assert forall|i: int| 0 <= i < a@.len() implies is_same_expression(
                    #[trigger] a@[i],
                    b@[i],
                ) by {
                    if i > 0 {
                        assert(is_same_expression(xs@[i - 1], ys@[i - 1]));
                    }
                }
            }
        },
        (List::Cons(_, xs), List::Nil) => {
            assert(a@.len() == 1 + xs@.len());
        },
        (List::Nil, List::Cons(_, ys)) => {
            assert(b@.len() == 1 + ys@.len());
        },
        (List::Nil, List::Nil) => {},
    }
}

/// Whether statements are equal to those at the same positions.
pub open spec fn are_equal_statements(a: Seq<Statement>, b: Seq<Statement>) -> bool {
    a.len() == b.len() && forall|i: int|
        0 <= i < a.len() ==> is_same_statement(#[trigger] a[i], b[i])
}

/// Lists of statements are equal if their elements are.
proof fn lemma_statements(a: List<Statement>, b: List<Statement>)
    ensures
        are_same_statements(a, b) <==> are_equal_statements(a@, b@),
    decreases a,
{
    match (a, b) {
        (List::Cons(x, xs), List::Cons(y, ys)) => {
            lemma_statements(*xs, *ys);
            assert(a@[0] == x && b@[0] == y);
            assert forall|i: int| 0 <= i < xs@.len() implies #[trigger] xs@[i] == a@[i + 1] by {}
            assert forall|i: int| 0 <= i < ys@.len() implies #[trigger] ys@[i] == b@[i + 1] by {}
            if are_equal_statements(a@, b@) {
                assert forall|i: int| 0 <= i < xs@.len() implies is_same_statement(
                    #[trigger] xs@[i],
                    ys@[i],
                ) by {
                    assert(is_same_statement(a@[i + 1], b@[i + 1]));
                }
            }
            if are_same_statements(a, b) {
                assert forall|i: int| 0 <= i < a@.len() implies is_same_statement(
                    #[trigger] a@[i],
                    b@[i],
                ) by {
                    if i > 0 {
                        assert(is_same_statement(xs@[i - 1], ys@[i - 1]));
                    }
                }
            }
        },
        (List::Cons(_, xs), List::Nil) => {
            assert(a@.len() == 1 + xs@.len());
        },
        (List::Nil, List::Cons(_, ys)) => {
            assert(b@.len() == 1 + ys@.len());
        },
        (List::Nil, List::Nil) => {},
    }
}

/// Whether items are equal to those at the same positions.
pub open spec fn are_equal_items(a: Seq<Item>, b: Seq<Item>) -> bool {
    a.len() == b.len() && forall|i: int| 0 <= i < a.len() ==> is_same_item(#[trigger] a[i], b[i])
}

/// Lists of items are equal if their elements are.
proof fn lemma_items(a: List<Item>, b: List<Item>)
    ensures
        are_same_items(a, b) <==> are_equal_items(a@, b@),
    decreases a,
{
    match (a, b) {
        (List::Cons(x, xs), List::Cons(y, ys)) => {
            lemma_items(*xs, *ys);
            assert(a@[0] == x && b@[0] == y);
            assert forall|i: int| 0 <= i < xs@.len() implies #[trigger] xs@[i] == a@[i + 1] by {}
            assert forall|i: int| 0 <= i < ys@.len() implies #[trigger] ys@[i] == b@[i + 1] by {}
            if are_equal_items(a@, b@) {
                assert forall|i: int| 0 <= i < xs@.len() implies is_same_item(
                    #[trigger] xs@[i],
                    ys@[i],
                ) by {
                    assert(is_same_item(a@[i + 1], b@[i + 1]));
                }
            }
            if are_same_items(a, b) {
                assert forall|i: int| 0 <= i < a@.len() implies is_same_item(
                    #[trigger] a@[i],
                    b@[i],
                ) by {
                    if i > 0 {
                        assert(is_same_item(xs@[i - 1], ys@[i - 1]));
                    }
                }
            }
        },
        (List::Cons(_, xs), List::Nil) => {
            assert(a@.len() == 1 + xs@.len());
        },
        (List::Nil, List::Cons(_, ys)) => {
            assert(b@.len() == 1 + ys@.len());
        },
        (List::Nil, List::Nil) => {},
    }
}

/// Whether parameters have the same names and types as those at the same positions.
pub open spec fn are_equal_params(a: Seq<FunctionParam>, b: Seq<FunctionParam>) -> bool {
    a.len() == b.len() && forall|i: int|
        0 <= i < a.len() ==> (#[trigger] a[i]).identifier@ == b[i].identifier@ && a[i].ty
            == b[i].ty
}

/// Lists of parameters are equal if their elements are.
proof fn lemma_params(a: List<FunctionParam>, b: List<FunctionParam>)
    ensures
        are_same_params(a, b) <==> are_equal_params(a@, b@),
    decreases a,
{
    match (a, b) {
        (List::Cons(x, xs), List::Cons(y, ys)) => {
            lemma_params(*xs, *ys);
            assert(a@[0] == x && b@[0] == y);
            assert forall|i: int| 0 <= i < xs@.len() implies #[trigger] xs@[i] == a@[i + 1] by {}
            assert forall|i: int| 0 <= i < ys@.len() implies #[trigger] ys@[i] == b@[i + 1] by {}
            if are_equal_params(a@, b@) {
                assert forall|i: int| 0 <= i < xs@.len() implies (#[trigger] xs@[i]).identifier@
                    == ys@[i].identifier@ && xs@[i].ty == ys@[i].ty by {
                    assert(a@[i + 1].identifier@ == b@[i + 1].identifier@);
                }
            }
            if are_same_params(a, b) {
                assert forall|i: int| 0 <= i < a@.len() implies (#[trigger] a@[i]).identifier@
                    == b@[i].identifier@ && a@[i].ty == b@[i].ty by {
                    if i > 0 {
                        assert(xs@[i - 1].identifier@ == ys@[i - 1].identifier@);
                    }
                }
            }
        },
        (List::Cons(_, xs), List::Nil) => {
            assert(a@.len() == 1 + xs@.len());
        },
        (List::Nil, List::Cons(_, ys)) => {
            assert(b@.len() == 1 + ys@.len());
        },
        (List::Nil, List::Nil) => {},
    }
}

/// Whether functions have equal parameters and equal bodies.
pub open spec fn are_equal_functions(f: CustomFunction, g: CustomFunction) -> bool {
    are_equal_params(f.params@, g.params@) && is_same_expression(*f.body, *g.body)
}

/// Whether calls are of the same function.
pub open spec fn call_the_same(a: CallName, b: CallName) -> bool {
    match a {
        CallName::Jet(x) => b matches CallName::Jet(y) && is_same_jet(x, y),
        CallName::UnwrapLeft(s) => b matches CallName::UnwrapLeft(t) && s == t,
        CallName::UnwrapRight(s) => b matches CallName::UnwrapRight(t) && s == t,
        CallName::IsNone(s) => b matches CallName::IsNone(t) && s == t,
        CallName::Unwrap => b is Unwrap,
        CallName::Assert => b is Assert,
        CallName::Panic => b is Panic,
        CallName::Debug => b is Debug,
        CallName::TypeCast(s) => b matches CallName::TypeCast(t) && s == t,
        CallName::Custom(f) => b matches CallName::Custom(g) && are_equal_functions(f, g),
        CallName::Fold(f, n) => b matches CallName::Fold(g, m) && are_equal_functions(f, g) && n
            == m,
        CallName::ArrayFold(f, n) => b matches CallName::ArrayFold(g, m) && are_equal_functions(
            f,
            g,
        ) && n == m,
        CallName::ForWhile(f, n) => b matches CallName::ForWhile(g, m) && are_equal_functions(f, g)
            && n == m,
    }
}

/// Expressions are equal if and only if they are of the same kind and type and their parts are
/// equal.
pub proof fn equal_expressions_have_equal_parts(a: Expression, b: Expression)
    ensures
        is_same_expression(a, b) <==> a.ty == b.ty && match a.inner {
            ExpressionInner::Single(x) => b.inner matches ExpressionInner::Single(y)
                && is_same_single(x, y),
            ExpressionInner::Block(s, x) => b.inner matches ExpressionInner::Block(t, y)
                && are_equal_statements(s@, t@) && (x is Some <==> y is Some) && (x is Some
                ==> is_same_expression(*x->0, *y->0)),
        },
{
    reveal_with_fuel(is_same_expression, 2);
    if let (ExpressionInner::Block(s, _), ExpressionInner::Block(t, _)) = (a.inner, b.inner) {
        lemma_statements(shared(s), shared(t));
    }
}

/// Statements are equal if and only if they are of the same kind and their parts are equal.
pub proof fn equal_statements_have_equal_parts(a: Statement, b: Statement)
    ensures
        is_same_statement(a, b) <==> match a {
            Statement::Assignment(x) => b matches Statement::Assignment(y) && is_same_pattern(
                x.pattern,
                y.pattern,
            ) && is_same_expression(x.expression, y.expression),
            Statement::Expression(x) => b matches Statement::Expression(y) && is_same_expression(
                x,
                y,
            ),
        },
{
}

/// Single expressions are equal if and only if they are of the same kind and type and their parts
/// are equal.
pub proof fn equal_single_expressions_have_equal_parts(a: SingleExpression, b: SingleExpression)
    ensures
        is_same_single(a, b) <==> a.ty == b.ty && match a.inner {
            SingleExpressionInner::Constant(x) => b.inner matches SingleExpressionInner::Constant(
                y,
            ) && x == y,
            SingleExpressionInner::Witness(x) => b.inner matches SingleExpressionInner::Witness(y)
                && x@ == y@,
            SingleExpressionInner::Parameter(x) => b.inner
                matches SingleExpressionInner::Parameter(y) && x@ == y@,
            SingleExpressionInner::Variable(x) => b.inner matches SingleExpressionInner::Variable(
                y,
            ) && x@ == y@,
            SingleExpressionInner::Expression(x) => b.inner
                matches SingleExpressionInner::Expression(y) && is_same_expression(*x, *y),
            SingleExpressionInner::Tuple(x) => b.inner matches SingleExpressionInner::Tuple(y)
                && are_equal(x@, y@),
            SingleExpressionInner::Array(x) => b.inner matches SingleExpressionInner::Array(y)
                && are_equal(x@, y@),
            SingleExpressionInner::List(x) => b.inner matches SingleExpressionInner::List(y)
                && are_equal(x@, y@),
            SingleExpressionInner::Either(Either::Left(x)) => b.inner
                matches SingleExpressionInner::Either(Either::Left(y)) && is_same_expression(
                *x,
                *y,
            ),
            SingleExpressionInner::Either(Either::Right(x)) => b.inner
                matches SingleExpressionInner::Either(Either::Right(y)) && is_same_expression(
                *x,
                *y,
            ),
            SingleExpressionInner::Option(None) => b.inner matches SingleExpressionInner::Option(y)
                && y is None,
            SingleExpressionInner::Option(Some(x)) => b.inner
                matches SingleExpressionInner::Option(Some(y)) && is_same_expression(*x, *y),
            SingleExpressionInner::Call(x) => b.inner matches SingleExpressionInner::Call(y)
                && call_the_same(x.name, y.name) && are_equal(x.args@, y.args@),
            SingleExpressionInner::Match(x) => b.inner matches SingleExpressionInner::Match(y)
                && is_same_expression(*x.scrutinee, *y.scrutinee) && is_same_match_pattern(
                x.left.pattern,
                y.left.pattern,
            ) && is_same_expression(*x.left.expression, *y.left.expression)
                && is_same_match_pattern(x.right.pattern, y.right.pattern) && is_same_expression(
                *x.right.expression,
                *y.right.expression,
            ),
        },
{
    match (a.inner, b.inner) {
        (SingleExpressionInner::Tuple(x), SingleExpressionInner::Tuple(y)) => {
            lemma_expressions(shared(x), shared(y));
        },
        (SingleExpressionInner::Array(x), SingleExpressionInner::Array(y)) => {
            lemma_expressions(shared(x), shared(y));
        },
        (SingleExpressionInner::List(x), SingleExpressionInner::List(y)) => {
            lemma_expressions(shared(x), shared(y));
        },
        (SingleExpressionInner::Call(x), SingleExpressionInner::Call(y)) => {
            lemma_expressions(shared(x.args), shared(y.args));
            lemma_call_names(x.name, y.name);
        },
        _ => {},
    }
}

/// Names of called functions are equal if they are of the same function.
proof fn lemma_call_names(a: CallName, b: CallName)
    ensures
        super::equality::is_same_call_name(a, b) <==> call_the_same(a, b),
{
    match (a, b) {
        (CallName::Custom(f), CallName::Custom(g)) => {
            lemma_params(shared(f.params), shared(g.params));
        },
        (CallName::Fold(f, _), CallName::Fold(g, _)) => {
            lemma_params(shared(f.params), shared(g.params));
        },
        (CallName::ArrayFold(f, _), CallName::ArrayFold(g, _)) => {
            lemma_params(shared(f.params), shared(g.params));
        },
        (CallName::ForWhile(f, _), CallName::ForWhile(g, _)) => {
            lemma_params(shared(f.params), shared(g.params));
        },
        _ => {},
    }
}

/// Items are equal if and only if they are of the same kind and their parts are equal.
pub proof fn equal_items_have_equal_parts(a: Item, b: Item)
    ensures
        is_same_item(a, b) <==> match a {
            Item::TypeAlias => b is TypeAlias,
            Item::Function(Function::Custom) => b matches Item::Function(g) && g is Custom,
            Item::Function(Function::Main(x)) => b matches Item::Function(Function::Main(y))
                && is_same_expression(x, y),
            Item::Use => b is Use,
            Item::Module(x) => b matches Item::Module(y) && are_equal_items(x@, y@),
            Item::Ignored => b is Ignored,
        },
{
    if let (Item::Module(x), Item::Module(y)) = (a, b) {
        lemma_items(*x, *y);
    }
}

/// Programs are equal if and only if their main expressions are, their parameters and witnesses
/// have the same types, and they track the same calls in the same order.
pub proof fn equal_programs_have_equal_parts(a: Program, b: Program)
    ensures
        is_same_program(a, b) <==> {
            &&& is_same_expression(a.main, b.main)
            &&& forall|name: Seq<char>| #[trigger]
                a.parameters@.contains_key(name) == b.parameters@.contains_key(name) && (
                a.parameters@.contains_key(name) ==> a.parameters@[name] == b.parameters@[name])
            &&& forall|name: Seq<char>| #[trigger]
                a.witness_types@.contains_key(name) == b.witness_types@.contains_key(name) && (
                a.witness_types@.contains_key(name) ==> a.witness_types@[name]
                    == b.witness_types@[name])
            &&& a.call_tracker@.len() == b.call_tracker@.len()
            &&& forall|i: int|
                0 <= i < a.call_tracker@.len() ==> #[trigger] a.call_tracker@[i]
                    == b.call_tracker@[i]
        },
{
    assert(a.parameters@ =~= b.parameters@ <==> a.parameters@ == b.parameters@);
    assert(a.witness_types@ =~= b.witness_types@ <==> a.witness_types@ == b.witness_types@);
    assert(a.call_tracker@ =~= b.call_tracker@ <==> a.call_tracker@ == b.call_tracker@);
}

} // verus!
