//! Parsed programs are equal if and only if their parts are.
use super::equality::{
    are_same_expressions, are_same_items, are_same_params, are_same_statements, is_same_aliased,
    is_same_expression, is_same_item, is_same_match_pattern, is_same_pattern, is_same_single,
    is_same_statement,
};
use super::{
    CallName, Either, Expression, ExpressionInner, FunctionParam, Item, SingleExpression,
    SingleExpressionInner, Statement, UseItems,
};
use crate::list::{shared, List};
use crate::name::names;
use crate::types::AliasedType;
use vstd::prelude::*;

verus! {

/// Whether expressions are equal to those at the same positions.
pub open spec fn are_equal(a: Seq<Expression>, b: Seq<Expression>) -> bool {
    a.len() == b.len() && forall|i: int|
        0 <= i < a.len() ==> is_same_expression(#[trigger] a[i], b[i])
}

/// Lists of expressions are equal if their elements are.
proof fn lemma_expressions(a: List<Expression>, b: List<Expression>)
    ensures
        are_same_expressions(a, b) <==> are_equal(a@, b@),
    decreases a,
{
    match (a, b) {
        (List::Cons(x, xs), List::Cons(y, ys)) => {
            lemma_expressions(*xs, *ys);
            assert(a@[0] == x && b@[0] == y);
            assert forall|i: int| 0 <= i < xs@.len() implies #[trigger] xs@[i] == a@[i + 1] by {}
            assert forall|i: int| 0 <= i < ys@.len() implies #[trigger] ys@[i] == b@[i + 1] by {}
            if are_equal(a@, b@) {
                assert forall|i: int| 0 <= i < xs@.len() implies is_same_expression(
                    #[trigger] xs@[i],
                    ys@[i],
                ) by {
                    assert(is_same_expression(a@[i + 1], b@[i + 1]));
                }
            }
            if are_same_expressions(a, b) {
                assert forall|i: int| 0 <= i < a@.len() implies is_same_expression(
                    #[trigger] a@[i],
                    b@[i],
                ) by {
                    if i > 0 {
                        assert(is_same_expression(xs@[i - 1], ys@[i - 1]));
                    }
                }
            }
        },
        (List::Cons(_, xs), List::Nil) => {
            assert(a@.len() == 1 + xs@.len());
        },
        (List::Nil, List::Cons(_, ys)) => {
            assert(b@.len() == 1 + ys@.len());
        },
        (List::Nil, List::Nil) => {},
    }
}

/// Whether statements are equal to those at the same positions.
pub open spec fn are_equal_statements(a: Seq<Statement>, b: Seq<Statement>) -> bool {
    a.len() == b.len() && forall|i: int|
        0 <= i < a.len() ==> is_same_statement(#[trigger] a[i], b[i])
}

/// Lists of statements are equal if their elements are.
proof fn lemma_statements(a: List<Statement>, b: List<Statement>)
    ensures
        are_same_statements(a, b) <==> are_equal_statements(a@, b@),
    decreases a,
{
    match (a, b) {
        (List::Cons(x, xs), List::Cons(y, ys)) => {
            lemma_statements(*xs, *ys);
            assert(a@[0] == x && b@[0] == y);
            assert forall|i: int| 0 <= i < xs@.len() implies #[trigger] xs@[i] == a@[i + 1] by {}
            assert forall|i: int| 0 <= i < ys@.len() implies #[trigger] ys@[i] == b@[i + 1] by {}
            if are_equal_statements(a@, b@) {
                assert forall|i: int| 0 <= i < xs@.len() implies is_same_statement(
                    #[trigger] xs@[i],
                    ys@[i],
                ) by {
                    assert(is_same_statement(a@[i + 1], b@[i + 1]));
                }
            }
            if are_same_statements(a, b) {
                assert forall|i: int| 0 <= i < a@.len() implies is_same_statement(
                    #[trigger] a@[i],
                    b@[i],
                ) by {
                    if i > 0 {
                        assert(is_same_statement(xs@[i - 1], ys@[i - 1]));
                    }
                }
            }
        },
        (List::Cons(_, xs), List::Nil) => {
            assert(a@.len() == 1 + xs@.len());
        },
        (List::Nil, List::Cons(_, ys)) => {
            assert(b@.len() == 1 + ys@.len());
        },
        (List::Nil, List::Nil) => {},
    }
}

/// Whether items are equal to those at the same positions.
pub open spec fn are_equal_items(a: Seq<Item>, b: Seq<Item>) -> bool {
    a.len() == b.len() && forall|i: int| 0 <= i < a.len() ==> is_same_item(#[trigger] a[i], b[i])
}

/// Lists of items are equal if their elements are.
proof fn lemma_items(a: List<Item>, b: List<Item>)
    ensures
        are_same_items(a, b) <==> are_equal_items(a@, b@),
    decreases a,
{
    match (a, b) {
        (List::Cons(x, xs), List::Cons(y, ys)) => {
            lemma_items(*xs, *ys);
            assert(a@[0] == x && b@[0] == y);
            assert forall|i: int| 0 <= i < xs@.len() implies #[trigger] xs@[i] == a@[i + 1] by {}
            assert forall|i: int| 0 <= i < ys@.len() implies #[trigger] ys@[i] == b@[i + 1] by {}
            if are_equal_items(a@, b@) {
                assert forall|i: int| 0 <= i < xs@.len() implies is_same_item(
                    #[trigger] xs@[i],
                    ys@[i],
                ) by {
                    assert(is_same_item(a@[i + 1], b@[i + 1]));
                }
            }
            if are_same_items(a, b) {
                assert forall|i: int| 0 <= i < a@.len() implies is_same_item(
                    #[trigger] a@[i],
                    b@[i],
                ) by {
                    if i > 0 {
                        assert(is_same_item(xs@[i - 1], ys@[i - 1]));
                    }
                }
            }
        },
        (List::Cons(_, xs), List::Nil) => {
            assert(a@.len() == 1 + xs@.len());
        },
        (List::Nil, List::Cons(_, ys)) => {
            assert(b@.len() == 1 + ys@.len());
        },
        (List::Nil, List::Nil) => {},
    }
}

/// Whether parameters have the same names and types as those at the same positions.
pub open spec fn are_equal_params(a: Seq<FunctionParam>, b: Seq<FunctionParam>) -> bool {
    a.len() == b.len() && forall|i: int|
        0 <= i < a.len() ==> (#[trigger] a[i]).identifier@ == b[i].identifier@ && is_same_aliased(
            a[i].ty,
            b[i].ty,
        )
}

/// Lists of parameters are equal if their elements are.
proof fn lemma_params(a: List<FunctionParam>, b: List<FunctionParam>)
    ensures
        are_same_params(a, b) <==> are_equal_params(a@, b@),
    decreases a,
{
    match (a, b) {
        (List::Cons(x, xs), List::Cons(y, ys)) => {
            lemma_params(*xs, *ys);
            assert(a@[0] == x && b@[0] == y);
            assert forall|i: int| 0 <= i < xs@.len() implies #[trigger] xs@[i] == a@[i + 1] by {}
            assert forall|i: int| 0 <= i < ys@.len() implies #[trigger] ys@[i] == b@[i + 1] by {}
            if are_equal_params(a@, b@) {
                assert forall|i: int| 0 <= i < xs@.len() implies (#[trigger] xs@[i]).identifier@
                    == ys@[i].identifier@ && is_same_aliased(xs@[i].ty, ys@[i].ty) by {
                    assert(a@[i + 1].identifier@ == b@[i + 1].identifier@);
                }
            }
            if are_same_params(a, b) {
                assert forall|i: int| 0 <= i < a@.len() implies (#[trigger] a@[i]).identifier@
                    == b@[i].identifier@ && is_same_aliased(a@[i].ty, b@[i].ty) by {
                    if i > 0 {
                        assert(xs@[i - 1].identifier@ == ys@[i - 1].identifier@);
                    }
                }
            }
        },
        (List::Cons(_, xs), List::Nil) => {
            assert(a@.len() == 1 + xs@.len());
        },
        (List::Nil, List::Cons(_, ys)) => {
            assert(b@.len() == 1 + ys@.len());
        },
        (List::Nil, List::Nil) => {},
    }
}

/// Whether calls name the same function.
pub open spec fn name_the_same(a: CallName, b: CallName) -> bool {
    match a {
        CallName::Jet(x) => b matches CallName::Jet(y) && x@ == y@,
        CallName::UnwrapLeft(s) => b matches CallName::UnwrapLeft(t) && is_same_aliased(s, t),
        CallName::UnwrapRight(s) => b matches CallName::UnwrapRight(t) && is_same_aliased(s, t),
        CallName::IsNone(s) => b matches CallName::IsNone(t) && is_same_aliased(s, t),
        CallName::Unwrap => b is Unwrap,
        CallName::Assert => b is Assert,
        CallName::Panic => b is Panic,
        CallName::Debug => b is Debug,
        CallName::TypeCast(s) => b matches CallName::TypeCast(t) && is_same_aliased(s, t),
        CallName::Custom(x) => b matches CallName::Custom(y) && x@ == y@,
        CallName::ArrayFold(x, n) => b matches CallName::ArrayFold(y, m) && x@ == y@ && n == m,
        CallName::Fold(x, n) => b matches CallName::Fold(y, m) && x@ == y@ && n == m,
        CallName::ForWhile(x) => b matches CallName::ForWhile(y) && x@ == y@,
    }
}

/// Expressions are equal if and only if they are of the same kind and their parts are equal.
pub proof fn equal_expressions_have_equal_parts(a: Expression, b: Expression)
    ensures
        is_same_expression(a, b) <==> match a.inner {
            ExpressionInner::Single(x) => b.inner matches ExpressionInner::Single(y)
                && is_same_single(x, y),
            ExpressionInner::Block(s, x) => b.inner matches ExpressionInner::Block(t, y)
                && are_equal_statements(s@, t@) && (x is Some <==> y is Some) && (x is Some
                ==> is_same_expression(*x->0, *y->0)),
        },
{
    if let (ExpressionInner::Block(s, _), ExpressionInner::Block(t, _)) = (a.inner, b.inner) {
        lemma_statements(shared(s), shared(t));
    }
}

/// Statements are equal if and only if they are of the same kind and their parts are equal.
pub proof fn equal_statements_have_equal_parts(a: Statement, b: Statement)
    ensures
        is_same_statement(a, b) <==> match a {
            Statement::Assignment(x) => b matches Statement::Assignment(y) && is_same_pattern(
                x.pattern,
                y.pattern,
            ) && is_same_aliased(x.ty, y.ty) && is_same_expression(x.expression, y.expression),
            Statement::Expression(x) => b matches Statement::Expression(y) && is_same_expression(
                x,
                y,
            ),
        },
{
}

/// Single expressions are equal if and only if they are of the same kind and their parts are equal.
pub proof fn equal_single_expressions_have_equal_parts(a: SingleExpression, b: SingleExpression)
    ensures
        is_same_single(a, b) <==> match a.inner {
            SingleExpressionInner::Boolean(x) => b.inner matches SingleExpressionInner::Boolean(y)
                && x == y,
            SingleExpressionInner::Decimal(x) => b.inner matches SingleExpressionInner::Decimal(y)
                && x@ == y@,
            SingleExpressionInner::Binary(x) => b.inner matches SingleExpressionInner::Binary(y)
                && x@ == y@,
            SingleExpressionInner::Hexadecimal(x) => b.inner
                matches SingleExpressionInner::Hexadecimal(y) && x@ == y@,
            SingleExpressionInner::Witness(x) => b.inner matches SingleExpressionInner::Witness(y)
                && x@ == y@,
            SingleExpressionInner::Parameter(x) => b.inner
                matches SingleExpressionInner::Parameter(y) && x@ == y@,
            SingleExpressionInner::Variable(x) => b.inner matches SingleExpressionInner::Variable(
                y,
            ) && x@ == y@,
            SingleExpressionInner::Expression(x) => b.inner
                matches SingleExpressionInner::Expression(y) && is_same_expression(*x, *y),
            SingleExpressionInner::Tuple(x) => b.inner matches SingleExpressionInner::Tuple(y)
                && are_equal(x@, y@),
            SingleExpressionInner::Array(x) => b.inner matches SingleExpressionInner::Array(y)
                && are_equal(x@, y@),
            SingleExpressionInner::List(x) => b.inner matches SingleExpressionInner::List(y)
                && are_equal(x@, y@),
            SingleExpressionInner::Either(Either::Left(x)) => b.inner
                matches SingleExpressionInner::Either(Either::Left(y)) && is_same_expression(
                *x,
                *y,
            ),
            SingleExpressionInner::Either(Either::Right(x)) => b.inner
                matches SingleExpressionInner::Either(Either::Right(y)) && is_same_expression(
                *x,
                *y,
            ),
            SingleExpressionInner::Option(None) => b.inner matches SingleExpressionInner::Option(y)
                && y is None,
            SingleExpressionInner::Option(Some(x)) => b.inner
                matches SingleExpressionInner::Option(Some(y)) && is_same_expression(*x, *y),
            SingleExpressionInner::Call(x) => b.inner matches SingleExpressionInner::Call(y)
                && name_the_same(x.name, y.name) && are_equal(x.args@, y.args@),
            SingleExpressionInner::Match(x) => b.inner matches SingleExpressionInner::Match(y)
                && is_same_expression(*x.scrutinee, *y.scrutinee) && is_same_match_pattern(
                x.left.pattern,
                y.left.pattern,
            ) && is_same_expression(*x.left.expression, *y.left.expression)
                && is_same_match_pattern(x.right.pattern, y.right.pattern) && is_same_expression(
                *x.right.expression,
                *y.right.expression,
            ),
        },
{
    match (a.inner, b.inner) {
        (SingleExpressionInner::Tuple(x), SingleExpressionInner::Tuple(y)) => {
            lemma_expressions(shared(x), shared(y));
        },
        (SingleExpressionInner::Array(x), SingleExpressionInner::Array(y)) => {
            lemma_expressions(shared(x), shared(y));
        },
        (SingleExpressionInner::List(x), SingleExpressionInner::List(y)) => {
            lemma_expressions(shared(x), shared(y));
        },
        (SingleExpressionInner::Call(x), SingleExpressionInner::Call(y)) => {
            lemma_expressions(shared(x.args), shared(y.args));
        },
        _ => {},
    }
}

/// Whether return types are equal.
pub open spec fn are_equal_returns(a: Option<AliasedType>, b: Option<AliasedType>) -> bool {
    (a is Some <==> b is Some) && (a is Some ==> is_same_aliased(a->0, b->0))
}

/// Items are equal if and only if they are of the same kind, belong to the same file, have the same
/// name and visibility, and their parts are equal.
pub proof fn equal_items_have_equal_parts(a: Item, b: Item)
    ensures
        is_same_item(a, b) <==> match a {
            Item::TypeAlias(x) => b matches Item::TypeAlias(y) && x.file_id == y.file_id
                && x.visibility == y.visibility && x.name@ == y.name@ && is_same_aliased(x.ty, y.ty),
            Item::Function(x) => b matches Item::Function(y) && x.file_id == y.file_id
                && x.visibility == y.visibility && x.name@ == y.name@ && are_equal_params(
                x.params@,
                y.params@,
            ) && are_equal_returns(x.ret, y.ret) && is_same_expression(*x.body, *y.body),
            Item::Use(x) => b matches Item::Use(y) && x.visibility == y.visibility && names(x.path@)
                == names(y.path@) && match x.items {
                UseItems::Single(v) => y.items matches UseItems::Single(w) && v@ == w@,
                UseItems::List(v) => y.items matches UseItems::List(w) && v@.len() == w@.len()
                    && forall|i: int| 0 <= i < v@.len() ==> (#[trigger] v@[i])@ == w@[i]@,
            },
            Item::Module(x) => b matches Item::Module(y) && x.file_id == y.file_id && x.visibility
                == y.visibility && x.name@ == y.name@ && are_equal_items(x.items@, y.items@),
            Item::Ignored => b is Ignored,
        },
{
    match (a, b) {
        (Item::Function(x), Item::Function(y)) => {
            lemma_params(shared(x.params), shared(y.params));
        },
        (Item::Use(x), Item::Use(y)) => {
            if let (UseItems::List(v), UseItems::List(w)) = (x.items, y.items) {
                let (s, t) = (super::use_item_views(v@), super::use_item_views(w@));
                assert(s.len() == v@.len() && t.len() == w@.len());
                if s == t {
                    assert forall|i: int| 0 <= i < v@.len() implies (#[trigger] v@[i])@
                        == w@[i]@ by {
                        assert(s[i] == v@[i]@);
                        assert(t[i] == w@[i]@);
                    }
                }
                if v@.len() == w@.len() && (forall|i: int|
                    0 <= i < v@.len() ==> (#[trigger] v@[i])@ == w@[i]@) {
                    assert(s =~= t);
                }
            }
        },
        (Item::Module(x), Item::Module(y)) => {
            lemma_items(shared(x.items), shared(y.items));
        },
        _ => {},
    }
}

} // verus!
