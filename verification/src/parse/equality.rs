//! When parts of a parse tree are equal.
//!
//! Names are equal if they have the same characters, and places in a file do not matter.
use crate::list::List;
use crate::parse::{
    is_same_use, Assignment, Call, CallName, Either, Expression, ExpressionInner, Function,
    FunctionParam, Item, Match, MatchArm, Module, Program, SingleExpression,
    SingleExpressionInner, Statement, TypeAlias, UseDecl, UseItem,
};
use crate::pattern::{MatchPattern, Pattern};
use crate::types::AliasedType;
use vstd::prelude::*;
use vstd::std_specs::cmp::PartialEqSpecImpl;

verus! {

/// Whether two types are equal.
pub open spec fn is_same_aliased(a: AliasedType, b: AliasedType) -> bool
    decreases a,
{
    match (a, b) {
        (AliasedType::Alias(x), AliasedType::Alias(y)) => x@ == y@,
        (AliasedType::Builtin(x, s), AliasedType::Builtin(y, t)) => x@ == y@ && s == t,
        (AliasedType::Either(s, t), AliasedType::Either(u, v)) => is_same_aliased(*s, *u)
            && is_same_aliased(*t, *v),
        (AliasedType::Option(s), AliasedType::Option(t)) => is_same_aliased(*s, *t),
        (AliasedType::Boolean, AliasedType::Boolean) => true,
        (AliasedType::UInt(s), AliasedType::UInt(t)) => s == t,
        (AliasedType::Tuple(s), AliasedType::Tuple(t)) => are_same_aliased(*s, *t),
        (AliasedType::Array(s, n), AliasedType::Array(t, m)) => n == m && is_same_aliased(*s, *t),
        (AliasedType::List(s, n), AliasedType::List(t, m)) => n == m && is_same_aliased(*s, *t),
        _ => false,
    }
}

/// Whether two lists of types are equal.
pub open spec fn are_same_aliased(a: List<AliasedType>, b: List<AliasedType>) -> bool
    decreases a,
{
    match (a, b) {
        (List::Nil, List::Nil) => true,
        (List::Cons(x, xs), List::Cons(y, ys)) => is_same_aliased(x, y) && are_same_aliased(
            *xs,
            *ys,
        ),
        _ => false,
    }
}

/// Whether two patterns are equal.
pub open spec fn is_same_pattern(a: Pattern, b: Pattern) -> bool
    decreases a,
{
    match (a, b) {
        (Pattern::Identifier(x), Pattern::Identifier(y)) => x@ == y@,
        (Pattern::Ignore, Pattern::Ignore) => true,
        (Pattern::Tuple(xs), Pattern::Tuple(ys)) => are_same_patterns(*xs, *ys),
        (Pattern::Array(xs), Pattern::Array(ys)) => are_same_patterns(*xs, *ys),
        _ => false,
    }
}

/// Whether two lists of patterns are equal.
pub open spec fn are_same_patterns(a: List<Pattern>, b: List<Pattern>) -> bool
    decreases a,
{
    match (a, b) {
        (List::Nil, List::Nil) => true,
        (List::Cons(x, xs), List::Cons(y, ys)) => is_same_pattern(x, y) && are_same_patterns(
            *xs,
            *ys,
        ),
        _ => false,
    }
}

/// Whether two patterns of match arms are equal.
pub open spec fn is_same_match_pattern(a: MatchPattern, b: MatchPattern) -> bool {
    match (a, b) {
        (MatchPattern::Left(p, s), MatchPattern::Left(q, t)) => is_same_pattern(p, q)
            && is_same_aliased(s, t),
        (MatchPattern::Right(p, s), MatchPattern::Right(q, t)) => is_same_pattern(p, q)
            && is_same_aliased(s, t),
        (MatchPattern::Nothing, MatchPattern::Nothing) => true,
        (MatchPattern::Something(p, s), MatchPattern::Something(q, t)) => is_same_pattern(p, q)
            && is_same_aliased(s, t),
        (MatchPattern::False, MatchPattern::False) => true,
        (MatchPattern::True, MatchPattern::True) => true,
        _ => false,
    }
}

/// Whether two parameters are equal.
pub open spec fn is_same_param(a: FunctionParam, b: FunctionParam) -> bool {
    a.identifier@ == b.identifier@ && is_same_aliased(a.ty, b.ty)
}

/// Whether two lists of parameters are equal.
pub open spec fn are_same_params(a: List<FunctionParam>, b: List<FunctionParam>) -> bool
    decreases a,
{
    match (a, b) {
        (List::Nil, List::Nil) => true,
        (List::Cons(x, xs), List::Cons(y, ys)) => is_same_param(x, y) && are_same_params(*xs, *ys),
        _ => false,
    }
}

/// Whether two expressions are equal.
pub open spec fn is_same_expression(a: Expression, b: Expression) -> bool
    decreases a,
{
    is_same_inner(a.inner, b.inner)
}

/// Whether two variants of expressions are equal.
pub open spec fn is_same_inner(a: ExpressionInner, b: ExpressionInner) -> bool
    decreases a,
{
    match (a, b) {
        (ExpressionInner::Single(x), ExpressionInner::Single(y)) => is_same_single(x, y),
        (ExpressionInner::Block(s, x), ExpressionInner::Block(t, y)) => are_same_statements(*s, *t)
            && match (x, y) {
            (Some(e), Some(f)) => is_same_expression(*e, *f),
            (None, None) => true,
            _ => false,
        },
        _ => false,
    }
}

/// Whether two lists of statements are equal.
pub open spec fn are_same_statements(a: List<Statement>, b: List<Statement>) -> bool
    decreases a,
{
    match (a, b) {
        (List::Nil, List::Nil) => true,
        (List::Cons(x, xs), List::Cons(y, ys)) => is_same_statement(x, y) && are_same_statements(
            *xs,
            *ys,
        ),
        _ => false,
    }
}

/// Whether two statements are equal.
pub open spec fn is_same_statement(a: Statement, b: Statement) -> bool
    decreases a,
{
    match (a, b) {
        (Statement::Assignment(x), Statement::Assignment(y)) => is_same_assignment(x, y),
        (Statement::Expression(x), Statement::Expression(y)) => is_same_expression(x, y),
        _ => false,
    }
}

/// Whether two assignments are equal.
pub open spec fn is_same_assignment(a: Assignment, b: Assignment) -> bool
    decreases a,
{
    &&& is_same_pattern(a.pattern, b.pattern)
    &&& is_same_aliased(a.ty, b.ty)
    &&& is_same_expression(a.expression, b.expression)
}

/// Whether two lists of expressions are equal.
pub open spec fn are_same_expressions(a: List<Expression>, b: List<Expression>) -> bool
    decreases a,
{
    match (a, b) {
        (List::Nil, List::Nil) => true,
        (List::Cons(x, xs), List::Cons(y, ys)) => is_same_expression(x, y) && are_same_expressions(
            *xs,
            *ys,
        ),
        _ => false,
    }
}

/// Whether two single expressions are equal.
pub open spec fn is_same_single(a: SingleExpression, b: SingleExpression) -> bool
    decreases a,
{
    is_same_single_inner(a.inner, b.inner)
}

/// Whether two variants of single expressions are equal.
pub open spec fn is_same_single_inner(a: SingleExpressionInner, b: SingleExpressionInner) -> bool
    decreases a,
{
    match (a, b) {
        (SingleExpressionInner::Decimal(x), SingleExpressionInner::Decimal(y)) => x@ == y@,
        (SingleExpressionInner::Binary(x), SingleExpressionInner::Binary(y)) => x@ == y@,
        (SingleExpressionInner::Hexadecimal(x), SingleExpressionInner::Hexadecimal(y)) => x@ == y@,
        (SingleExpressionInner::Boolean(x), SingleExpressionInner::Boolean(y)) => x == y,
        (SingleExpressionInner::Witness(x), SingleExpressionInner::Witness(y)) => x@ == y@,
        (SingleExpressionInner::Parameter(x), SingleExpressionInner::Parameter(y)) => x@ == y@,
        (SingleExpressionInner::Variable(x), SingleExpressionInner::Variable(y)) => x@ == y@,
        (
            SingleExpressionInner::Expression(x),
            SingleExpressionInner::Expression(y),
        ) => is_same_expression(*x, *y),
        (SingleExpressionInner::Tuple(x), SingleExpressionInner::Tuple(y)) => are_same_expressions(
            *x,
            *y,
        ),
        (SingleExpressionInner::Array(x), SingleExpressionInner::Array(y)) => are_same_expressions(
            *x,
            *y,
        ),
        (SingleExpressionInner::List(x), SingleExpressionInner::List(y)) => are_same_expressions(
            *x,
            *y,
        ),
        (SingleExpressionInner::Either(x), SingleExpressionInner::Either(y)) => match (x, y) {
            (Either::Left(e), Either::Left(f)) => is_same_expression(*e, *f),
            (Either::Right(e), Either::Right(f)) => is_same_expression(*e, *f),
            _ => false,
        },
        (SingleExpressionInner::Option(x), SingleExpressionInner::Option(y)) => match (x, y) {
            (Some(e), Some(f)) => is_same_expression(*e, *f),
            (None, None) => true,
            _ => false,
        },
        (SingleExpressionInner::Call(x), SingleExpressionInner::Call(y)) => is_same_call(x, y),
        (SingleExpressionInner::Match(x), SingleExpressionInner::Match(y)) => is_same_match(x, y),
        _ => false,
    }
}

/// Whether two calls are equal.
pub open spec fn is_same_call(a: Call, b: Call) -> bool
    decreases a,
{
    is_same_call_name(a.name, b.name) && are_same_expressions(*a.args, *b.args)
}

/// Whether two names of called functions are equal.
pub open spec fn is_same_call_name(a: CallName, b: CallName) -> bool {
    match (a, b) {
        (CallName::Jet(x), CallName::Jet(y)) => x@ == y@,
        (CallName::UnwrapLeft(s), CallName::UnwrapLeft(t)) => is_same_aliased(s, t),
        (CallName::UnwrapRight(s), CallName::UnwrapRight(t)) => is_same_aliased(s, t),
        (CallName::IsNone(s), CallName::IsNone(t)) => is_same_aliased(s, t),
        (CallName::TypeCast(s), CallName::TypeCast(t)) => is_same_aliased(s, t),
        (CallName::Unwrap, CallName::Unwrap) => true,
        (CallName::Assert, CallName::Assert) => true,
        (CallName::Panic, CallName::Panic) => true,
        (CallName::Debug, CallName::Debug) => true,
        (CallName::Custom(x), CallName::Custom(y)) => x@ == y@,
        (CallName::ForWhile(x), CallName::ForWhile(y)) => x@ == y@,
        (CallName::ArrayFold(x, n), CallName::ArrayFold(y, m)) => x@ == y@ && n == m,
        (CallName::Fold(x, n), CallName::Fold(y, m)) => x@ == y@ && n == m,
        _ => false,
    }
}

/// Whether two match expressions are equal.
pub open spec fn is_same_match(a: Match, b: Match) -> bool
    decreases a,
{
    &&& is_same_expression(*a.scrutinee, *b.scrutinee)
    &&& is_same_arm(a.left, b.left)
    &&& is_same_arm(a.right, b.right)
}

/// Whether two match arms are equal.
pub open spec fn is_same_arm(a: MatchArm, b: MatchArm) -> bool
    decreases a,
{
    is_same_match_pattern(a.pattern, b.pattern) && is_same_expression(*a.expression, *b.expression)
}

/// Whether two optional types are equal.
pub open spec fn is_same_optional(a: Option<AliasedType>, b: Option<AliasedType>) -> bool {
    match (a, b) {
        (Some(s), Some(t)) => is_same_aliased(s, t),
        (None, None) => true,
        _ => false,
    }
}

/// Whether two functions are equal.
pub open spec fn is_same_function(a: Function, b: Function) -> bool {
    &&& a.file_id == b.file_id
    &&& a.visibility == b.visibility
    &&& a.name@ == b.name@
    &&& are_same_params(*a.params, *b.params)
    &&& is_same_optional(a.ret, b.ret)
    &&& is_same_expression(*a.body, *b.body)
}

/// Whether two type aliases are equal.
pub open spec fn is_same_alias(a: TypeAlias, b: TypeAlias) -> bool {
    &&& a.file_id == b.file_id
    &&& a.visibility == b.visibility
    &&& a.name@ == b.name@
    &&& is_same_aliased(a.ty, b.ty)
}

/// Whether two modules are equal.
pub open spec fn is_same_module(a: Module, b: Module) -> bool
    decreases a,
{
    &&& a.file_id == b.file_id
    &&& a.visibility == b.visibility
    &&& a.name@ == b.name@
    &&& are_same_items(*a.items, *b.items)
}

/// Whether two items are equal.
pub open spec fn is_same_item(a: Item, b: Item) -> bool
    decreases a,
{
    match (a, b) {
        (Item::TypeAlias(x), Item::TypeAlias(y)) => is_same_alias(x, y),
        (Item::Function(x), Item::Function(y)) => is_same_function(x, y),
        (Item::Use(x), Item::Use(y)) => is_same_use(x, y),
        (Item::Module(x), Item::Module(y)) => is_same_module(x, y),
        (Item::Ignored, Item::Ignored) => true,
        _ => false,
    }
}

/// Whether two lists of items are equal.
pub open spec fn are_same_items(a: List<Item>, b: List<Item>) -> bool
    decreases a,
{
    match (a, b) {
        (List::Nil, List::Nil) => true,
        (List::Cons(x, xs), List::Cons(y, ys)) => is_same_item(x, y) && are_same_items(*xs, *ys),
        _ => false,
    }
}

/// Check whether two types are equal.
pub fn same_aliased(a: &AliasedType, b: &AliasedType) -> (result: bool)
    ensures
        result == is_same_aliased(*a, *b),
    decreases a,
{
    match (a, b) {
        (AliasedType::Alias(x), AliasedType::Alias(y)) => x.same(y),
        (AliasedType::Builtin(x, s), AliasedType::Builtin(y, t)) => x.same(y) && s.same(t),
        (AliasedType::Either(s, t), AliasedType::Either(u, v)) => same_aliased(s, u)
            && same_aliased(t, v),
        (AliasedType::Option(s), AliasedType::Option(t)) => same_aliased(s, t),
        (AliasedType::Boolean, AliasedType::Boolean) => true,
        (AliasedType::UInt(s), AliasedType::UInt(t)) => *s == *t,
        (AliasedType::Tuple(s), AliasedType::Tuple(t)) => same_aliased_list(s, t),
        (AliasedType::Array(s, n), AliasedType::Array(t, m)) => *n == *m && same_aliased(s, t),
        (AliasedType::List(s, n), AliasedType::List(t, m)) => *n == *m && same_aliased(s, t),
        _ => false,
    }
}

/// Check whether two lists of types are equal.
pub fn same_aliased_list(a: &List<AliasedType>, b: &List<AliasedType>) -> (result: bool)
    ensures
        result == are_same_aliased(*a, *b),
    decreases a,
{
    match (a, b) {
        (List::Nil, List::Nil) => true,
        (List::Cons(x, xs), List::Cons(y, ys)) => same_aliased(x, y) && same_aliased_list(xs, ys),
        _ => false,
    }
}

/// Check whether two patterns are equal.
pub fn same_pattern(a: &Pattern, b: &Pattern) -> (result: bool)
    ensures
        result == is_same_pattern(*a, *b),
    decreases a,
{
    match (a, b) {
        (Pattern::Identifier(x), Pattern::Identifier(y)) => x.same(y),
        (Pattern::Ignore, Pattern::Ignore) => true,
        (Pattern::Tuple(xs), Pattern::Tuple(ys)) => same_patterns(xs, ys),
        (Pattern::Array(xs), Pattern::Array(ys)) => same_patterns(xs, ys),
        _ => false,
    }
}

/// Check whether two lists of patterns are equal.
pub fn same_patterns(a: &List<Pattern>, b: &List<Pattern>) -> (result: bool)
    ensures
        result == are_same_patterns(*a, *b),
    decreases a,
{
    match (a, b) {
        (List::Nil, List::Nil) => true,
        (List::Cons(x, xs), List::Cons(y, ys)) => same_pattern(x, y) && same_patterns(xs, ys),
        _ => false,
    }
}

/// Check whether two patterns of match arms are equal.
pub fn same_match_pattern(a: &MatchPattern, b: &MatchPattern) -> (result: bool)
    ensures
        result == is_same_match_pattern(*a, *b),
{
    match (a, b) {
        (MatchPattern::Left(p, s), MatchPattern::Left(q, t)) => same_pattern(p, q) && same_aliased(
            s,
            t,
        ),
        (MatchPattern::Right(p, s), MatchPattern::Right(q, t)) => same_pattern(p, q)
            && same_aliased(s, t),
        (MatchPattern::Nothing, MatchPattern::Nothing) => true,
        (MatchPattern::Something(p, s), MatchPattern::Something(q, t)) => same_pattern(p, q)
            && same_aliased(s, t),
        (MatchPattern::False, MatchPattern::False) => true,
        (MatchPattern::True, MatchPattern::True) => true,
        _ => false,
    }
}

/// Check whether two parameters are equal.
fn same_param(a: &FunctionParam, b: &FunctionParam) -> (result: bool)
    ensures
        result == is_same_param(*a, *b),
{
    a.identifier.same(&b.identifier) && same_aliased(&a.ty, &b.ty)
}

/// Check whether two lists of parameters are equal.
pub fn same_params(a: &List<FunctionParam>, b: &List<FunctionParam>) -> (result: bool)
    ensures
        result == are_same_params(*a, *b),
    decreases a,
{
    match (a, b) {
        (List::Nil, List::Nil) => true,
        (List::Cons(x, xs), List::Cons(y, ys)) => same_param(x, y) && same_params(xs, ys),
        _ => false,
    }
}

/// Check whether two expressions are equal.
pub fn same_expression(a: &Expression, b: &Expression) -> (result: bool)
    ensures
        result == is_same_expression(*a, *b),
    decreases a,
{
    same_inner(&a.inner, &b.inner)
}

/// Check whether two variants of expressions are equal.
fn same_inner(a: &ExpressionInner, b: &ExpressionInner) -> (result: bool)
    ensures
        result == is_same_inner(*a, *b),
    decreases a,
{
    match (a, b) {
        (ExpressionInner::Single(x), ExpressionInner::Single(y)) => same_single(x, y),
        (ExpressionInner::Block(s, x), ExpressionInner::Block(t, y)) => same_statements(s, t)
            && match (x, y) {
            (Some(e), Some(f)) => same_expression(e, f),
            (None, None) => true,
            _ => false,
        },
        _ => false,
    }
}

/// Check whether two lists of statements are equal.
fn same_statements(a: &List<Statement>, b: &List<Statement>) -> (result: bool)
    ensures
        result == are_same_statements(*a, *b),
    decreases a,
{
    match (a, b) {
        (List::Nil, List::Nil) => true,
        (List::Cons(x, xs), List::Cons(y, ys)) => same_statement(x, y) && same_statements(xs, ys),
        _ => false,
    }
}

/// Check whether two statements are equal.
fn same_statement(a: &Statement, b: &Statement) -> (result: bool)
    ensures
        result == is_same_statement(*a, *b),
    decreases a,
{
    match (a, b) {
        (Statement::Assignment(x), Statement::Assignment(y)) => same_assignment(x, y),
        (Statement::Expression(x), Statement::Expression(y)) => same_expression(x, y),
        _ => false,
    }
}

/// Check whether two assignments are equal.
fn same_assignment(a: &Assignment, b: &Assignment) -> (result: bool)
    ensures
        result == is_same_assignment(*a, *b),
    decreases a,
{
    same_pattern(&a.pattern, &b.pattern) && same_aliased(&a.ty, &b.ty) && same_expression(
        &a.expression,
        &b.expression,
    )
}

/// Check whether two lists of expressions are equal.
fn same_expressions(a: &List<Expression>, b: &List<Expression>) -> (result: bool)
    ensures
        result == are_same_expressions(*a, *b),
    decreases a,
{
    match (a, b) {
        (List::Nil, List::Nil) => true,
        (List::Cons(x, xs), List::Cons(y, ys)) => same_expression(x, y) && same_expressions(xs, ys),
        _ => false,
    }
}

/// Check whether two single expressions are equal.
fn same_single(a: &SingleExpression, b: &SingleExpression) -> (result: bool)
    ensures
        result == is_same_single(*a, *b),
    decreases a,
{
    same_single_inner(&a.inner, &b.inner)
}

/// Check whether two variants of single expressions are equal.
fn same_single_inner(a: &SingleExpressionInner, b: &SingleExpressionInner) -> (result: bool)
    ensures
        result == is_same_single_inner(*a, *b),
    decreases a,
{
    match (a, b) {
        (SingleExpressionInner::Decimal(x), SingleExpressionInner::Decimal(y)) => *x == *y,
        (SingleExpressionInner::Binary(x), SingleExpressionInner::Binary(y)) => *x == *y,
        (SingleExpressionInner::Hexadecimal(x), SingleExpressionInner::Hexadecimal(y)) => *x == *y,
        (SingleExpressionInner::Boolean(x), SingleExpressionInner::Boolean(y)) => *x == *y,
        (SingleExpressionInner::Witness(x), SingleExpressionInner::Witness(y)) => x.same(y),
        (SingleExpressionInner::Parameter(x), SingleExpressionInner::Parameter(y)) => x.same(y),
        (SingleExpressionInner::Variable(x), SingleExpressionInner::Variable(y)) => x.same(y),
        (
            SingleExpressionInner::Expression(x),
            SingleExpressionInner::Expression(y),
        ) => same_expression(x, y),
        (SingleExpressionInner::Tuple(x), SingleExpressionInner::Tuple(y)) => same_expressions(x, y),
        (SingleExpressionInner::Array(x), SingleExpressionInner::Array(y)) => same_expressions(x, y),
        (SingleExpressionInner::List(x), SingleExpressionInner::List(y)) => same_expressions(x, y),
        (SingleExpressionInner::Either(x), SingleExpressionInner::Either(y)) => match (x, y) {
            (Either::Left(e), Either::Left(f)) => same_expression(e, f),
            (Either::Right(e), Either::Right(f)) => same_expression(e, f),
            _ => false,
        },
        (SingleExpressionInner::Option(x), SingleExpressionInner::Option(y)) => match (x, y) {
            (Some(e), Some(f)) => same_expression(e, f),
            (None, None) => true,
            _ => false,
        },
        (SingleExpressionInner::Call(x), SingleExpressionInner::Call(y)) => same_call(x, y),
        (SingleExpressionInner::Match(x), SingleExpressionInner::Match(y)) => same_match(x, y),
        _ => false,
    }
}

/// Check whether two calls are equal.
fn same_call(a: &Call, b: &Call) -> (result: bool)
    ensures
        result == is_same_call(*a, *b),
    decreases a,
{
    same_call_name(&a.name, &b.name) && same_expressions(&a.args, &b.args)
}

/// Check whether two names of called functions are equal.
fn same_call_name(a: &CallName, b: &CallName) -> (result: bool)
    ensures
        result == is_same_call_name(*a, *b),
{
    match (a, b) {
        (CallName::Jet(x), CallName::Jet(y)) => x.same(y),
        (CallName::UnwrapLeft(s), CallName::UnwrapLeft(t)) => same_aliased(s, t),
        (CallName::UnwrapRight(s), CallName::UnwrapRight(t)) => same_aliased(s, t),
        (CallName::IsNone(s), CallName::IsNone(t)) => same_aliased(s, t),
        (CallName::TypeCast(s), CallName::TypeCast(t)) => same_aliased(s, t),
        (CallName::Unwrap, CallName::Unwrap) => true,
        (CallName::Assert, CallName::Assert) => true,
        (CallName::Panic, CallName::Panic) => true,
        (CallName::Debug, CallName::Debug) => true,
        (CallName::Custom(x), CallName::Custom(y)) => x.same(y),
        (CallName::ForWhile(x), CallName::ForWhile(y)) => x.same(y),
        (CallName::ArrayFold(x, n), CallName::ArrayFold(y, m)) => x.same(y) && *n == *m,
        (CallName::Fold(x, n), CallName::Fold(y, m)) => x.same(y) && *n == *m,
        _ => false,
    }
}

/// Check whether two match expressions are equal.
fn same_match(a: &Match, b: &Match) -> (result: bool)
    ensures
        result == is_same_match(*a, *b),
    decreases a,
{
    same_expression(&a.scrutinee, &b.scrutinee) && same_arm(&a.left, &b.left) && same_arm(
        &a.right,
        &b.right,
    )
}

/// Check whether two match arms are equal.
fn same_arm(a: &MatchArm, b: &MatchArm) -> (result: bool)
    ensures
        result == is_same_arm(*a, *b),
    decreases a,
{
    same_match_pattern(&a.pattern, &b.pattern) && same_expression(&a.expression, &b.expression)
}

/// Check whether two optional types are equal.
pub fn same_optional(a: &Option<AliasedType>, b: &Option<AliasedType>) -> (result: bool)
    ensures
        result == is_same_optional(*a, *b),
{
    match (a, b) {
        (Some(s), Some(t)) => same_aliased(s, t),
        (None, None) => true,
        _ => false,
    }
}

/// Check whether two functions are equal.
fn same_function(a: &Function, b: &Function) -> (result: bool)
    ensures
        result == is_same_function(*a, *b),
{
    a.file_id == b.file_id && a.visibility == b.visibility && a.name.same(&b.name) && same_params(
        &a.params,
        &b.params,
    ) && same_optional(&a.ret, &b.ret) && same_expression(&a.body, &b.body)
}

/// Check whether two type aliases are equal.
fn same_alias(a: &TypeAlias, b: &TypeAlias) -> (result: bool)
    ensures
        result == is_same_alias(*a, *b),
{
    a.file_id == b.file_id && a.visibility == b.visibility && a.name.same(&b.name) && same_aliased(
        &a.ty,
        &b.ty,
    )
}

/// Check whether two modules are equal.
fn same_module(a: &Module, b: &Module) -> (result: bool)
    ensures
        result == is_same_module(*a, *b),
    decreases a,
{
    a.file_id == b.file_id && a.visibility == b.visibility && a.name.same(&b.name) && same_items(
        &a.items,
        &b.items,
    )
}

/// Check whether two items are equal.
fn same_item(a: &Item, b: &Item) -> (result: bool)
    ensures
        result == is_same_item(*a, *b),
    decreases a,
{
    match (a, b) {
        (Item::TypeAlias(x), Item::TypeAlias(y)) => same_alias(x, y),
        (Item::Function(x), Item::Function(y)) => same_function(x, y),
        (Item::Use(x), Item::Use(y)) => x.same(y),
        (Item::Module(x), Item::Module(y)) => same_module(x, y),
        (Item::Ignored, Item::Ignored) => true,
        _ => false,
    }
}

/// Check whether two lists of items are equal.
fn same_items(a: &List<Item>, b: &List<Item>) -> (result: bool)
    ensures
        result == are_same_items(*a, *b),
    decreases a,
{
    match (a, b) {
        (List::Nil, List::Nil) => true,
        (List::Cons(x, xs), List::Cons(y, ys)) => same_item(x, y) && same_items(xs, ys),
        _ => false,
    }
}

impl PartialEq for FunctionParam {
    fn eq(&self, other: &Self) -> (result: bool) {
        same_param(self, other)
    }
}

impl PartialEqSpecImpl for FunctionParam {
    open spec fn obeys_eq_spec() -> bool {
        true
    }

    open spec fn eq_spec(&self, other: &Self) -> bool {
        is_same_param(*self, *other)
    }
}

impl Eq for FunctionParam {

}

impl PartialEq for Expression {
    fn eq(&self, other: &Self) -> (result: bool) {
        same_expression(self, other)
    }
}

impl PartialEqSpecImpl for Expression {
    open spec fn obeys_eq_spec() -> bool {
        true
    }

    open spec fn eq_spec(&self, other: &Self) -> bool {
        is_same_expression(*self, *other)
    }
}

impl Eq for Expression {

}

impl PartialEq for ExpressionInner {
    fn eq(&self, other: &Self) -> (result: bool) {
        same_inner(self, other)
    }
}

impl PartialEqSpecImpl for ExpressionInner {
    open spec fn obeys_eq_spec() -> bool {
        true
    }

    open spec fn eq_spec(&self, other: &Self) -> bool {
        is_same_inner(*self, *other)
    }
}

impl Eq for ExpressionInner {

}

impl PartialEq for Statement {
    fn eq(&self, other: &Self) -> (result: bool) {
        same_statement(self, other)
    }
}

impl PartialEqSpecImpl for Statement {
    open spec fn obeys_eq_spec() -> bool {
        true
    }

    open spec fn eq_spec(&self, other: &Self) -> bool {
        is_same_statement(*self, *other)
    }
}

impl Eq for Statement {

}

impl PartialEq for Assignment {
    fn eq(&self, other: &Self) -> (result: bool) {
        same_assignment(self, other)
    }
}

impl PartialEqSpecImpl for Assignment {
    open spec fn obeys_eq_spec() -> bool {
        true
    }

    open spec fn eq_spec(&self, other: &Self) -> bool {
        is_same_assignment(*self, *other)
    }
}

impl Eq for Assignment {

}

impl PartialEq for SingleExpression {
    fn eq(&self, other: &Self) -> (result: bool) {
        same_single(self, other)
    }
}

impl PartialEqSpecImpl for SingleExpression {
    open spec fn obeys_eq_spec() -> bool {
        true
    }

    open spec fn eq_spec(&self, other: &Self) -> bool {
        is_same_single(*self, *other)
    }
}

impl Eq for SingleExpression {

}

impl PartialEq for SingleExpressionInner {
    fn eq(&self, other: &Self) -> (result: bool) {
        same_single_inner(self, other)
    }
}

impl PartialEqSpecImpl for SingleExpressionInner {
    open spec fn obeys_eq_spec() -> bool {
        true
    }

    open spec fn eq_spec(&self, other: &Self) -> bool {
        is_same_single_inner(*self, *other)
    }
}

impl Eq for SingleExpressionInner {

}

impl PartialEq for Call {
    fn eq(&self, other: &Self) -> (result: bool) {
        same_call(self, other)
    }
}

impl PartialEqSpecImpl for Call {
    open spec fn obeys_eq_spec() -> bool {
        true
    }

    open spec fn eq_spec(&self, other: &Self) -> bool {
        is_same_call(*self, *other)
    }
}

impl Eq for Call {

}

impl PartialEq for CallName {
    fn eq(&self, other: &Self) -> (result: bool) {
        same_call_name(self, other)
    }
}

impl PartialEqSpecImpl for CallName {
    open spec fn obeys_eq_spec() -> bool {
        true
    }

    open spec fn eq_spec(&self, other: &Self) -> bool {
        is_same_call_name(*self, *other)
    }
}

impl Eq for CallName {

}

impl PartialEq for Match {
    fn eq(&self, other: &Self) -> (result: bool) {
        same_match(self, other)
    }
}

impl PartialEqSpecImpl for Match {
    open spec fn obeys_eq_spec() -> bool {
        true
    }

    open spec fn eq_spec(&self, other: &Self) -> bool {
        is_same_match(*self, *other)
    }
}

impl Eq for Match {

}

impl PartialEq for MatchArm {
    fn eq(&self, other: &Self) -> (result: bool) {
        same_arm(self, other)
    }
}

impl PartialEqSpecImpl for MatchArm {
    open spec fn obeys_eq_spec() -> bool {
        true
    }

    open spec fn eq_spec(&self, other: &Self) -> bool {
        is_same_arm(*self, *other)
    }
}

impl Eq for MatchArm {

}

impl PartialEq for Function {
    fn eq(&self, other: &Self) -> (result: bool) {
        same_function(self, other)
    }
}

impl PartialEqSpecImpl for Function {
    open spec fn obeys_eq_spec() -> bool {
        true
    }

    open spec fn eq_spec(&self, other: &Self) -> bool {
        is_same_function(*self, *other)
    }
}

impl Eq for Function {

}

impl PartialEq for TypeAlias {
    fn eq(&self, other: &Self) -> (result: bool) {
        same_alias(self, other)
    }
}

impl PartialEqSpecImpl for TypeAlias {
    open spec fn obeys_eq_spec() -> bool {
        true
    }

    open spec fn eq_spec(&self, other: &Self) -> bool {
        is_same_alias(*self, *other)
    }
}

impl Eq for TypeAlias {

}

impl PartialEq for Module {
    fn eq(&self, other: &Self) -> (result: bool) {
        same_module(self, other)
    }
}

impl PartialEqSpecImpl for Module {
    open spec fn obeys_eq_spec() -> bool {
        true
    }

    open spec fn eq_spec(&self, other: &Self) -> bool {
        is_same_module(*self, *other)
    }
}

impl Eq for Module {

}

impl PartialEq for Item {
    fn eq(&self, other: &Self) -> (result: bool) {
        same_item(self, other)
    }
}

impl PartialEqSpecImpl for Item {
    open spec fn obeys_eq_spec() -> bool {
        true
    }

    open spec fn eq_spec(&self, other: &Self) -> bool {
        is_same_item(*self, *other)
    }
}

impl Eq for Item {

}

impl PartialEq for UseItem {
    fn eq(&self, other: &Self) -> (result: bool) {
        self.same(other)
    }
}

impl PartialEqSpecImpl for UseItem {
    open spec fn obeys_eq_spec() -> bool {
        true
    }

    open spec fn eq_spec(&self, other: &Self) -> bool {
        self@ == other@
    }
}

impl Eq for UseItem {

}

impl PartialEq for UseDecl {
    fn eq(&self, other: &Self) -> (result: bool) {
        self.same(other)
    }
}

impl PartialEqSpecImpl for UseDecl {
    open spec fn obeys_eq_spec() -> bool {
        true
    }

    open spec fn eq_spec(&self, other: &Self) -> bool {
        is_same_use(*self, *other)
    }
}

impl Eq for UseDecl {

}

impl PartialEq for Program {
    fn eq(&self, other: &Self) -> (result: bool) {
        same_items(&self.items, &other.items)
    }
}

impl PartialEqSpecImpl for Program {
    open spec fn obeys_eq_spec() -> bool {
        true
    }

    open spec fn eq_spec(&self, other: &Self) -> bool {
        are_same_items(*self.items, *other.items)
    }
}

impl Eq for Program {

}

} // verus!
