//! When parts of a syntax tree are equal.
//!
//! Names are equal if they have the same characters, and the places of expressions in a file do not
//! matter.
use crate::ast::{
    Assignment, Call, CallName, CustomFunction, Expression, ExpressionInner, Function,
    FunctionParam, Item, Match, MatchArm, Program, SingleExpression, SingleExpressionInner,
    Statement,
};
use crate::debug::{CallTracker, TrackedCallName};
use crate::jet::Jet;
use crate::list::List;
use crate::parse::equality::{
    are_same_aliased, is_same_aliased, is_same_match_pattern, is_same_pattern, same_aliased,
    same_aliased_list, same_match_pattern, same_pattern,
};
use crate::parse::Either;
use crate::value::Value;
use crate::witness::same_types;
use vstd::prelude::*;
use vstd::std_specs::cmp::PartialEqSpecImpl;

verus! {

/// Whether two jets are equal.
pub open spec fn is_same_jet(a: Jet, b: Jet) -> bool {
    &&& a.name@ == b.name@
    &&& are_same_aliased(*a.source_type, *b.source_type)
    &&& is_same_aliased(*a.target_type, *b.target_type)
    &&& a.disabled == b.disabled
}

/// Whether two lists of parameters are equal.
pub open spec fn are_same_params(a: List<FunctionParam>, b: List<FunctionParam>) -> bool
    decreases a,
{
    match (a, b) {
        (List::Nil, List::Nil) => true,
        (List::Cons(x, xs), List::Cons(y, ys)) => is_same_param(x, y) && are_same_params(*xs, *ys),
        _ => false,
    }
}

/// Whether two parameters are equal.
pub open spec fn is_same_param(a: FunctionParam, b: FunctionParam) -> bool {
    a.identifier@ == b.identifier@ && a.ty == b.ty
}

/// Whether two expressions are equal.
pub open spec fn is_same_expression(a: Expression, b: Expression) -> bool
    decreases a,
{
    is_same_inner(a.inner, b.inner) && a.ty == b.ty
}

/// Whether two variants of expressions are equal.
pub open spec fn is_same_inner(a: ExpressionInner, b: ExpressionInner) -> bool
    decreases a,
{
    match (a, b) {
        (ExpressionInner::Single(x), ExpressionInner::Single(y)) => is_same_single(x, y),
        (ExpressionInner::Block(s, x), ExpressionInner::Block(t, y)) => are_same_statements(*s, *t)
            && match (x, y) {
            (Some(e), Some(f)) => is_same_expression(*e, *f),
            (None, None) => true,
            _ => false,
        },
        _ => false,
    }
}

/// Whether two lists of statements are equal.
pub open spec fn are_same_statements(a: List<Statement>, b: List<Statement>) -> bool
    decreases a,
{
    match (a, b) {
        (List::Nil, List::Nil) => true,
        (List::Cons(x, xs), List::Cons(y, ys)) => is_same_statement(x, y) && are_same_statements(
            *xs,
            *ys,
        ),
        _ => false,
    }
}

/// Whether two statements are equal.
pub open spec fn is_same_statement(a: Statement, b: Statement) -> bool
    decreases a,
{
    match (a, b) {
        (Statement::Assignment(x), Statement::Assignment(y)) => is_same_assignment(x, y),
        (Statement::Expression(x), Statement::Expression(y)) => is_same_expression(x, y),
        _ => false,
    }
}

/// Whether two assignments are equal.
pub open spec fn is_same_assignment(a: Assignment, b: Assignment) -> bool
    decreases a,
{
    is_same_pattern(a.pattern, b.pattern) && is_same_expression(a.expression, b.expression)
}

/// Whether two lists of expressions are equal.
pub open spec fn are_same_expressions(a: List<Expression>, b: List<Expression>) -> bool
    decreases a,
{
    match (a, b) {
        (List::Nil, List::Nil) => true,
        (List::Cons(x, xs), List::Cons(y, ys)) => is_same_expression(x, y) && are_same_expressions(
            *xs,
            *ys,
        ),
        _ => false,
    }
}

/// Whether two single expressions are equal.
pub open spec fn is_same_single(a: SingleExpression, b: SingleExpression) -> bool
    decreases a,
{
    is_same_single_inner(a.inner, b.inner) && a.ty == b.ty
}

/// Whether two variants of single expressions are equal.
pub open spec fn is_same_single_inner(a: SingleExpressionInner, b: SingleExpressionInner) -> bool
    decreases a,
{
    match (a, b) {
        (SingleExpressionInner::Constant(x), SingleExpressionInner::Constant(y)) => x == y,
        (SingleExpressionInner::Witness(x), SingleExpressionInner::Witness(y)) => x@ == y@,
        (SingleExpressionInner::Parameter(x), SingleExpressionInner::Parameter(y)) => x@ == y@,
        (SingleExpressionInner::Variable(x), SingleExpressionInner::Variable(y)) => x@ == y@,
        (
            SingleExpressionInner::Expression(x),
            SingleExpressionInner::Expression(y),
        ) => is_same_expression(*x, *y),
        (SingleExpressionInner::Tuple(x), SingleExpressionInner::Tuple(y)) => are_same_expressions(
            *x,
            *y,
        ),
        (SingleExpressionInner::Array(x), SingleExpressionInner::Array(y)) => are_same_expressions(
            *x,
            *y,
        ),
        (SingleExpressionInner::List(x), SingleExpressionInner::List(y)) => are_same_expressions(
            *x,
            *y,
        ),
        (SingleExpressionInner::Either(x), SingleExpressionInner::Either(y)) => match (x, y) {
            (Either::Left(e), Either::Left(f)) => is_same_expression(*e, *f),
            (Either::Right(e), Either::Right(f)) => is_same_expression(*e, *f),
            _ => false,
        },
        (SingleExpressionInner::Option(x), SingleExpressionInner::Option(y)) => match (x, y) {
            (Some(e), Some(f)) => is_same_expression(*e, *f),
            (None, None) => true,
            _ => false,
        },
        (SingleExpressionInner::Call(x), SingleExpressionInner::Call(y)) => is_same_call(x, y),
        (SingleExpressionInner::Match(x), SingleExpressionInner::Match(y)) => is_same_match(x, y),
        _ => false,
    }
}

/// Whether two calls are equal.
pub open spec fn is_same_call(a: Call, b: Call) -> bool
    decreases a,
{
    is_same_call_name(a.name, b.name) && are_same_expressions(*a.args, *b.args)
}

/// Whether two names of called functions are equal.
pub open spec fn is_same_call_name(a: CallName, b: CallName) -> bool
    decreases a,
{
    match (a, b) {
        (CallName::Jet(x), CallName::Jet(y)) => is_same_jet(x, y),
        (CallName::UnwrapLeft(s), CallName::UnwrapLeft(t)) => s == t,
        (CallName::UnwrapRight(s), CallName::UnwrapRight(t)) => s == t,
        (CallName::IsNone(s), CallName::IsNone(t)) => s == t,
        (CallName::Unwrap, CallName::Unwrap) => true,
        (CallName::Assert, CallName::Assert) => true,
        (CallName::Panic, CallName::Panic) => true,
        (CallName::Debug, CallName::Debug) => true,
        (CallName::TypeCast(s), CallName::TypeCast(t)) => s == t,
        (CallName::Custom(f), CallName::Custom(g)) => is_same_function(f, g),
        (CallName::Fold(f, n), CallName::Fold(g, m)) => is_same_function(f, g) && n == m,
        (CallName::ArrayFold(f, n), CallName::ArrayFold(g, m)) => is_same_function(f, g) && n == m,
        (CallName::ForWhile(f, n), CallName::ForWhile(g, m)) => is_same_function(f, g) && n == m,
        _ => false,
    }
}

/// Whether two custom functions are equal.
pub open spec fn is_same_function(a: CustomFunction, b: CustomFunction) -> bool
    decreases a,
{
    are_same_params(*a.params, *b.params) && is_same_expression(*a.body, *b.body)
}

/// Whether two match expressions are equal.
pub open spec fn is_same_match(a: Match, b: Match) -> bool
    decreases a,
{
    &&& is_same_expression(*a.scrutinee, *b.scrutinee)
    &&& is_same_arm(a.left, b.left)
    &&& is_same_arm(a.right, b.right)
}

/// Whether two match arms are equal.
pub open spec fn is_same_arm(a: MatchArm, b: MatchArm) -> bool
    decreases a,
{
    is_same_match_pattern(a.pattern, b.pattern) && is_same_expression(*a.expression, *b.expression)
}

/// Whether two definitions of functions are equal.
pub open spec fn is_same_definition(a: Function, b: Function) -> bool {
    match (a, b) {
        (Function::Custom, Function::Custom) => true,
        (Function::Main(x), Function::Main(y)) => is_same_expression(x, y),
        _ => false,
    }
}

/// Whether two items are equal.
pub open spec fn is_same_item(a: Item, b: Item) -> bool
    decreases a,
{
    match (a, b) {
        (Item::TypeAlias, Item::TypeAlias) => true,
        (Item::Function(x), Item::Function(y)) => is_same_definition(x, y),
        (Item::Use, Item::Use) => true,
        (Item::Module(x), Item::Module(y)) => are_same_items(*x, *y),
        (Item::Ignored, Item::Ignored) => true,
        _ => false,
    }
}

/// Whether two lists of items are equal.
pub open spec fn are_same_items(a: List<Item>, b: List<Item>) -> bool
    decreases a,
{
    match (a, b) {
        (List::Nil, List::Nil) => true,
        (List::Cons(x, xs), List::Cons(y, ys)) => is_same_item(x, y) && are_same_items(*xs, *ys),
        _ => false,
    }
}

/// Check whether two jets are equal.
fn same_jet(a: &Jet, b: &Jet) -> (result: bool)
    ensures
        result == is_same_jet(*a, *b),
{
    a.name.same(&b.name) && same_aliased_list(&a.source_type, &b.source_type) && same_aliased(
        &a.target_type,
        &b.target_type,
    ) && a.disabled == b.disabled
}

/// Check whether two lists of bytes are equal.
fn same_bytes(a: &List<u8>, b: &List<u8>) -> (result: bool)
    ensures
        result == (*a == *b),
    decreases a,
{
    match (a, b) {
        (List::Nil, List::Nil) => true,
        (List::Cons(x, xs), List::Cons(y, ys)) => *x == *y && same_bytes(xs, ys),
        _ => false,
    }
}

/// Check whether two values are equal.
fn same_value(a: &Value, b: &Value) -> (result: bool)
    ensures
        result == (*a == *b),
{
    match (a, b) {
        (Value::Boolean(x), Value::Boolean(y)) => *x == *y,
        (Value::UInt(x), Value::UInt(y)) => x.ty == y.ty && x.number == y.number,
        (Value::Bytes(x), Value::Bytes(y)) => same_bytes(x, y),
        _ => false,
    }
}

/// Check whether two lists of parameters are equal.
fn same_params(a: &List<FunctionParam>, b: &List<FunctionParam>) -> (result: bool)
    ensures
        result == are_same_params(*a, *b),
    decreases a,
{
    match (a, b) {
        (List::Nil, List::Nil) => true,
        (List::Cons(x, xs), List::Cons(y, ys)) => same_param(x, y) && same_params(xs, ys),
        _ => false,
    }
}

/// Check whether two parameters are equal.
fn same_param(a: &FunctionParam, b: &FunctionParam) -> (result: bool)
    ensures
        result == is_same_param(*a, *b),
{
    a.identifier.same(&b.identifier) && a.ty.same(&b.ty)
}

/// Check whether two expressions are equal.
fn same_expression(a: &Expression, b: &Expression) -> (result: bool)
    ensures
        result == is_same_expression(*a, *b),
    decreases a,
{
    same_inner(&a.inner, &b.inner) && a.ty.same(&b.ty)
}

/// Check whether two variants of expressions are equal.
fn same_inner(a: &ExpressionInner, b: &ExpressionInner) -> (result: bool)
    ensures
        result == is_same_inner(*a, *b),
    decreases a,
{
    match (a, b) {
        (ExpressionInner::Single(x), ExpressionInner::Single(y)) => same_single(x, y),
        (ExpressionInner::Block(s, x), ExpressionInner::Block(t, y)) => same_statements(s, t)
            && match (x, y) {
            (Some(e), Some(f)) => same_expression(e, f),
            (None, None) => true,
            _ => false,
        },
        _ => false,
    }
}

/// Check whether two lists of statements are equal.
fn same_statements(a: &List<Statement>, b: &List<Statement>) -> (result: bool)
    ensures
        result == are_same_statements(*a, *b),
    decreases a,
{
    match (a, b) {
        (List::Nil, List::Nil) => true,
        (List::Cons(x, xs), List::Cons(y, ys)) => same_statement(x, y) && same_statements(xs, ys),
        _ => false,
    }
}

/// Check whether two statements are equal.
fn same_statement(a: &Statement, b: &Statement) -> (result: bool)
    ensures
        result == is_same_statement(*a, *b),
    decreases a,
{
    match (a, b) {
        (Statement::Assignment(x), Statement::Assignment(y)) => same_assignment(x, y),
        (Statement::Expression(x), Statement::Expression(y)) => same_expression(x, y),
        _ => false,
    }
}

/// Check whether two assignments are equal.
fn same_assignment(a: &Assignment, b: &Assignment) -> (result: bool)
    ensures
        result == is_same_assignment(*a, *b),
    decreases a,
{
    same_pattern(&a.pattern, &b.pattern) && same_expression(&a.expression, &b.expression)
}

/// Check whether two lists of expressions are equal.
fn same_expressions(a: &List<Expression>, b: &List<Expression>) -> (result: bool)
    ensures
        result == are_same_expressions(*a, *b),
    decreases a,
{
    match (a, b) {
        (List::Nil, List::Nil) => true,
        (List::Cons(x, xs), List::Cons(y, ys)) => same_expression(x, y) && same_expressions(xs, ys),
        _ => false,
    }
}

/// Check whether two single expressions are equal.
fn same_single(a: &SingleExpression, b: &SingleExpression) -> (result: bool)
    ensures
        result == is_same_single(*a, *b),
    decreases a,
{
    same_single_inner(&a.inner, &b.inner) && a.ty.same(&b.ty)
}

/// Check whether two variants of single expressions are equal.
fn same_single_inner(a: &SingleExpressionInner, b: &SingleExpressionInner) -> (result: bool)
    ensures
        result == is_same_single_inner(*a, *b),
    decreases a,
{
    match (a, b) {
        (SingleExpressionInner::Constant(x), SingleExpressionInner::Constant(y)) => same_value(x, y),
        (SingleExpressionInner::Witness(x), SingleExpressionInner::Witness(y)) => x.same(y),
        (SingleExpressionInner::Parameter(x), SingleExpressionInner::Parameter(y)) => x.same(y),
        (SingleExpressionInner::Variable(x), SingleExpressionInner::Variable(y)) => x.same(y),
        (
            SingleExpressionInner::Expression(x),
            SingleExpressionInner::Expression(y),
        ) => same_expression(x, y),
        (SingleExpressionInner::Tuple(x), SingleExpressionInner::Tuple(y)) => same_expressions(x, y),
        (SingleExpressionInner::Array(x), SingleExpressionInner::Array(y)) => same_expressions(x, y),
        (SingleExpressionInner::List(x), SingleExpressionInner::List(y)) => same_expressions(x, y),
        (SingleExpressionInner::Either(x), SingleExpressionInner::Either(y)) => match (x, y) {
            (Either::Left(e), Either::Left(f)) => same_expression(e, f),
            (Either::Right(e), Either::Right(f)) => same_expression(e, f),
            _ => false,
        },
        (SingleExpressionInner::Option(x), SingleExpressionInner::Option(y)) => match (x, y) {
            (Some(e), Some(f)) => same_expression(e, f),
            (None, None) => true,
            _ => false,
        },
        (SingleExpressionInner::Call(x), SingleExpressionInner::Call(y)) => same_call(x, y),
        (SingleExpressionInner::Match(x), SingleExpressionInner::Match(y)) => same_match(x, y),
        _ => false,
    }
}

/// Check whether two calls are equal.
fn same_call(a: &Call, b: &Call) -> (result: bool)
    ensures
        result == is_same_call(*a, *b),
    decreases a,
{
    same_call_name(&a.name, &b.name) && same_expressions(&a.args, &b.args)
}

/// Check whether two names of called functions are equal.
fn same_call_name(a: &CallName, b: &CallName) -> (result: bool)
    ensures
        result == is_same_call_name(*a, *b),
    decreases a,
{
    match (a, b) {
        (CallName::Jet(x), CallName::Jet(y)) => same_jet(x, y),
        (CallName::UnwrapLeft(s), CallName::UnwrapLeft(t)) => s.same(t),
        (CallName::UnwrapRight(s), CallName::UnwrapRight(t)) => s.same(t),
        (CallName::IsNone(s), CallName::IsNone(t)) => s.same(t),
        (CallName::Unwrap, CallName::Unwrap) => true,
        (CallName::Assert, CallName::Assert) => true,
        (CallName::Panic, CallName::Panic) => true,
        (CallName::Debug, CallName::Debug) => true,
        (CallName::TypeCast(s), CallName::TypeCast(t)) => s.same(t),
        (CallName::Custom(f), CallName::Custom(g)) => same_function(f, g),
        (CallName::Fold(f, n), CallName::Fold(g, m)) => same_function(f, g) && *n == *m,
        (CallName::ArrayFold(f, n), CallName::ArrayFold(g, m)) => same_function(f, g) && *n == *m,
        (CallName::ForWhile(f, n), CallName::ForWhile(g, m)) => same_function(f, g) && *n == *m,
        _ => false,
    }
}

/// Check whether two custom functions are equal.
fn same_function(a: &CustomFunction, b: &CustomFunction) -> (result: bool)
    ensures
        result == is_same_function(*a, *b),
    decreases a,
{
    same_params(&a.params, &b.params) && same_expression(&a.body, &b.body)
}

/// Check whether two match expressions are equal.
fn same_match(a: &Match, b: &Match) -> (result: bool)
    ensures
        result == is_same_match(*a, *b),
    decreases a,
{
    same_expression(&a.scrutinee, &b.scrutinee) && same_arm(&a.left, &b.left) && same_arm(
        &a.right,
        &b.right,
    )
}

/// Check whether two match arms are equal.
fn same_arm(a: &MatchArm, b: &MatchArm) -> (result: bool)
    ensures
        result == is_same_arm(*a, *b),
    decreases a,
{
    same_match_pattern(&a.pattern, &b.pattern) && same_expression(&a.expression, &b.expression)
}

/// Check whether two definitions of functions are equal.
fn same_definition(a: &Function, b: &Function) -> (result: bool)
    ensures
        result == is_same_definition(*a, *b),
{
    match (a, b) {
        (Function::Custom, Function::Custom) => true,
        (Function::Main(x), Function::Main(y)) => same_expression(x, y),
        _ => false,
    }
}

/// Check whether two items are equal.
fn same_item(a: &Item, b: &Item) -> (result: bool)
    ensures
        result == is_same_item(*a, *b),
    decreases a,
{
    match (a, b) {
        (Item::TypeAlias, Item::TypeAlias) => true,
        (Item::Function(x), Item::Function(y)) => same_definition(x, y),
        (Item::Use, Item::Use) => true,
        (Item::Module(x), Item::Module(y)) => same_items(x, y),
        (Item::Ignored, Item::Ignored) => true,
        _ => false,
    }
}

/// Check whether two lists of items are equal.
fn same_items(a: &List<Item>, b: &List<Item>) -> (result: bool)
    ensures
        result == are_same_items(*a, *b),
    decreases a,
{
    match (a, b) {
        (List::Nil, List::Nil) => true,
        (List::Cons(x, xs), List::Cons(y, ys)) => same_item(x, y) && same_items(xs, ys),
        _ => false,
    }
}

impl PartialEq for CallName {
    fn eq(&self, other: &Self) -> (result: bool) {
        same_call_name(self, other)
    }
}

impl PartialEqSpecImpl for CallName {
    open spec fn obeys_eq_spec() -> bool {
        true
    }

    open spec fn eq_spec(&self, other: &Self) -> bool {
        is_same_call_name(*self, *other)
    }
}

impl Eq for CallName {

}

impl PartialEq for CustomFunction {
    fn eq(&self, other: &Self) -> (result: bool) {
        same_function(self, other)
    }
}

impl PartialEqSpecImpl for CustomFunction {
    open spec fn obeys_eq_spec() -> bool {
        true
    }

    open spec fn eq_spec(&self, other: &Self) -> bool {
        is_same_function(*self, *other)
    }
}

impl Eq for CustomFunction {

}

impl PartialEq for FunctionParam {
    fn eq(&self, other: &Self) -> (result: bool) {
        same_param(self, other)
    }
}

impl PartialEqSpecImpl for FunctionParam {
    open spec fn obeys_eq_spec() -> bool {
        true
    }

    open spec fn eq_spec(&self, other: &Self) -> bool {
        is_same_param(*self, *other)
    }
}

impl Eq for FunctionParam {

}

impl PartialEq for Call {
    fn eq(&self, other: &Self) -> (result: bool) {
        same_call(self, other)
    }
}

impl PartialEqSpecImpl for Call {
    open spec fn obeys_eq_spec() -> bool {
        true
    }

    open spec fn eq_spec(&self, other: &Self) -> bool {
        is_same_call(*self, *other)
    }
}

impl Eq for Call {

}

impl PartialEq for MatchArm {
    fn eq(&self, other: &Self) -> (result: bool) {
        same_arm(self, other)
    }
}

impl PartialEqSpecImpl for MatchArm {
    open spec fn obeys_eq_spec() -> bool {
        true
    }

    open spec fn eq_spec(&self, other: &Self) -> bool {
        is_same_arm(*self, *other)
    }
}

impl Eq for MatchArm {

}

impl PartialEq for Match {
    fn eq(&self, other: &Self) -> (result: bool) {
        same_match(self, other)
    }
}

impl PartialEqSpecImpl for Match {
    open spec fn obeys_eq_spec() -> bool {
        true
    }

    open spec fn eq_spec(&self, other: &Self) -> bool {
        is_same_match(*self, *other)
    }
}

impl Eq for Match {

}

impl PartialEq for SingleExpressionInner {
    fn eq(&self, other: &Self) -> (result: bool) {
        same_single_inner(self, other)
    }
}

impl PartialEqSpecImpl for SingleExpressionInner {
    open spec fn obeys_eq_spec() -> bool {
        true
    }

    open spec fn eq_spec(&self, other: &Self) -> bool {
        is_same_single_inner(*self, *other)
    }
}

impl Eq for SingleExpressionInner {

}

impl PartialEq for SingleExpression {
    fn eq(&self, other: &Self) -> (result: bool) {
        same_single(self, other)
    }
}

impl PartialEqSpecImpl for SingleExpression {
    open spec fn obeys_eq_spec() -> bool {
        true
    }

    open spec fn eq_spec(&self, other: &Self) -> bool {
        is_same_single(*self, *other)
    }
}

impl Eq for SingleExpression {

}

impl PartialEq for ExpressionInner {
    fn eq(&self, other: &Self) -> (result: bool) {
        same_inner(self, other)
    }
}

impl PartialEqSpecImpl for ExpressionInner {
    open spec fn obeys_eq_spec() -> bool {
        true
    }

    open spec fn eq_spec(&self, other: &Self) -> bool {
        is_same_inner(*self, *other)
    }
}

impl Eq for ExpressionInner {

}

impl PartialEq for Expression {
    fn eq(&self, other: &Self) -> (result: bool) {
        same_expression(self, other)
    }
}

impl PartialEqSpecImpl for Expression {
    open spec fn obeys_eq_spec() -> bool {
        true
    }

    open spec fn eq_spec(&self, other: &Self) -> bool {
        is_same_expression(*self, *other)
    }
}

impl Eq for Expression {

}

impl PartialEq for Assignment {
    fn eq(&self, other: &Self) -> (result: bool) {
        same_assignment(self, other)
    }
}

impl PartialEqSpecImpl for Assignment {
    open spec fn obeys_eq_spec() -> bool {
        true
    }

    open spec fn eq_spec(&self, other: &Self) -> bool {
        is_same_assignment(*self, *other)
    }
}

impl Eq for Assignment {

}

impl PartialEq for Statement {
    fn eq(&self, other: &Self) -> (result: bool) {
        same_statement(self, other)
    }
}

impl PartialEqSpecImpl for Statement {
    open spec fn obeys_eq_spec() -> bool {
        true
    }

    open spec fn eq_spec(&self, other: &Self) -> bool {
        is_same_statement(*self, *other)
    }
}

impl Eq for Statement {

}

impl PartialEq for Function {
    fn eq(&self, other: &Self) -> (result: bool) {
        same_definition(self, other)
    }
}

impl PartialEqSpecImpl for Function {
    open spec fn obeys_eq_spec() -> bool {
        true
    }

    open spec fn eq_spec(&self, other: &Self) -> bool {
        is_same_definition(*self, *other)
    }
}

impl Eq for Function {

}

impl PartialEq for Item {
    fn eq(&self, other: &Self) -> (result: bool) {
        same_item(self, other)
    }
}

impl PartialEqSpecImpl for Item {
    open spec fn obeys_eq_spec() -> bool {
        true
    }

    open spec fn eq_spec(&self, other: &Self) -> bool {
        is_same_item(*self, *other)
    }
}

impl Eq for Item {

}

/// Check whether two names of tracked calls are equal.
fn same_tracked_name(a: &TrackedCallName, b: &TrackedCallName) -> (result: bool)
    ensures
        result == (*a == *b),
{
    match (a, b) {
        (TrackedCallName::Assert, TrackedCallName::Assert) => true,
        (TrackedCallName::Panic, TrackedCallName::Panic) => true,
        (TrackedCallName::Jet, TrackedCallName::Jet) => true,
        (TrackedCallName::UnwrapLeft(s), TrackedCallName::UnwrapLeft(t)) => s.same(t),
        (TrackedCallName::UnwrapRight(s), TrackedCallName::UnwrapRight(t)) => s.same(t),
        (TrackedCallName::Unwrap, TrackedCallName::Unwrap) => true,
        (TrackedCallName::Debug(s), TrackedCallName::Debug(t)) => s.same(t),
        _ => false,
    }
}

/// Check whether two records of calls are equal.
fn same_calls(a: &CallTracker, b: &CallTracker) -> (result: bool)
    ensures
        result == (a@ == b@),
{
    if a.calls.len() != b.calls.len() {
        return false;
    }
    let mut i: usize = 0;
    while i < a.calls.len()
        invariant
            i <= a.calls.len() == b.calls.len(),
            forall|j: int| 0 <= j < i ==> #[trigger] a@[j] == b@[j],
        decreases a.calls.len() - i,
    {
        if !(a.calls[i].0 == b.calls[i].0 && same_tracked_name(&a.calls[i].1, &b.calls[i].1)) {
            assert(a@[i as int] != b@[i as int]);
            return false;
        }
        i = i + 1;
    }
    assert(a@ =~= b@);
    true
}

/// Whether two programs are equal.
pub open spec fn is_same_program(a: Program, b: Program) -> bool {
    &&& is_same_expression(a.main, b.main)
    &&& a.parameters@ == b.parameters@
    &&& a.witness_types@ == b.witness_types@
    &&& a.call_tracker@ == b.call_tracker@
}

impl PartialEq for Program {
    fn eq(&self, other: &Self) -> (result: bool) {
        same_expression(&self.main, &other.main) && same_types(
            &self.parameters.types,
            &other.parameters.types,
        ) && same_types(&self.witness_types.types, &other.witness_types.types) && same_calls(
            &self.call_tracker,
            &other.call_tracker,
        )
    }
}

impl PartialEqSpecImpl for Program {
    open spec fn obeys_eq_spec() -> bool {
        true
    }

    open spec fn eq_spec(&self, other: &Self) -> bool {
        is_same_program(*self, *other)
    }
}

impl Eq for Program {

}

} // verus!
