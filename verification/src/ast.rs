//! The abstract syntax tree.
//!
//! The tree is generated from a parse tree by an analysis that resolves names and checks types.
pub mod acceptance;
pub mod acceptance_laws;
pub mod analyze;
pub mod congruence_laws;
pub mod equality;
pub mod equality_laws;
pub mod error_laws;
pub mod frame;
pub mod import_laws;
pub mod meaning;
pub mod meaning_laws;
pub mod module;
pub mod program_laws;
pub mod reexport_laws;
pub mod rules;
pub mod scope;
pub mod signature_laws;
pub mod tree;
pub mod tree_laws;
pub mod typing;
pub mod typing_laws;

use crate::debug::CallTracker;
use crate::error::Span;
use crate::jet::Jet;
use crate::list::List;
use crate::name::{Identifier, WitnessName};
use crate::parse::Either;
use crate::pattern::{MatchPattern, Pattern};
use crate::types::ResolvedType;
use crate::value::Value;
use crate::witness::{Parameters, WitnessTypes};
use std::sync::Arc;
use vstd::prelude::*;

verus! {

/// A program consists of the main function.
///
/// Other items such as custom functions or type aliases
/// are resolved during the creation of the tree.
#[derive(Debug)]
pub struct Program {
    pub main: Expression,
    pub parameters: Parameters,
    pub witness_types: WitnessTypes,
    pub call_tracker: Arc<CallTracker>,
}

/// An item is a component of a program.
///
/// All items except for the main function are resolved during the creation of the tree.
#[derive(Debug)]
pub enum Item {
    /// A type alias.
    ///
    /// A stub because the alias was resolved during the creation of the tree.
    TypeAlias,
    /// A function.
    Function(Function),
    /// An import.
    ///
    /// A stub because the import was resolved during the creation of the tree.
    Use,
    /// The items of a module.
    Module(Box<List<Item>>),
    /// A placeholder for an item that could not be parsed.
    Ignored,
}

/// Definition of a function.
///
/// All functions except for the main function are resolved during the creation of the tree.
#[derive(Debug)]
pub enum Function {
    /// A custom function.
    ///
    /// A stub because the definition of the function was moved to its calls in the main function.
    Custom,
    /// The main function.
    ///
    /// An expression that takes no inputs (unit) and that produces no output (unit).
    /// The expression may panic midway through, signalling failure.
    /// Otherwise, the expression signals success.
    ///
    /// This expression is evaluated when the program is run.
    Main(Expression),
}

/// A statement is a component of a block expression.
///
/// Statements can define variables or run validating expressions,
/// but they never return values.
#[derive(Debug)]
pub enum Statement {
    /// Variable assignment.
    Assignment(Assignment),
    /// Expression that returns nothing (the unit value).
    Expression(Expression),
}

/// Assignment of a value to a variable identifier.
#[derive(Debug)]
pub struct Assignment {
    pub pattern: Pattern,
    pub expression: Expression,
    pub span: Span,
}

/// An expression returns a value.
#[derive(Debug)]
pub struct Expression {
    pub inner: ExpressionInner,
    pub ty: ResolvedType,
    pub span: Span,
}

/// Variant of an expression.
#[derive(Debug)]
pub enum ExpressionInner {
    /// A single expression directly returns a value.
    Single(SingleExpression),
    /// A block expression first executes a series of statements inside a local scope.
    /// Then, the block returns the value of its final expression.
    /// The block returns nothing (unit) if there is no final expression.
    Block(Arc<List<Statement>>, Option<Arc<Expression>>),
}

/// A single expression directly returns its value.
#[derive(Debug)]
pub struct SingleExpression {
    pub inner: SingleExpressionInner,
    pub ty: ResolvedType,
    pub span: Span,
}

/// Variant of a single expression.
#[derive(Debug)]
pub enum SingleExpressionInner {
    /// Constant value.
    Constant(Value),
    /// Witness value.
    Witness(WitnessName),
    /// Parameter value.
    Parameter(WitnessName),
    /// Variable that has been assigned a value.
    Variable(Identifier),
    /// Expression in parentheses.
    Expression(Arc<Expression>),
    /// Tuple expression.
    Tuple(Arc<List<Expression>>),
    /// Array expression.
    Array(Arc<List<Expression>>),
    /// Bounded list of expressions.
    List(Arc<List<Expression>>),
    /// Either expression.
    Either(Either<Arc<Expression>, Arc<Expression>>),
    /// Option expression.
    Option(Option<Arc<Expression>>),
    /// Call expression.
    Call(Call),
    /// Match expression.
    Match(Match),
}

/// Call of a user-defined or of a builtin function.
#[derive(Debug)]
pub struct Call {
    pub name: CallName,
    pub args: Arc<List<Expression>>,
    pub span: Span,
}

/// Name of a called function.
#[derive(Debug)]
pub enum CallName {
    /// Jet.
    Jet(Jet),
    /// Left value of a value whose right type is given.
    UnwrapLeft(ResolvedType),
    /// Right value of a value whose left type is given.
    UnwrapRight(ResolvedType),
    /// Check whether an optional value of the given type is absent.
    IsNone(ResolvedType),
    /// Value of an optional value.
    Unwrap,
    /// Assertion.
    Assert,
    /// Panic without error message.
    Panic,
    /// Debug output.
    Debug,
    /// Cast from the given source type.
    TypeCast(ResolvedType),
    /// A custom function that was defined previously.
    ///
    /// We effectively copy the function body into every call of the function.
    /// We use [`Arc`] for cheap clones during this process.
    Custom(CustomFunction),
    /// Fold of a list of the given bound with the given function.
    Fold(CustomFunction, usize),
    /// Fold of an array of the given size with the given function.
    ArrayFold(CustomFunction, usize),
    /// Loop over the given function, whose counter has the given number of bits,
    /// until it returns success.
    ForWhile(CustomFunction, usize),
}

/// Definition of a custom function.
#[derive(Debug)]
pub struct CustomFunction {
    pub params: Arc<List<FunctionParam>>,
    pub body: Arc<Expression>,
}

/// Parameter of a function.
#[derive(Debug)]
pub struct FunctionParam {
    pub identifier: Identifier,
    pub ty: ResolvedType,
}

/// Match expression.
#[derive(Debug)]
pub struct Match {
    pub scrutinee: Arc<Expression>,
    pub left: MatchArm,
    pub right: MatchArm,
    pub span: Span,
}

/// Arm of a [`Match`] expression.
#[derive(Debug)]
pub struct MatchArm {
    pub pattern: MatchPattern,
    pub expression: Arc<Expression>,
}

impl Program {
    /// Access the main function.
    ///
    /// There is exactly one main function for each program.
    pub fn main(&self) -> (main: &Expression)
        ensures
            *main == self.main,
    {
        &self.main
    }

    /// Access the parameters of the program.
    pub fn parameters(&self) -> (parameters: &Parameters)
        ensures
            *parameters == self.parameters,
    {
        &self.parameters
    }

    /// Access the witness types of the program.
    pub fn witness_types(&self) -> (types: &WitnessTypes)
        ensures
            *types == self.witness_types,
    {
        &self.witness_types
    }

    /// Access the tracker of function calls.
    pub fn call_tracker(&self) -> (tracker: &Arc<CallTracker>)
        ensures
            *tracker == self.call_tracker,
    {
        &self.call_tracker
    }
}

impl Assignment {
    /// Access the pattern of the assignment.
    pub fn pattern(&self) -> (pattern: &Pattern)
        ensures
            *pattern == self.pattern,
    {
        &self.pattern
    }

    /// Access the expression of the assignment.
    pub fn expression(&self) -> (expression: &Expression)
        ensures
            *expression == self.expression,
    {
        &self.expression
    }

    /// Access the span of the assignment.
    pub fn span(&self) -> (span: &Span)
        ensures
            *span == self.span,
    {
        &self.span
    }
}

impl Expression {
    /// Access the inner expression.
    pub fn inner(&self) -> (inner: &ExpressionInner)
        ensures
            *inner == self.inner,
    {
        &self.inner
    }

    /// Access the type of the expression.
    pub fn ty(&self) -> (ty: &ResolvedType)
        ensures
            *ty == self.ty,
    {
        &self.ty
    }

    /// Access the span of the expression.
    pub fn span(&self) -> (span: &Span)
        ensures
            *span == self.span,
    {
        &self.span
    }
}

/// The type of each expression.
pub open spec fn types_of(expressions: List<Expression>) -> List<ResolvedType>
    decreases expressions,
{
    match expressions {
        List::Nil => List::Nil,
        List::Cons(head, tail) => List::Cons(head.ty, Box::new(types_of(*tail))),
    }
}

/// Collect the type of each expression.
fn collect_types(expressions: &List<Expression>) -> (types: List<ResolvedType>)
    ensures
        types == types_of(*expressions),
    decreases expressions,
{
    match expressions {
        List::Nil => List::Nil,
        List::Cons(head, tail) => List::Cons(head.ty.clone(), Box::new(collect_types(tail))),
    }
}

impl SingleExpression {
    /// Create a tuple expression from the given arguments and span.
    pub fn tuple(args: Arc<List<Expression>>, span: Span) -> (result: SingleExpression)
        ensures
            result.inner == SingleExpressionInner::Tuple(args),
            result.ty == ResolvedType::Tuple(Arc::new(types_of(*args))),
            result.span == span,
    {
        let ty = ResolvedType::Tuple(Arc::new(collect_types(&args)));
        SingleExpression { inner: SingleExpressionInner::Tuple(args), ty, span }
    }

    /// Access the inner expression.
    pub fn inner(&self) -> (inner: &SingleExpressionInner)
        ensures
            *inner == self.inner,
    {
        &self.inner
    }

    /// Access the type of the expression.
    pub fn ty(&self) -> (ty: &ResolvedType)
        ensures
            *ty == self.ty,
    {
        &self.ty
    }

    /// Access the span of the expression.
    pub fn span(&self) -> (span: &Span)
        ensures
            *span == self.span,
    {
        &self.span
    }
}

impl Call {
    /// Access the name of the call.
    pub fn name(&self) -> (name: &CallName)
        ensures
            *name == self.name,
    {
        &self.name
    }

    /// Access the arguments of the call.
    pub fn args(&self) -> (args: &Arc<List<Expression>>)
        ensures
            *args == self.args,
    {
        &self.args
    }

    /// Access the span of the call.
    pub fn span(&self) -> (span: &Span)
        ensures
            *span == self.span,
    {
        &self.span
    }
}

/// The pattern that binds a value to each parameter.
pub open spec fn patterns_of(params: List<FunctionParam>) -> List<Pattern>
    decreases params,
{
    match params {
        List::Nil => List::Nil,
        List::Cons(head, tail) => List::Cons(
            Pattern::Identifier(head.identifier),
            Box::new(patterns_of(*tail)),
        ),
    }
}

/// Collect the pattern that binds a value to each parameter.
fn collect_patterns(params: &List<FunctionParam>) -> (patterns: List<Pattern>)
    ensures
        patterns == patterns_of(*params),
    decreases params,
{
    match params {
        List::Nil => List::Nil,
        List::Cons(head, tail) => List::Cons(
            Pattern::Identifier(head.identifier.clone()),
            Box::new(collect_patterns(tail)),
        ),
    }
}

impl CustomFunction {
    /// Access the parameters of the function.
    pub fn params(&self) -> (params: &List<FunctionParam>)
        ensures
            *params == *self.params,
    {
        &self.params
    }

    /// Access the body of the function.
    pub fn body(&self) -> (body: &Expression)
        ensures
            *body == *self.body,
    {
        &self.body
    }

    /// Return a pattern for the parameters of the function.
    pub fn params_pattern(&self) -> (pattern: Pattern)
        ensures
            pattern == Pattern::Tuple(Arc::new(patterns_of(*self.params))),
    {
        Pattern::Tuple(Arc::new(collect_patterns(&self.params)))
    }
}

impl FunctionParam {
    /// Access the identifier of the parameter.
    pub fn identifier(&self) -> (identifier: &Identifier)
        ensures
            *identifier == self.identifier,
    {
        &self.identifier
    }

    /// Access the type of the parameter.
    pub fn ty(&self) -> (ty: &ResolvedType)
        ensures
            *ty == self.ty,
    {
        &self.ty
    }
}

impl Match {
    /// Access the expression whose output is destructed in the match statement.
    pub fn scrutinee(&self) -> (scrutinee: &Expression)
        ensures
            *scrutinee == *self.scrutinee,
    {
        &self.scrutinee
    }

    /// Access the branch that handles structural left values.
    pub fn left(&self) -> (left: &MatchArm)
        ensures
            *left == self.left,
    {
        &self.left
    }

    /// Access the branch that handles structural right values.
    pub fn right(&self) -> (right: &MatchArm)
        ensures
            *right == self.right,
    {
        &self.right
    }

    /// Access the span of the match statement.
    pub fn span(&self) -> (span: &Span)
        ensures
            *span == self.span,
    {
        &self.span
    }
}

impl MatchArm {
    /// Access the pattern of the match arm.
    pub fn pattern(&self) -> (pattern: &MatchPattern)
        ensures
            *pattern == self.pattern,
    {
        &self.pattern
    }

    /// Access the expression of the match arm.
    pub fn expression(&self) -> (expression: &Expression)
        ensures
            *expression == *self.expression,
    {
        &self.expression
    }
}

impl Clone for CustomFunction {
    fn clone(&self) -> (result: Self)
        ensures
            result == *self,
    {
        CustomFunction { params: self.params.clone(), body: self.body.clone() }
    }
}

impl Clone for CallName {
    fn clone(&self) -> (result: Self)
        ensures
            result == *self,
    {
        match self {
            CallName::Jet(jet) => CallName::Jet(jet.clone()),
            CallName::UnwrapLeft(ty) => CallName::UnwrapLeft(ty.clone()),
            CallName::UnwrapRight(ty) => CallName::UnwrapRight(ty.clone()),
            CallName::IsNone(ty) => CallName::IsNone(ty.clone()),
            CallName::Unwrap => CallName::Unwrap,
            CallName::Assert => CallName::Assert,
            CallName::Panic => CallName::Panic,
            CallName::Debug => CallName::Debug,
            CallName::TypeCast(ty) => CallName::TypeCast(ty.clone()),
            CallName::Custom(f) => CallName::Custom(f.clone()),
            CallName::Fold(f, n) => CallName::Fold(f.clone(), *n),
            CallName::ArrayFold(f, n) => CallName::ArrayFold(f.clone(), *n),
            CallName::ForWhile(f, n) => CallName::ForWhile(f.clone(), *n),
        }
    }
}

impl Clone for Call {
    fn clone(&self) -> (result: Self)
        ensures
            result == *self,
    {
        Call { name: self.name.clone(), args: self.args.clone(), span: self.span }
    }
}

impl Clone for MatchArm {
    fn clone(&self) -> (result: Self)
        ensures
            result == *self,
    {
        MatchArm { pattern: self.pattern.clone(), expression: self.expression.clone() }
    }
}

impl Clone for Match {
    fn clone(&self) -> (result: Self)
        ensures
            result == *self,
    {
        Match {
            scrutinee: self.scrutinee.clone(),
            left: self.left.clone(),
            right: self.right.clone(),
            span: self.span,
        }
    }
}

impl Clone for SingleExpressionInner {
    fn clone(&self) -> (result: Self)
        ensures
            result == *self,
    {
        match self {
            SingleExpressionInner::Constant(value) => SingleExpressionInner::Constant(
                value.clone(),
            ),
            SingleExpressionInner::Witness(name) => SingleExpressionInner::Witness(name.clone()),
            SingleExpressionInner::Parameter(name) => SingleExpressionInner::Parameter(
                name.clone(),
            ),
            SingleExpressionInner::Variable(name) => SingleExpressionInner::Variable(name.clone()),
            SingleExpressionInner::Expression(e) => SingleExpressionInner::Expression(e.clone()),
            SingleExpressionInner::Tuple(es) => SingleExpressionInner::Tuple(es.clone()),
            SingleExpressionInner::Array(es) => SingleExpressionInner::Array(es.clone()),
            SingleExpressionInner::List(es) => SingleExpressionInner::List(es.clone()),
            SingleExpressionInner::Either(Either::Left(e)) => SingleExpressionInner::Either(
                Either::Left(e.clone()),
            ),
            SingleExpressionInner::Either(Either::Right(e)) => SingleExpressionInner::Either(
                Either::Right(e.clone()),
            ),
            SingleExpressionInner::Option(Some(e)) => SingleExpressionInner::Option(
                Some(e.clone()),
            ),
            SingleExpressionInner::Option(None) => SingleExpressionInner::Option(None),
            SingleExpressionInner::Call(call) => SingleExpressionInner::Call(call.clone()),
            SingleExpressionInner::Match(m) => SingleExpressionInner::Match(m.clone()),
        }
    }
}

impl Clone for SingleExpression {
    fn clone(&self) -> (result: Self)
        ensures
            result == *self,
    {
        SingleExpression { inner: self.inner.clone(), ty: self.ty.clone(), span: self.span }
    }
}

impl Clone for ExpressionInner {
    fn clone(&self) -> (result: Self)
        ensures
            result == *self,
    {
        match self {
            ExpressionInner::Single(single) => ExpressionInner::Single(single.clone()),
            ExpressionInner::Block(statements, Some(e)) => ExpressionInner::Block(
                statements.clone(),
                Some(e.clone()),
            ),
            ExpressionInner::Block(statements, None) => ExpressionInner::Block(
                statements.clone(),
                None,
            ),
        }
    }
}

impl Clone for Expression {
    fn clone(&self) -> (result: Self)
        ensures
            result == *self,
    {
        Expression { inner: self.inner.clone(), ty: self.ty.clone(), span: self.span }
    }
}

impl Clone for Assignment {
    fn clone(&self) -> (result: Self)
        ensures
            result == *self,
    {
        Assignment {
            pattern: self.pattern.clone(),
            expression: self.expression.clone(),
            span: self.span,
        }
    }
}

impl Clone for Statement {
    fn clone(&self) -> (result: Self)
        ensures
            result == *self,
    {
        match self {
            Statement::Assignment(assignment) => Statement::Assignment(assignment.clone()),
            Statement::Expression(expression) => Statement::Expression(expression.clone()),
        }
    }
}

impl Clone for FunctionParam {
    fn clone(&self) -> (result: Self)
        ensures
            result == *self,
    {
        FunctionParam { identifier: self.identifier.clone(), ty: self.ty.clone() }
    }
}

impl Clone for Function {
    fn clone(&self) -> (result: Self)
        ensures
            result == *self,
    {
        match self {
            Function::Custom => Function::Custom,
            Function::Main(e) => Function::Main(e.clone()),
        }
    }
}

/// Copy an item.
fn copy_item(item: &Item) -> (copy: Item)
    ensures
        copy == *item,
    decreases item,
{
    match item {
        Item::TypeAlias => Item::TypeAlias,
        Item::Function(function) => Item::Function(function.clone()),
        Item::Use => Item::Use,
        Item::Module(items) => Item::Module(Box::new(copy_items(items))),
        Item::Ignored => Item::Ignored,
    }
}

/// Copy items.
fn copy_items(items: &List<Item>) -> (copy: List<Item>)
    ensures
        copy == *items,
    decreases items,
{
    match items {
        List::Nil => List::Nil,
        List::Cons(head, tail) => List::Cons(copy_item(head), Box::new(copy_items(tail))),
    }
}

impl Clone for Item {
    fn clone(&self) -> (result: Self)
        ensures
            result == *self,
    {
        copy_item(self)
    }
}

impl Clone for Program {
    fn clone(&self) -> (result: Self)
        ensures
            result == *self,
    {
        Program {
            main: self.main.clone(),
            parameters: self.parameters.clone(),
            witness_types: self.witness_types.clone(),
            call_tracker: self.call_tracker.clone(),
        }
    }
}

impl AsRef<Span> for Assignment {
    fn as_ref(&self) -> (span: &Span)
        ensures
            *span == self.span,
    {
        &self.span
    }
}

impl AsRef<Span> for Expression {
    fn as_ref(&self) -> (span: &Span)
        ensures
            *span == self.span,
    {
        &self.span
    }
}

impl AsRef<Span> for SingleExpression {
    fn as_ref(&self) -> (span: &Span)
        ensures
            *span == self.span,
    {
        &self.span
    }
}

impl AsRef<Span> for Call {
    fn as_ref(&self) -> (span: &Span)
        ensures
            *span == self.span,
    {
        &self.span
    }
}

impl AsRef<Span> for Match {
    fn as_ref(&self) -> (span: &Span)
        ensures
            *span == self.span,
    {
        &self.span
    }
}

} // verus!
