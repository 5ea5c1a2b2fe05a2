//! When a syntax tree is well typed.
use crate::ast::rules::{argument_types, output_type};
use crate::ast::{
    types_of, Assignment, Call, CallName, CustomFunction, Expression, ExpressionInner,
    FunctionParam, Match, MatchArm, SingleExpression, SingleExpressionInner, Statement,
};
use crate::list::List;
use crate::parse::{scrutinee_type, Either};
use crate::pattern::{bound_by, MatchPattern, Pattern};
use crate::structure::structure;
use crate::types::{unit_type, ResolvedType, UIntType};
use crate::value::{limit, Value};
use std::sync::Arc;
use vstd::prelude::*;

verus! {

/// Names with their types.
pub type Types = Map<Seq<char>, ResolvedType>;

/// The types of the names that an expression can refer to.
pub ghost struct Context {
    /// The variables that are in scope.
    pub variables: Types,
    /// The parameters of the program.
    pub parameters: Types,
    /// The witnesses of the program, if the expression belongs to the main function.
    pub witnesses: Types,
}

impl Context {
    /// The context with more variables, which take the place of variables of the same name.
    pub open spec fn with(self, bindings: Types) -> Context {
        Context { variables: self.variables.union_prefer_right(bindings), ..self }
    }
}

/// Whether a name is of a type.
pub open spec fn has(types: Types, name: Seq<char>, ty: ResolvedType) -> bool {
    types.contains_key(name) && types[name] == ty
}

/// Whether a value is of a type.
pub open spec fn is_value_of(value: Value, ty: ResolvedType) -> bool {
    match value {
        Value::Boolean(_) => ty == ResolvedType::Boolean,
        Value::UInt(n) => ty == ResolvedType::UInt(n.ty) && n.number.value() < limit(n.ty),
        Value::Bytes(bytes) => match ty {
            ResolvedType::Array(element, n) => *element == ResolvedType::UInt(UIntType::U8)
                && bytes@.len() == n,
            _ => false,
        },
    }
}

/// Whether an expression is well typed: its parts are, and they are of the types that its own type
/// asks for.
pub open spec fn is_typed(e: Expression, c: Context) -> bool
    decreases e,
{
    match e.inner {
        ExpressionInner::Single(single) => single.ty == e.ty && is_single_typed(single, c),
        ExpressionInner::Block(list, last) => are_statements_typed(*list, c) && match last {
            Some(value) => value.ty == e.ty && is_typed(*value, after_statements(*list, c)),
            None => e.ty == unit_type(),
        },
    }
}

/// Whether statements are well typed, each in the context that the statements before it lead to.
pub open spec fn are_statements_typed(list: List<Statement>, c: Context) -> bool
    decreases list,
{
    match list {
        List::Nil => true,
        List::Cons(head, tail) => is_statement_typed(head, c) && are_statements_typed(
            *tail,
            after_statement(head, c),
        ),
    }
}

/// Whether a statement is well typed. The value of an assignment has the shape of its pattern.
pub open spec fn is_statement_typed(statement: Statement, c: Context) -> bool
    decreases statement,
{
    match statement {
        Statement::Assignment(a) => is_assignment_typed(a, c),
        Statement::Expression(e) => e.ty == unit_type() && is_typed(e, c),
    }
}

/// Whether an assignment is well typed.
pub open spec fn is_assignment_typed(a: Assignment, c: Context) -> bool
    decreases a,
{
    is_typed(a.expression, c) && bound_by(a.pattern, a.expression.ty, Map::empty()) is Ok
}

/// The context after a statement.
pub open spec fn after_statement(statement: Statement, c: Context) -> Context {
    match statement {
        Statement::Assignment(a) => match bound_by(a.pattern, a.expression.ty, Map::empty()) {
            Ok(bindings) => c.with(bindings),
            Err(_) => c,
        },
        Statement::Expression(_) => c,
    }
}

/// The context after statements.
pub open spec fn after_statements(list: List<Statement>, c: Context) -> Context
    decreases list,
{
    match list {
        List::Nil => c,
        List::Cons(head, tail) => after_statements(*tail, after_statement(head, c)),
    }
}

/// Whether expressions are well typed.
pub open spec fn are_typed(list: List<Expression>, c: Context) -> bool
    decreases list,
{
    match list {
        List::Nil => true,
        List::Cons(head, tail) => is_typed(head, c) && are_typed(*tail, c),
    }
}

/// Whether all expressions are of a type.
pub open spec fn are_of(list: List<Expression>, ty: ResolvedType) -> bool
    decreases list,
{
    match list {
        List::Nil => true,
        List::Cons(head, tail) => head.ty == ty && are_of(*tail, ty),
    }
}

/// Whether a single expression is well typed.
pub open spec fn is_single_typed(single: SingleExpression, c: Context) -> bool
    decreases single,
{
    is_inner_typed(single.inner, single.ty, c)
}

/// Whether the variant of a single expression is well typed and of a type.
pub open spec fn is_inner_typed(
    inner: SingleExpressionInner,
    ty: ResolvedType,
    c: Context,
) -> bool
    decreases inner,
{
    match inner {
        SingleExpressionInner::Constant(value) => is_value_of(value, ty),
        SingleExpressionInner::Witness(name) => has(c.witnesses, name@, ty),
        SingleExpressionInner::Parameter(name) => has(c.parameters, name@, ty),
        SingleExpressionInner::Variable(name) => has(c.variables, name@, ty),
        SingleExpressionInner::Expression(e) => e.ty == ty && is_typed(*e, c),
        SingleExpressionInner::Tuple(es) => ty == ResolvedType::Tuple(Arc::new(types_of(*es)))
            && are_typed(*es, c),
        SingleExpressionInner::Array(es) => are_typed(*es, c) && match ty {
            ResolvedType::Array(element, n) => es@.len() == n && are_of(*es, *element),
            _ => false,
        },
        SingleExpressionInner::List(es) => are_typed(*es, c) && match ty {
            ResolvedType::List(element, bound) => es@.len() < bound && are_of(*es, *element),
            _ => false,
        },
        SingleExpressionInner::Either(Either::Left(e)) => is_typed(*e, c) && match ty {
            ResolvedType::Either(left, _) => e.ty == *left,
            _ => false,
        },
        SingleExpressionInner::Either(Either::Right(e)) => is_typed(*e, c) && match ty {
            ResolvedType::Either(_, right) => e.ty == *right,
            _ => false,
        },
        SingleExpressionInner::Option(Some(e)) => is_typed(*e, c) && match ty {
            ResolvedType::Option(some) => e.ty == *some,
            _ => false,
        },
        SingleExpressionInner::Option(None) => ty is Option,
        SingleExpressionInner::Call(call) => is_call_typed(call, ty, c),
        SingleExpressionInner::Match(m) => is_match_typed(m, ty, c),
    }
}

/// Whether a call is well typed and returns a value of a type: the arguments are of the types that
/// the function takes, and the function returns a value of the type.
pub open spec fn is_call_typed(call: Call, ty: ResolvedType, c: Context) -> bool
    decreases call,
{
    &&& are_typed(*call.args, c)
    &&& argument_types(call.name, ty) matches Ok(tys) && tys == types_of(*call.args)
    &&& match output_type(call.name) {
        Ok(Some(out)) => out == ty,
        Ok(None) => true,
        Err(_) => false,
    }
    &&& is_callee_typed(call.name, ty, c)
}

/// Whether the definition of a called function is well typed, and a cast is between types of the
/// same structure.
pub open spec fn is_callee_typed(name: CallName, ty: ResolvedType, c: Context) -> bool
    decreases name,
{
    match name {
        CallName::TypeCast(source) => structure(source) == structure(ty),
        CallName::Custom(f) => is_function_typed(f, c.parameters),
        CallName::Fold(f, _) => is_function_typed(f, c.parameters),
        CallName::ArrayFold(f, _) => is_function_typed(f, c.parameters),
        CallName::ForWhile(f, _) => is_function_typed(f, c.parameters),
        _ => true,
    }
}

/// Whether the definition of a function is well typed. A function can refer to its own parameters
/// and to those of the program, and to no witnesses.
pub open spec fn is_function_typed(f: CustomFunction, parameters: Types) -> bool
    decreases f,
{
    is_typed(
        *f.body,
        Context {
            variables: params_types(*f.params, Map::empty()),
            parameters,
            witnesses: Map::empty(),
        },
    )
}

/// Variables with the parameters of a function. Of two parameters of the same name the latter
/// counts.
pub open spec fn params_types(list: List<FunctionParam>, variables: Types) -> Types
    decreases list,
{
    match list {
        List::Nil => variables,
        List::Cons(head, tail) => params_types(
            *tail,
            variables.union_prefer_right(map![head.identifier@ => head.ty]),
        ),
    }
}

/// Whether a match expression is well typed and returns a value of a type.
pub open spec fn is_match_typed(m: Match, ty: ResolvedType, c: Context) -> bool
    decreases m,
{
    &&& scrutinee_type(m.left.pattern, m.right.pattern) is Some
    &&& is_typed(*m.scrutinee, c)
    &&& is_arm_typed(m.left, m.scrutinee.ty, ty, c)
    &&& is_arm_typed(m.right, m.scrutinee.ty, ty, c)
}

/// The variables that a match arm binds when it takes apart a value of a type, if the pattern of
/// the arm fits the type.
pub open spec fn arm_variables(pattern: MatchPattern, ty: ResolvedType) -> Option<Types> {
    match (pattern, ty) {
        (MatchPattern::Left(p, _), ResolvedType::Either(left, _)) => variables_of(p, *left),
        (MatchPattern::Right(p, _), ResolvedType::Either(_, right)) => variables_of(p, *right),
        (MatchPattern::Something(p, _), ResolvedType::Option(some)) => variables_of(p, *some),
        (MatchPattern::Nothing, ResolvedType::Option(_)) => Some(Map::empty()),
        (MatchPattern::False, ResolvedType::Boolean) => Some(Map::empty()),
        (MatchPattern::True, ResolvedType::Boolean) => Some(Map::empty()),
        _ => None,
    }
}

/// The variables that a pattern binds, if it fits the type.
pub open spec fn variables_of(pattern: Pattern, ty: ResolvedType) -> Option<Types> {
    match bound_by(pattern, ty, Map::empty()) {
        Ok(bindings) => Some(bindings),
        Err(_) => None,
    }
}

/// Whether a match arm is well typed: it takes apart a value of the type of the scrutinee and
/// returns a value of a type.
pub open spec fn is_arm_typed(
    arm: MatchArm,
    scrutinee: ResolvedType,
    ty: ResolvedType,
    c: Context,
) -> bool
    decreases arm,
{
    match arm_variables(arm.pattern, scrutinee) {
        Some(bindings) => arm.expression.ty == ty && is_typed(*arm.expression, c.with(bindings)),
        None => false,
    }
}

} // verus!
