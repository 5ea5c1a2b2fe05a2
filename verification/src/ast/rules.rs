//! The rules by which a parse tree is analyzed.
//!
//! Each function states what the analysis of a component of the parse tree results in: a component
//! of the abstract syntax tree or an error, and the scope afterwards.
use crate::ast::scope::{variable_type, ScopeView};
use crate::ast::{
    Assignment, Call, CallName, CustomFunction, Expression, ExpressionInner, Function,
    FunctionParam, Item, Match, MatchArm, SingleExpression, SingleExpressionInner, Statement,
};
use crate::debug::TrackedCallName;
use crate::error::{rich, Error, ErrorView, RichErrorView, Span};
use crate::jet::Jet;
use crate::list::{clamp_to_usize, List};
use crate::parse;
use crate::parse::{scrutinee_type, Either, Visibility};
use crate::pattern::{bound_by, MatchPattern, Pattern};
use crate::structure::structure;
use crate::types::{resolved, resolved_all, unit_type, AliasedType, ResolvedType};
use crate::value::{binary_value, decimal_value, hexadecimal_value, Value};
use std::sync::Arc;
use vstd::prelude::*;

verus! {

/// The types of the parameters of a function.
pub open spec fn param_types(params: List<FunctionParam>) -> List<ResolvedType>
    decreases params,
{
    match params {
        List::Nil => List::Nil,
        List::Cons(head, tail) => List::Cons(head.ty, Box::new(param_types(*tail))),
    }
}

/// A list of one type.
pub open spec fn one(ty: ResolvedType) -> List<ResolvedType> {
    List::Cons(ty, Box::new(List::Nil))
}

/// A list of two types.
pub open spec fn two(first: ResolvedType, second: ResolvedType) -> List<ResolvedType> {
    List::Cons(first, Box::new(one(second)))
}

/// A function that can be used in a fold has the signature
/// `fn f(element: E, accumulator: A) -> A`.
pub open spec fn is_foldable(function: CustomFunction) -> bool {
    function.params@.len() == 2 && function.params@[1].ty == function.body.ty
}

/// The number of bits of the counter of a function that can be used in a loop.
///
/// Such a function has the signature
/// `fn f(accumulator: A, readonly_context: C, counter: u{N}) -> Either<B, A>`
/// where `N` is a power of two and at most 16.
pub open spec fn counter_width(function: CustomFunction) -> Option<usize> {
    if function.params@.len() != 3 {
        None
    } else {
        match (function.body.ty, function.params@[2].ty) {
            (ResolvedType::Either(_, out_r), ResolvedType::UInt(counter)) => if *out_r
                == function.params@[0].ty && counter.width() <= 16 {
                Some(counter.width())
            } else {
                None
            },
            _ => None,
        }
    }
}

/// The name of a called function, resolved in a scope.
pub open spec fn call_name(name: parse::CallName, s: ScopeView) -> Result<CallName, ErrorView> {
    match name {
        parse::CallName::Jet(name) => if s.jets.contains_key(name@) && !s.jets[name@].disabled {
            Ok(CallName::Jet(s.jets[name@]))
        } else {
            Err(Error::JetDoesNotExist(name@))
        },
        parse::CallName::UnwrapLeft(ty) => match s.resolved(ty) {
            Ok(right) => Ok(CallName::UnwrapLeft(right)),
            Err(e) => Err(e),
        },
        parse::CallName::UnwrapRight(ty) => match s.resolved(ty) {
            Ok(left) => Ok(CallName::UnwrapRight(left)),
            Err(e) => Err(e),
        },
        parse::CallName::IsNone(ty) => match s.resolved(ty) {
            Ok(some) => Ok(CallName::IsNone(some)),
            Err(e) => Err(e),
        },
        parse::CallName::Unwrap => Ok(CallName::Unwrap),
        parse::CallName::Assert => Ok(CallName::Assert),
        parse::CallName::Panic => Ok(CallName::Panic),
        parse::CallName::Debug => Ok(CallName::Debug),
        parse::CallName::TypeCast(ty) => match s.resolved(ty) {
            Ok(source) => Ok(CallName::TypeCast(source)),
            Err(e) => Err(e),
        },
        parse::CallName::Custom(name) => match s.function(name@) {
            Ok(function) => Ok(CallName::Custom(function)),
            Err(e) => Err(e),
        },
        parse::CallName::ArrayFold(name, size) => match s.function(name@) {
            Ok(function) => if is_foldable(function) {
                Ok(CallName::ArrayFold(function, size))
            } else {
                Err(Error::FunctionNotFoldable(name@))
            },
            Err(e) => Err(e),
        },
        parse::CallName::Fold(name, bound) => match s.function(name@) {
            Ok(function) => if is_foldable(function) {
                Ok(CallName::Fold(function, bound))
            } else {
                Err(Error::FunctionNotFoldable(name@))
            },
            Err(e) => Err(e),
        },
        parse::CallName::ForWhile(name) => match s.function(name@) {
            Ok(function) => match counter_width(function) {
                Some(width) => Ok(CallName::ForWhile(function, width)),
                None => Err(Error::FunctionNotLoopable(name@)),
            },
            Err(e) => Err(e),
        },
    }
}

/// The types of the arguments that a function takes, or else the first alias in the signature of
/// a jet that the language does not define.
pub open spec fn argument_types(name: CallName, ty: ResolvedType) -> Result<
    List<ResolvedType>,
    ErrorView,
> {
    match name {
        CallName::Jet(jet) => match resolved_all(*jet.source_type, Map::empty()) {
            Ok(tys) => Ok(tys),
            Err(alias) => Err(Error::UndefinedAlias(alias)),
        },
        CallName::UnwrapLeft(right) => Ok(
            one(ResolvedType::Either(Arc::new(ty), Arc::new(right))),
        ),
        CallName::UnwrapRight(left) => Ok(one(ResolvedType::Either(Arc::new(left), Arc::new(ty)))),
        CallName::IsNone(some) => Ok(one(ResolvedType::Option(Arc::new(some)))),
        CallName::Unwrap => Ok(one(ResolvedType::Option(Arc::new(ty)))),
        CallName::Assert => Ok(one(ResolvedType::Boolean)),
        CallName::Panic => Ok(List::Nil),
        CallName::Debug => Ok(one(ty)),
        CallName::TypeCast(source) => Ok(one(source)),
        CallName::Custom(f) => Ok(param_types(*f.params)),
        CallName::Fold(f, bound) => Ok(
            two(ResolvedType::List(Arc::new(f.params@[0].ty), bound), f.params@[1].ty),
        ),
        CallName::ArrayFold(f, size) => Ok(
            two(ResolvedType::Array(Arc::new(f.params@[0].ty), size), f.params@[1].ty),
        ),
        CallName::ForWhile(f, _) => Ok(two(f.params@[0].ty, f.params@[1].ty)),
    }
}

/// The type that a function returns, if the function fixes it, or else the first alias in the
/// signature of a jet that the language does not define.
pub open spec fn output_type(name: CallName) -> Result<Option<ResolvedType>, ErrorView> {
    match name {
        CallName::Jet(jet) => match resolved(*jet.target_type, Map::empty()) {
            Ok(out) => Ok(Some(out)),
            Err(alias) => Err(Error::UndefinedAlias(alias)),
        },
        CallName::IsNone(_) => Ok(Some(ResolvedType::Boolean)),
        CallName::Assert => Ok(Some(unit_type())),
        CallName::Custom(f) => Ok(Some(f.body.ty)),
        CallName::Fold(f, _) => Ok(Some(f.body.ty)),
        CallName::ArrayFold(f, _) => Ok(Some(f.body.ty)),
        CallName::ForWhile(f, _) => Ok(Some(f.body.ty)),
        _ => Ok(None),
    }
}

/// The types of the arguments of a call that is expected to return a value of type `ty`.
///
/// ## Errors
///
/// A cast must be between types of the same structure, there must be as many arguments as the
/// function takes, and the function must return a value of the expected type.
pub open spec fn checked_arguments(name: CallName, arity: nat, ty: ResolvedType) -> Result<
    List<ResolvedType>,
    ErrorView,
> {
    if name matches CallName::TypeCast(source) && structure(source) != structure(ty) {
        Err(Error::InvalidCast(name->TypeCast_0, ty))
    } else {
        match argument_types(name, ty) {
            Err(e) => Err(e),
            Ok(tys) => if arity != tys@.len() {
                Err(
                    Error::InvalidNumberOfArguments(
                        clamp_to_usize(tys@.len()),
                        clamp_to_usize(arity),
                    ),
                )
            } else {
                match output_type(name) {
                    Err(e) => Err(e),
                    Ok(Some(out)) => if out == ty {
                        Ok(tys)
                    } else {
                        Err(Error::ExpressionTypeMismatch(ty, out))
                    },
                    Ok(None) => Ok(tys),
                }
            },
        }
    }
}

/// The scope before the arguments of a call are analyzed.
pub open spec fn tracked_before(name: CallName, span: Span, s: ScopeView) -> ScopeView {
    match name {
        CallName::Jet(_) => s.with_call(span, TrackedCallName::Jet),
        CallName::Unwrap => s.with_call(span, TrackedCallName::Unwrap),
        CallName::Assert => s.with_call(span, TrackedCallName::Assert),
        CallName::Panic => s.with_call(span, TrackedCallName::Panic),
        _ => s,
    }
}

/// The scope after the arguments of a call were analyzed.
pub open spec fn tracked_after(
    name: CallName,
    ty: ResolvedType,
    span: Span,
    s: ScopeView,
) -> ScopeView {
    match name {
        CallName::UnwrapLeft(right) => s.with_call(
            span,
            TrackedCallName::UnwrapLeft(ResolvedType::Either(Arc::new(ty), Arc::new(right))),
        ),
        CallName::UnwrapRight(left) => s.with_call(
            span,
            TrackedCallName::UnwrapRight(ResolvedType::Either(Arc::new(left), Arc::new(ty))),
        ),
        CallName::Debug => s.with_call(span, TrackedCallName::Debug(ty)),
        _ => s,
    }
}

/// The outcome of an analysis: a component of the abstract syntax tree or an error,
/// and the scope afterwards.
pub type Outcome<T> = (Result<T, RichErrorView>, ScopeView);

/// An expression of type `ty`.
pub open spec fn expression(from: parse::Expression, ty: ResolvedType, s: ScopeView) -> Outcome<
    Expression,
>
    decreases from,
{
    match from.inner {
        parse::ExpressionInner::Single(single) => match single_expression(single, ty, s) {
            (Err(e), after) => (Err(e), after),
            (Ok(inner), after) => (
                Ok(Expression { inner: ExpressionInner::Single(inner), ty, span: from.span }),
                after,
            ),
        },
        parse::ExpressionInner::Block(parse_statements, last) => match statements(
            *parse_statements,
            s.in_block(),
        ) {
            (Err(e), after) => (Err(e), after),
            (Ok(list), inside) => match last {
                Some(parse_last) => match expression(*parse_last, ty, inside) {
                    (Err(e), after) => (Err(e), after),
                    (Ok(e), after) => (
                        Ok(
                            Expression {
                                inner: ExpressionInner::Block(
                                    Arc::new(list),
                                    Some(Arc::new(e)),
                                ),
                                ty,
                                span: from.span,
                            },
                        ),
                        after.after_block(),
                    ),
                },
                None => if ty == unit_type() {
                    (
                        Ok(
                            Expression {
                                inner: ExpressionInner::Block(Arc::new(list), None),
                                ty,
                                span: from.span,
                            },
                        ),
                        inside.after_block(),
                    )
                } else {
                    (
                        Err(rich(Error::ExpressionTypeMismatch(ty, unit_type()), from.span)),
                        inside,
                    )
                },
            },
        },
    }
}

/// The statements of a block.
pub open spec fn statements(from: List<parse::Statement>, s: ScopeView) -> Outcome<List<Statement>>
    decreases from,
{
    match from {
        List::Nil => (Ok(List::Nil), s),
        List::Cons(head, tail) => match statement(head, s) {
            (Err(e), after) => (Err(e), after),
            (Ok(first), inside) => match statements(*tail, inside) {
                (Err(e), after) => (Err(e), after),
                (Ok(rest), after) => (Ok(List::Cons(first, Box::new(rest))), after),
            },
        },
    }
}

/// A statement. The expression of a statement returns nothing.
pub open spec fn statement(from: parse::Statement, s: ScopeView) -> Outcome<Statement>
    decreases from,
{
    match from {
        parse::Statement::Assignment(parse_assignment) => match assignment(parse_assignment, s) {
            (Err(e), after) => (Err(e), after),
            (Ok(a), after) => (Ok(Statement::Assignment(a)), after),
        },
        parse::Statement::Expression(parse_expression) => match expression(
            parse_expression,
            unit_type(),
            s,
        ) {
            (Err(e), after) => (Err(e), after),
            (Ok(e), after) => (Ok(Statement::Expression(e)), after),
        },
    }
}

/// An assignment. Its expression is of the annotated type, whose parts are bound to the variables
/// of its pattern.
pub open spec fn assignment(from: parse::Assignment, s: ScopeView) -> Outcome<Assignment>
    decreases from,
{
    match s.resolved(from.ty) {
        Err(e) => (Err(rich(e, from.span)), s),
        Ok(ty) => match expression(from.expression, ty, s) {
            (Err(e), after) => (Err(e), after),
            (Ok(e), after) => match bound_by(from.pattern, ty, Map::empty()) {
                Err(error) => (Err(rich(error, from.span)), after),
                Ok(bindings) => (
                    Ok(Assignment { pattern: from.pattern, expression: e, span: from.span }),
                    after.with_variables(bindings),
                ),
            },
        },
    }
}

/// Expressions of the types at the same position, one after the other.
pub open spec fn each(
    from: List<parse::Expression>,
    tys: List<ResolvedType>,
    s: ScopeView,
) -> Outcome<List<Expression>>
    decreases from,
{
    match (from, tys) {
        (List::Cons(head, tail), List::Cons(ty, rest_tys)) => match expression(head, ty, s) {
            (Err(e), after) => (Err(e), after),
            (Ok(first), inside) => match each(*tail, *rest_tys, inside) {
                (Err(e), after) => (Err(e), after),
                (Ok(rest), after) => (Ok(List::Cons(first, Box::new(rest))), after),
            },
        },
        _ => (Ok(List::Nil), s),
    }
}

/// Expressions of one type, one after the other.
pub open spec fn all(from: List<parse::Expression>, ty: ResolvedType, s: ScopeView) -> Outcome<
    List<Expression>,
>
    decreases from,
{
    match from {
        List::Nil => (Ok(List::Nil), s),
        List::Cons(head, tail) => match expression(head, ty, s) {
            (Err(e), after) => (Err(e), after),
            (Ok(first), inside) => match all(*tail, ty, inside) {
                (Err(e), after) => (Err(e), after),
                (Ok(rest), after) => (Ok(List::Cons(first, Box::new(rest))), after),
            },
        },
    }
}

/// A single expression of type `ty`.
pub open spec fn single_expression(
    from: parse::SingleExpression,
    ty: ResolvedType,
    s: ScopeView,
) -> Outcome<SingleExpression>
    decreases from,
{
    match single_inner(from.inner, from.span, ty, s) {
        (Err(e), after) => (Err(e), after),
        (Ok(inner), after) => (Ok(SingleExpression { inner, ty, span: from.span }), after),
    }
}

/// The variant of a single expression of type `ty`.
pub open spec fn single_inner(
    from: parse::SingleExpressionInner,
    span: Span,
    ty: ResolvedType,
    s: ScopeView,
) -> Outcome<SingleExpressionInner>
    decreases from,
{
    let unexpected = Err(rich(Error::ExpressionUnexpectedType(ty), span));
    match from {
        parse::SingleExpressionInner::Boolean(bit) => if ty == ResolvedType::Boolean {
            (Ok(SingleExpressionInner::Constant(Value::Boolean(bit))), s)
        } else {
            (Err(rich(Error::ExpressionTypeMismatch(ty, ResolvedType::Boolean), span)), s)
        },
        parse::SingleExpressionInner::Decimal(text) => match ty {
            ResolvedType::UInt(uint) => match decimal_value(text@, uint) {
                Ok(value) => (Ok(SingleExpressionInner::Constant(Value::UInt(value))), s),
                Err(e) => (Err(rich(e, span)), s),
            },
            _ => (unexpected, s),
        },
        parse::SingleExpressionInner::Binary(text) => match ty {
            ResolvedType::UInt(uint) => match binary_value(text@, uint) {
                Ok(value) => (Ok(SingleExpressionInner::Constant(Value::UInt(value))), s),
                Err(e) => (Err(rich(e, span)), s),
            },
            _ => (unexpected, s),
        },
        parse::SingleExpressionInner::Hexadecimal(text) => match hexadecimal_value(text@, ty) {
            Ok(value) => (Ok(SingleExpressionInner::Constant(value)), s),
            Err(e) => (Err(rich(e, span)), s),
        },
        parse::SingleExpressionInner::Witness(name) => match s.with_witness(name@, ty) {
            (Err(e), after) => (Err(rich(e, span)), after),
            (Ok(_), after) => (Ok(SingleExpressionInner::Witness(name)), after),
        },
        parse::SingleExpressionInner::Parameter(name) => match s.with_parameter(name@, ty) {
            (Err(e), after) => (Err(rich(e, span)), after),
            (Ok(_), after) => (Ok(SingleExpressionInner::Parameter(name)), after),
        },
        parse::SingleExpressionInner::Variable(name) => match variable_type(s.variables, name@) {
            None => (Err(rich(Error::UndefinedVariable(name@), span)), s),
            Some(bound) => if ty == bound {
                (Ok(SingleExpressionInner::Variable(name)), s.with_variable(name@, ty))
            } else {
                (Err(rich(Error::ExpressionTypeMismatch(ty, bound), span)), s)
            },
        },
        parse::SingleExpressionInner::Expression(inner) => match expression(*inner, ty, s) {
            (Err(e), after) => (Err(e), after),
            (Ok(e), after) => (Ok(SingleExpressionInner::Expression(Arc::new(e))), after),
        },
        parse::SingleExpressionInner::Tuple(elements) => match ty {
            ResolvedType::Tuple(tys) if elements@.len() == tys@.len() => match each(
                *elements,
                *tys,
                s,
            ) {
                (Err(e), after) => (Err(e), after),
                (Ok(es), after) => (Ok(SingleExpressionInner::Tuple(Arc::new(es))), after),
            },
            _ => (unexpected, s),
        },
        parse::SingleExpressionInner::Array(elements) => match ty {
            ResolvedType::Array(element_ty, size) if elements@.len() == size => match all(
                *elements,
                *element_ty,
                s,
            ) {
                (Err(e), after) => (Err(e), after),
                (Ok(es), after) => (Ok(SingleExpressionInner::Array(Arc::new(es))), after),
            },
            _ => (unexpected, s),
        },
        parse::SingleExpressionInner::List(elements) => match ty {
            ResolvedType::List(element_ty, bound) if elements@.len() < bound => match all(
                *elements,
                *element_ty,
                s,
            ) {
                (Err(e), after) => (Err(e), after),
                (Ok(es), after) => (Ok(SingleExpressionInner::List(Arc::new(es))), after),
            },
            _ => (unexpected, s),
        },
        parse::SingleExpressionInner::Either(Either::Left(inner)) => match ty {
            ResolvedType::Either(ty_l, _) => match expression(*inner, *ty_l, s) {
                (Err(e), after) => (Err(e), after),
                (Ok(e), after) => (
                    Ok(SingleExpressionInner::Either(Either::Left(Arc::new(e)))),
                    after,
                ),
            },
            _ => (unexpected, s),
        },
        parse::SingleExpressionInner::Either(Either::Right(inner)) => match ty {
            ResolvedType::Either(_, ty_r) => match expression(*inner, *ty_r, s) {
                (Err(e), after) => (Err(e), after),
                (Ok(e), after) => (
                    Ok(SingleExpressionInner::Either(Either::Right(Arc::new(e)))),
                    after,
                ),
            },
            _ => (unexpected, s),
        },
        parse::SingleExpressionInner::Option(Some(inner)) => match ty {
            ResolvedType::Option(ty_some) => match expression(*inner, *ty_some, s) {
                (Err(e), after) => (Err(e), after),
                (Ok(e), after) => (Ok(SingleExpressionInner::Option(Some(Arc::new(e)))), after),
            },
            _ => (unexpected, s),
        },
        parse::SingleExpressionInner::Option(None) => match ty {
            ResolvedType::Option(_) => (Ok(SingleExpressionInner::Option(None)), s),
            _ => (unexpected, s),
        },
        parse::SingleExpressionInner::Call(parse_call) => match call(parse_call, ty, s) {
            (Err(e), after) => (Err(e), after),
            (Ok(c), after) => (Ok(SingleExpressionInner::Call(c)), after),
        },
        parse::SingleExpressionInner::Match(parse_match) => match match_(parse_match, ty, s) {
            (Err(e), after) => (Err(e), after),
            (Ok(m), after) => (Ok(SingleExpressionInner::Match(m)), after),
        },
    }
}

/// A call that returns a value of type `ty`.
pub open spec fn call(from: parse::Call, ty: ResolvedType, s: ScopeView) -> Outcome<Call>
    decreases from,
{
    match call_name(from.name, s) {
        Err(e) => (Err(rich(e, from.span)), s),
        Ok(name) => match checked_arguments(name, from.args@.len(), ty) {
            Err(e) => (Err(rich(e, from.span)), s),
            Ok(tys) => match each(*from.args, tys, tracked_before(name, from.span, s)) {
                (Err(e), after) => (Err(e), after),
                (Ok(args), after) => (
                    Ok(Call { name, args: Arc::new(args), span: from.span }),
                    tracked_after(name, ty, from.span, after),
                ),
            },
        },
    }
}

/// The pattern and the type of the value that a match arm takes apart, if there is a value.
pub open spec fn typed_pattern(pattern: MatchPattern) -> Option<(Pattern, AliasedType)> {
    match pattern {
        MatchPattern::Left(p, ty) => Some((p, ty)),
        MatchPattern::Right(p, ty) => Some((p, ty)),
        MatchPattern::Something(p, ty) => Some((p, ty)),
        _ => None,
    }
}

/// The outcome of binding the value of a match arm to its pattern.
pub open spec fn arm_bindings(pattern: MatchPattern, s: ScopeView) -> (
    Result<(), ErrorView>,
    ScopeView,
) {
    match typed_pattern(pattern) {
        None => (Ok(()), s),
        Some((p, aliased)) => match s.resolved(aliased) {
            Err(e) => (Err(e), s),
            Ok(ty) => match bound_by(p, ty, Map::empty()) {
                Err(e) => (Err(e), s),
                Ok(bindings) => (Ok(()), s.with_variables(bindings)),
            },
        },
    }
}

/// A match arm that returns a value of type `ty`. The arm is a block of its own.
pub open spec fn match_arm(
    from: parse::MatchArm,
    span: Span,
    ty: ResolvedType,
    s: ScopeView,
) -> Outcome<MatchArm>
    decreases from,
{
    match arm_bindings(from.pattern, s.in_block()) {
        (Err(e), after) => (Err(rich(e, span)), after),
        (Ok(_), inside) => match expression(*from.expression, ty, inside) {
            (Err(e), after) => (Err(e), after),
            (Ok(e), after) => (
                Ok(MatchArm { pattern: from.pattern, expression: Arc::new(e) }),
                after.after_block(),
            ),
        },
    }
}

/// A match expression that returns a value of type `ty`.
pub open spec fn match_(from: parse::Match, ty: ResolvedType, s: ScopeView) -> Outcome<Match>
    decreases from,
{
    match scrutinee_type(from.left.pattern, from.right.pattern) {
        None => (
            Err(
                rich(
                    Error::IncompatibleMatchArms(from.left.pattern, from.right.pattern),
                    from.span,
                ),
            ),
            s,
        ),
        Some(aliased) => match s.resolved(aliased) {
            Err(e) => (Err(rich(e, from.span)), s),
            Ok(scrutinee_ty) => match expression(*from.scrutinee, scrutinee_ty, s) {
                (Err(e), after) => (Err(e), after),
                (Ok(scrutinee), s1) => match match_arm(from.left, from.span, ty, s1) {
                    (Err(e), after) => (Err(e), after),
                    (Ok(left), s2) => match match_arm(from.right, from.span, ty, s2) {
                        (Err(e), after) => (Err(e), after),
                        (Ok(right), after) => (
                            Ok(
                                Match {
                                    scrutinee: Arc::new(scrutinee),
                                    left,
                                    right,
                                    span: from.span,
                                },
                            ),
                            after,
                        ),
                    },
                },
            },
        },
    }
}

/// The parameters of a function, or else the first alias in their types that is not in scope.
pub open spec fn params(from: List<parse::FunctionParam>, s: ScopeView) -> Result<
    List<FunctionParam>,
    ErrorView,
>
    decreases from,
{
    match from {
        List::Nil => Ok(List::Nil),
        List::Cons(head, tail) => match s.resolved(head.ty) {
            Err(e) => Err(e),
            Ok(ty) => match params(*tail, s) {
                Err(e) => Err(e),
                Ok(rest) => Ok(
                    List::Cons(
                        FunctionParam { identifier: head.identifier, ty },
                        Box::new(rest),
                    ),
                ),
            },
        },
    }
}

/// The scope with the parameters of a function as variables. Of two parameters of the same name
/// the latter counts.
pub open spec fn with_params(list: List<FunctionParam>, s: ScopeView) -> ScopeView
    decreases list,
{
    match list {
        List::Nil => s,
        List::Cons(head, tail) => with_params(*tail, s.with_variable(head.identifier@, head.ty)),
    }
}

/// The type that a function returns.
pub open spec fn return_type(from: Option<AliasedType>, s: ScopeView) -> Result<
    ResolvedType,
    ErrorView,
> {
    match from {
        Some(aliased) => s.resolved(aliased),
        None => Ok(unit_type()),
    }
}

/// The definition of a function that is not the main function.
pub open spec fn custom_function(from: parse::Function, s: ScopeView) -> Outcome<Function> {
    match params(*from.params, s) {
        Err(e) => (Err(rich(e, from.span)), s),
        Ok(list) => match return_type(from.ret, s) {
            Err(e) => (Err(rich(e, from.span)), s),
            Ok(ret) => match expression(*from.body, ret, with_params(list, s.in_block())) {
                (Err(e), after) => (Err(e), after),
                (Ok(body), after) => match after.after_block().with_function(
                    from.name@,
                    from.visibility,
                    CustomFunction { params: Arc::new(list), body: Arc::new(body) },
                ) {
                    (Err(e), last) => (Err(rich(e, from.span)), last),
                    (Ok(_), last) => (Ok(Function::Custom), last),
                },
            },
        },
    }
}

/// The definition of the main function. It has no parameters, returns nothing and is private.
pub open spec fn main_function(from: parse::Function, s: ScopeView) -> Outcome<Function> {
    if from.params@.len() > 0 {
        (Err(rich(Error::MainNoInputs, from.span)), s)
    } else {
        match return_type(from.ret, s) {
            Err(e) => (Err(rich(e, from.span)), s),
            Ok(ret) => if ret != unit_type() {
                (Err(rich(Error::MainNoOutput, from.span)), s)
            } else if from.visibility == Visibility::Public {
                (Err(rich(Error::MainCannotBePublic, from.span)), s)
            } else {
                match expression(*from.body, unit_type(), s.in_main()) {
                    (Err(e), after) => (Err(e), after),
                    (Ok(body), after) => (Ok(Function::Main(body)), after.after_main()),
                }
            },
        }
    }
}

/// The definition of a function.
pub open spec fn function(from: parse::Function, s: ScopeView) -> Outcome<Function> {
    if from.name@ == "main"@ {
        main_function(from, s)
    } else {
        custom_function(from, s)
    }
}

/// An item.
pub open spec fn item(from: parse::Item, s: ScopeView) -> Outcome<Item>
    decreases from,
{
    match from {
        parse::Item::TypeAlias(alias) => match s.with_alias(alias) {
            (Err(e), after) => (Err(rich(e, alias.span)), after),
            (Ok(_), after) => (Ok(Item::TypeAlias), after),
        },
        parse::Item::Function(parse_function) => match function(parse_function, s) {
            (Err(e), after) => (Err(e), after),
            (Ok(f), after) => (Ok(Item::Function(f)), after),
        },
        parse::Item::Use(decl) => match s.with_use(decl) {
            (Err(e), after) => (Err(rich(e, decl.span)), after),
            (Ok(_), after) => (Ok(Item::Use), after),
        },
        parse::Item::Module(module) => if s.current().submodules.contains_key(module.name@) {
            (Err(rich(Error::ModuleRedefined(module.name@), module.span)), s)
        } else {
            match items(*module.items, s.in_module(module.name@, module.visibility)) {
                (Err(e), after) => (Err(e), after),
                (Ok(list), after) => (Ok(Item::Module(Box::new(list))), after.after_module()),
            }
        },
        parse::Item::Ignored => (Ok(Item::Ignored), s),
    }
}

/// Items, one after the other.
pub open spec fn items(from: List<parse::Item>, s: ScopeView) -> Outcome<List<Item>>
    decreases from,
{
    match from {
        List::Nil => (Ok(List::Nil), s),
        List::Cons(head, tail) => match item(head, s) {
            (Err(e), after) => (Err(e), after),
            (Ok(first), inside) => match items(*tail, inside) {
                (Err(e), after) => (Err(e), after),
                (Ok(rest), after) => (Ok(List::Cons(first, Box::new(rest))), after),
            },
        },
    }
}

/// The main functions among items and in their modules, first to last.
pub open spec fn main_functions(from: List<Item>) -> Seq<Expression>
    decreases from,
{
    match from {
        List::Nil => Seq::empty(),
        List::Cons(head, tail) => main_functions_of(head) + main_functions(*tail),
    }
}

/// The main functions of an item.
pub open spec fn main_functions_of(from: Item) -> Seq<Expression>
    decreases from,
{
    match from {
        Item::Function(Function::Main(e)) => seq![e],
        Item::Module(list) => main_functions(*list),
        _ => Seq::empty(),
    }
}

/// The main function among items, if there is one and no other.
pub open spec fn single_main(from: List<Item>) -> Result<Option<Expression>, ErrorView> {
    let mains = main_functions(from);
    if mains.len() == 0 {
        Ok(None)
    } else if mains.len() == 1 {
        Ok(Some(mains[0]))
    } else {
        Err(Error::FunctionRedefined("main"@))
    }
}

/// The main function of a program and the scope after its items were analyzed.
pub open spec fn program(from: parse::Program, jets: Map<Seq<char>, Jet>) -> Outcome<Expression> {
    match items(*from.items, ScopeView::initial(jets)) {
        (Err(e), after) => (Err(e), after),
        (Ok(list), after) => match single_main(list) {
            Err(e) => (Err(rich(e, from.span)), after),
            Ok(None) => (Err(rich(Error::MainRequired, from.span)), after),
            Ok(Some(main)) => (Ok(main), after),
        },
    }
}

} // verus!
