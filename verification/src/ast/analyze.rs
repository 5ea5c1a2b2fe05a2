//! Generation of the abstract syntax tree from the parse tree.
use crate::ast::frame::{
    call_keeps, expression_keeps, is_outside, item_keeps, items_keep, match_arm_keeps, single_keeps,
    statement_keeps, statements_keep, with_params_keeps,
};
use crate::ast::rules::{
    all, argument_types, assignment, call, call_name, checked_arguments, counter_width, each,
    expression, function, is_foldable, item, items, main_functions, main_functions_of, match_,
    match_arm, one, output_type, param_types, params, program, return_type, single_expression,
    single_main, statement, statements, two, with_params, Outcome,
};
use crate::ast::scope::{Scope, ScopeView};
use crate::ast::{
    Assignment, Call, CallName, CustomFunction, Expression, ExpressionInner, Function,
    FunctionParam, Item, Match, MatchArm, Program, SingleExpression, SingleExpressionInner,
    Statement,
};
use crate::debug::TrackedCallName;
use crate::error::{rich, Error, ErrorView, RichError, RichErrorView, Span, WithSpan};
use crate::jet::{Jet, JetHinter};
use crate::list::{shared, List};
use crate::name_map::NameMap;
use crate::parse;
use crate::parse::{Either, Visibility};
use crate::pattern::MatchPattern;
use crate::structure::StructuralType;
use crate::types::{AliasedType, ResolvedType, UIntType};
use crate::value::{UIntValue, Value};
use std::sync::Arc;
use vstd::prelude::*;

verus! {

/// What a contract says of the outcome of an analysis.
pub open spec fn is_outcome<T>(
    result: Result<T, RichError>,
    after: ScopeView,
    expected: Outcome<T>,
) -> bool {
    &&& after == expected.1
    &&& match result {
        Ok(tree) => expected.0 == Ok::<T, RichErrorView>(tree),
        Err(e) => expected.0 == Err::<T, RichErrorView>(e@),
    }
}

impl Expression {
    /// Analyze an expression from the parse tree
    /// and convert it into an expression of the abstract syntax tree.
    ///
    /// Check if the expression is of the given type.
    pub fn analyze<J: JetHinter<Jet = Jet>>(
        from: &parse::Expression,
        ty: &ResolvedType,
        scope: &mut Scope<J>,
    ) -> (result: Result<Expression, RichError>)
        requires
            old(scope)@.valid(),
        ensures
            final(scope)@.valid(),
            is_outcome(result, final(scope)@, expression(*from, *ty, old(scope)@)),
        decreases from,
    {
        proof {
            expression_keeps(*from, *ty, scope@);
        }
        match &from.inner {
            parse::ExpressionInner::Single(single) => {
                let ast_single = SingleExpression::analyze(single, ty, scope)?;
                Ok(
                    Expression {
                        ty: ty.clone(),
                        inner: ExpressionInner::Single(ast_single),
                        span: from.span,
                    },
                )
            },
            parse::ExpressionInner::Block(parse_statements, parse_last) => {
                scope.enter_block();
                proof {
                    statements_keep(shared(*parse_statements), scope@);
                }
                let ast_statements = Statement::analyze_all(parse_statements, scope)?;
                let ast_expression = match parse_last {
                    Some(last) => {
                        proof {
                            expression_keeps(shared(*last), *ty, scope@);
                        }
                        Some(Arc::new(Expression::analyze(last, ty, scope)?))
                    },
                    None => {
                        if !ty.is_unit() {
                            return Err(
                                Error::ExpressionTypeMismatch(
                                    ty.clone(),
                                    ResolvedType::unit(),
                                ).with_span(from.span),
                            );
                        }
                        None
                    },
                };
                scope.exit_block();
                Ok(
                    Expression {
                        ty: ty.clone(),
                        inner: ExpressionInner::Block(Arc::new(ast_statements), ast_expression),
                        span: from.span,
                    },
                )
            },
        }
    }

    /// Analyze an expression from the parse tree in a const context without predefined variables.
    ///
    /// Check if the expression is of the given type.
    ///
    /// ## Const evaluation
    ///
    /// The returned expression might not be evaluable at compile time.
    pub fn analyze_const<J: JetHinter<Jet = Jet>>(
        from: &parse::Expression,
        ty: &ResolvedType,
        jet_hinter: J,
    ) -> (result: Result<Expression, RichError>)
        ensures
            ({
                let expected = expression(*from, *ty, ScopeView::initial(jet_hinter.jets())).0;
                match result {
                    Ok(e) => expected == Ok::<Expression, RichErrorView>(e),
                    Err(e) => expected == Err::<Expression, RichErrorView>(e@),
                }
            }),
    {
        let mut empty_scope = Scope::new(jet_hinter);
        Expression::analyze(from, ty, &mut empty_scope)
    }

    /// Analyze each expression, which is of the type at the same position.
    fn analyze_each<J: JetHinter<Jet = Jet>>(
        from: &List<parse::Expression>,
        tys: &List<ResolvedType>,
        scope: &mut Scope<J>,
    ) -> (result: Result<List<Expression>, RichError>)
        requires
            old(scope)@.valid(),
        ensures
            final(scope)@.valid(),
            is_outcome(result, final(scope)@, each(*from, *tys, old(scope)@)),
        decreases from,
    {
        match (from, tys) {
            (List::Cons(head, tail), List::Cons(ty, rest_tys)) => {
                let first = Expression::analyze(head, ty, scope)?;
                let rest = Expression::analyze_each(tail, rest_tys, scope)?;
                Ok(List::Cons(first, Box::new(rest)))
            },
            _ => Ok(List::Nil),
        }
    }

    /// Analyze expressions, all of which are of the same type.
    fn analyze_all<J: JetHinter<Jet = Jet>>(
        from: &List<parse::Expression>,
        ty: &ResolvedType,
        scope: &mut Scope<J>,
    ) -> (result: Result<List<Expression>, RichError>)
        requires
            old(scope)@.valid(),
        ensures
            final(scope)@.valid(),
            is_outcome(result, final(scope)@, all(*from, *ty, old(scope)@)),
        decreases from,
    {
        match from {
            List::Nil => Ok(List::Nil),
            List::Cons(head, tail) => {
                let first = Expression::analyze(head, ty, scope)?;
                let rest = Expression::analyze_all(tail, ty, scope)?;
                Ok(List::Cons(first, Box::new(rest)))
            },
        }
    }
}

impl Statement {
    /// Analyze the statements of a block, one after the other.
    fn analyze_all<J: JetHinter<Jet = Jet>>(
        from: &List<parse::Statement>,
        scope: &mut Scope<J>,
    ) -> (result:
        Result<List<Statement>, RichError>)
        requires
            old(scope)@.valid(),
            old(scope)@.variables.len() > 0,
        ensures
            final(scope)@.valid(),
            is_outcome(result, final(scope)@, statements(*from, old(scope)@)),
        decreases from,
    {
        match from {
            List::Nil => Ok(List::Nil),
            List::Cons(head, tail) => {
                proof {
                    statement_keeps(*head, scope@);
                }
                let first = Statement::analyze(head, scope)?;
                let rest = Statement::analyze_all(tail, scope)?;
                Ok(List::Cons(first, Box::new(rest)))
            },
        }
    }

    /// Analyze a statement. Statements return nothing.
    pub fn analyze<J: JetHinter<Jet = Jet>>(
        from: &parse::Statement,
        scope: &mut Scope<J>,
    ) -> (result: Result<
        Statement,
        RichError,
    >)
        requires
            old(scope)@.valid(),
            old(scope)@.variables.len() > 0,
        ensures
            final(scope)@.valid(),
            is_outcome(result, final(scope)@, statement(*from, old(scope)@)),
        decreases from,
    {
        match from {
            parse::Statement::Assignment(a) => Ok(
                Statement::Assignment(Assignment::analyze(a, scope)?),
            ),
            parse::Statement::Expression(e) => Ok(
                Statement::Expression(Expression::analyze(e, &ResolvedType::unit(), scope)?),
            ),
        }
    }
}

impl Assignment {
    /// Analyze an assignment.
    ///
    /// The assignment is a statement that returns nothing.
    ///
    /// However, the expression evaluated in the assignment does have a type,
    /// namely the type specified in the assignment.
    pub fn analyze<J: JetHinter<Jet = Jet>>(
        from: &parse::Assignment,
        scope: &mut Scope<J>,
    ) -> (result: Result<
        Assignment,
        RichError,
    >)
        requires
            old(scope)@.valid(),
            old(scope)@.variables.len() > 0,
        ensures
            final(scope)@.valid(),
            is_outcome(result, final(scope)@, assignment(*from, old(scope)@)),
        decreases from,
    {
        let ty = scope.resolve(&from.ty).with_span(from.span)?;
        proof {
            expression_keeps(from.expression, ty, scope@);
        }
        let ast_expression = Expression::analyze(&from.expression, &ty, scope)?;
        let typed_variables = from.pattern.is_of_type(&ty).with_span(from.span)?;
        scope.insert_variables(typed_variables);
        Ok(
            Assignment {
                pattern: from.pattern.clone(),
                expression: ast_expression,
                span: from.span,
            },
        )
    }
}

impl SingleExpression {
    /// Analyze a single expression.
    ///
    /// Check if the expression is of the given type.
    pub fn analyze<J: JetHinter<Jet = Jet>>(
        from: &parse::SingleExpression,
        ty: &ResolvedType,
        scope: &mut Scope<J>,
    ) -> (result: Result<SingleExpression, RichError>)
        requires
            old(scope)@.valid(),
        ensures
            final(scope)@.valid(),
            is_outcome(result, final(scope)@, single_expression(*from, *ty, old(scope)@)),
        decreases from,
    {
        proof {
            single_keeps(*from, *ty, scope@);
        }
        let inner = match &from.inner {
            parse::SingleExpressionInner::Boolean(bit) => {
                match ty {
                    ResolvedType::Boolean => {},
                    _ => {
                        return Err(
                            Error::ExpressionTypeMismatch(
                                ty.clone(),
                                ResolvedType::Boolean,
                            ).with_span(from.span),
                        );
                    },
                }
                SingleExpressionInner::Constant(Value::Boolean(*bit))
            },
            parse::SingleExpressionInner::Decimal(decimal) => {
                let uint = as_integer(ty).with_span(from.span)?;
                let value = UIntValue::parse_decimal(decimal.as_str(), uint).with_span(from.span)?;
                SingleExpressionInner::Constant(Value::UInt(value))
            },
            parse::SingleExpressionInner::Binary(bits) => {
                let uint = as_integer(ty).with_span(from.span)?;
                let value = UIntValue::parse_binary(bits.as_str(), uint).with_span(from.span)?;
                SingleExpressionInner::Constant(Value::UInt(value))
            },
            parse::SingleExpressionInner::Hexadecimal(bytes) => {
                let value = Value::parse_hexadecimal(bytes.as_str(), ty).with_span(from.span)?;
                SingleExpressionInner::Constant(value)
            },
            parse::SingleExpressionInner::Witness(name) => {
                scope.insert_witness(name.clone(), ty.clone()).with_span(from.span)?;
                SingleExpressionInner::Witness(name.clone())
            },
            parse::SingleExpressionInner::Parameter(name) => {
                scope.insert_parameter(name.clone(), ty.clone()).with_span(from.span)?;
                SingleExpressionInner::Parameter(name.clone())
            },
            parse::SingleExpressionInner::Variable(identifier) => {
                match scope.get_variable(identifier) {
                    None => {
                        return Err(
                            Error::UndefinedVariable(identifier.text.clone()).with_span(from.span),
                        );
                    },
                    Some(bound_ty) => {
                        if !ty.same(bound_ty) {
                            return Err(
                                Error::ExpressionTypeMismatch(
                                    ty.clone(),
                                    bound_ty.clone(),
                                ).with_span(from.span),
                            );
                        }
                    },
                }
                scope.insert_variable(identifier.clone(), ty.clone());
                SingleExpressionInner::Variable(identifier.clone())
            },
            parse::SingleExpressionInner::Expression(inner) => SingleExpressionInner::Expression(
                Arc::new(Expression::analyze(inner, ty, scope)?),
            ),
            parse::SingleExpressionInner::Tuple(tuple) => {
                if let ResolvedType::Tuple(tys) = ty {
                    if !tuple.same_len(tys) {
                        return Err(unexpected_type(ty).with_span(from.span));
                    }
                    SingleExpressionInner::Tuple(
                        Arc::new(Expression::analyze_each(tuple, tys, scope)?),
                    )
                } else {
                    return Err(unexpected_type(ty).with_span(from.span));
                }
            },
            parse::SingleExpressionInner::Array(array) => {
                if let ResolvedType::Array(el_ty, size) = ty {
                    if !array.has_len(*size) {
                        return Err(unexpected_type(ty).with_span(from.span));
                    }
                    SingleExpressionInner::Array(
                        Arc::new(Expression::analyze_all(array, el_ty, scope)?),
                    )
                } else {
                    return Err(unexpected_type(ty).with_span(from.span));
                }
            },
            parse::SingleExpressionInner::List(list) => {
                if let ResolvedType::List(el_ty, bound) = ty {
                    if list.has_at_least(*bound) {
                        return Err(unexpected_type(ty).with_span(from.span));
                    }
                    SingleExpressionInner::List(
                        Arc::new(Expression::analyze_all(list, el_ty, scope)?),
                    )
                } else {
                    return Err(unexpected_type(ty).with_span(from.span));
                }
            },
            parse::SingleExpressionInner::Either(either) => {
                if let ResolvedType::Either(ty_l, ty_r) = ty {
                    match either {
                        Either::Left(parse_l) => SingleExpressionInner::Either(
                            Either::Left(Arc::new(Expression::analyze(parse_l, ty_l, scope)?)),
                        ),
                        Either::Right(parse_r) => SingleExpressionInner::Either(
                            Either::Right(Arc::new(Expression::analyze(parse_r, ty_r, scope)?)),
                        ),
                    }
                } else {
                    return Err(unexpected_type(ty).with_span(from.span));
                }
            },
            parse::SingleExpressionInner::Option(maybe_parse) => {
                if let ResolvedType::Option(ty_some) = ty {
                    match maybe_parse {
                        Some(parse) => SingleExpressionInner::Option(
                            Some(Arc::new(Expression::analyze(parse, ty_some, scope)?)),
                        ),
                        None => SingleExpressionInner::Option(None),
                    }
                } else {
                    return Err(unexpected_type(ty).with_span(from.span));
                }
            },
            parse::SingleExpressionInner::Call(c) => SingleExpressionInner::Call(
                Call::analyze(c, ty, scope)?,
            ),
            parse::SingleExpressionInner::Match(m) => SingleExpressionInner::Match(
                Match::analyze(m, ty, scope)?,
            ),
        };
        Ok(SingleExpression { inner, ty: ty.clone(), span: from.span })
    }
}

/// The error of an expression that cannot be of the given type.
fn unexpected_type(ty: &ResolvedType) -> (error: Error)
    ensures
        error@ == ErrorView::ExpressionUnexpectedType(*ty),
{
    Error::ExpressionUnexpectedType(ty.clone())
}

/// Get the integer type that a type is.
///
/// ## Errors
///
/// * [`Error::ExpressionUnexpectedType`] The type is no integer type.
fn as_integer(ty: &ResolvedType) -> (result: Result<UIntType, Error>)
    ensures
        match result {
            Ok(uint) => *ty == ResolvedType::UInt(uint),
            Err(e) => !(ty is UInt) && e@ == ErrorView::ExpressionUnexpectedType(*ty),
        },
{
    match ty {
        ResolvedType::UInt(uint) => Ok(*uint),
        _ => Err(unexpected_type(ty)),
    }
}

/// The function of a fold has two parameters, and that of a loop has three.
pub open spec fn has_arity(name: CallName) -> bool {
    match name {
        CallName::Fold(f, _) => f.params@.len() == 2,
        CallName::ArrayFold(f, _) => f.params@.len() == 2,
        CallName::ForWhile(f, _) => f.params@.len() == 3,
        _ => true,
    }
}

/// Get the first two parameters of a function.
fn first_two(params: &List<FunctionParam>) -> (result: (&FunctionParam, &FunctionParam))
    requires
        params@.len() >= 2,
    ensures
        *result.0 == params@[0],
        *result.1 == params@[1],
{
    proof {
        reveal_with_fuel(List::seq, 3);
    }
    if let List::Cons(first, rest) = params {
        if let List::Cons(second, _) = &**rest {
            return (first, second);
        }
    }
    vstd::pervasive::unreached()
}

/// Get the first three parameters of a function that has no others.
fn only_three(params: &List<FunctionParam>) -> (result: Option<
    (&FunctionParam, &FunctionParam, &FunctionParam),
>)
    ensures
        match result {
            Some(three) => {
                &&& params@.len() == 3
                &&& *three.0 == params@[0]
                &&& *three.1 == params@[1]
                &&& *three.2 == params@[2]
            },
            None => params@.len() != 3,
        },
{
    proof {
        reveal_with_fuel(List::seq, 5);
    }
    if let List::Cons(first, rest) = params {
        if let List::Cons(second, rest) = &**rest {
            if let List::Cons(third, rest) = &**rest {
                if rest.is_empty() {
                    return Some((first, second, third));
                }
            }
        }
    }
    None
}

/// Collect the types of the parameters of a function.
fn collect_param_types(params: &List<FunctionParam>) -> (types: List<ResolvedType>)
    ensures
        types == param_types(*params),
    decreases params,
{
    match params {
        List::Nil => List::Nil,
        List::Cons(head, tail) => List::Cons(head.ty.clone(), Box::new(collect_param_types(tail))),
    }
}

/// Make a list of one type.
fn list_of_one(ty: ResolvedType) -> (list: List<ResolvedType>)
    ensures
        list == one(ty),
{
    List::Cons(ty, Box::new(List::Nil))
}

/// Make a list of two types.
fn list_of_two(first: ResolvedType, second: ResolvedType) -> (list: List<ResolvedType>)
    ensures
        list == two(first, second),
{
    List::Cons(first, Box::new(list_of_one(second)))
}

impl CustomFunction {
    /// Check whether the function can be used in a fold.
    pub fn is_foldable(&self) -> (result: bool)
        ensures
            result == is_foldable(*self),
    {
        self.params.has_len(2) && first_two(&self.params).1.ty.same(&self.body.ty)
    }

    /// The number of bits of the counter, if the function can be used in a loop.
    ///
    /// Loops for `u32` or higher are disabled since no one will want to run 2^32, or about
    /// 4 billion iterations.
    pub fn counter_width(&self) -> (width: Option<usize>)
        ensures
            width == counter_width(*self),
    {
        let (accumulator, _, counter) = match only_three(&self.params) {
            Some(three) => three,
            None => {
                return None;
            },
        };
        if let ResolvedType::Either(_, out_r) = &self.body.ty {
            if out_r.same(&accumulator.ty) {
                return match &counter.ty {
                    ResolvedType::UInt(UIntType::U1) => Some(1),
                    ResolvedType::UInt(UIntType::U2) => Some(2),
                    ResolvedType::UInt(UIntType::U4) => Some(4),
                    ResolvedType::UInt(UIntType::U8) => Some(8),
                    ResolvedType::UInt(UIntType::U16) => Some(16),
                    _ => None,
                };
            }
        }
        None
    }
}

impl CallName {
    /// Analyze the name of a called function.
    pub fn analyze<J: JetHinter<Jet = Jet>>(
        from: &parse::Call,
        scope: &Scope<J>,
    ) -> (result: Result<
        CallName,
        RichError,
    >)
        requires
            scope@.valid(),
        ensures
            match (result, call_name(from.name, scope@)) {
                (Ok(name), Ok(expected)) => name == expected && has_arity(name),
                (Err(e), Err(expected)) => e@ == rich(expected, from.span),
                _ => false,
            },
    {
        match &from.name {
            parse::CallName::Jet(name) => {
                if let Some(jet) = scope.jet_hinter.parse_jet(name.as_inner()) {
                    if !jet.disabled {
                        return Ok(CallName::Jet(jet));
                    }
                }
                Err(Error::JetDoesNotExist(name.text.clone()).with_span(from.span))
            },
            parse::CallName::UnwrapLeft(right_ty) => Ok(
                CallName::UnwrapLeft(scope.resolve(right_ty).with_span(from.span)?),
            ),
            parse::CallName::UnwrapRight(left_ty) => Ok(
                CallName::UnwrapRight(scope.resolve(left_ty).with_span(from.span)?),
            ),
            parse::CallName::IsNone(some_ty) => Ok(
                CallName::IsNone(scope.resolve(some_ty).with_span(from.span)?),
            ),
            parse::CallName::Unwrap => Ok(CallName::Unwrap),
            parse::CallName::Assert => Ok(CallName::Assert),
            parse::CallName::Panic => Ok(CallName::Panic),
            parse::CallName::Debug => Ok(CallName::Debug),
            parse::CallName::TypeCast(source) => Ok(
                CallName::TypeCast(scope.resolve(source).with_span(from.span)?),
            ),
            parse::CallName::Custom(name) => Ok(
                CallName::Custom(scope.get_function(name).with_span(from.span)?),
            ),
            parse::CallName::ArrayFold(name, size) => {
                let function = scope.get_function(name).with_span(from.span)?;
                // A function that is used in a array fold has the signature:
                //   fn f(element: E, accumulator: A) -> A
                if !function.is_foldable() {
                    return Err(Error::FunctionNotFoldable(name.text.clone()).with_span(from.span));
                }
                Ok(CallName::ArrayFold(function, *size))
            },
            parse::CallName::Fold(name, bound) => {
                let function = scope.get_function(name).with_span(from.span)?;
                // A function that is used in a list fold has the signature:
                //   fn f(element: E, accumulator: A) -> A
                if !function.is_foldable() {
                    return Err(Error::FunctionNotFoldable(name.text.clone()).with_span(from.span));
                }
                Ok(CallName::Fold(function, *bound))
            },
            parse::CallName::ForWhile(name) => {
                let function = scope.get_function(name).with_span(from.span)?;
                // A function that is used in a for-while loop has the signature:
                //   fn f(accumulator: A, readonly_context: C, counter: u{N}) -> Either<B, A>
                // where
                //   N is a power of two
                match function.counter_width() {
                    Some(width) => Ok(CallName::ForWhile(function, width)),
                    None => Err(
                        Error::FunctionNotLoopable(name.text.clone()).with_span(from.span),
                    ),
                }
            },
        }
    }

    /// The types of the arguments that the function takes, if it returns a value of type `ty`.
    ///
    /// ## Errors
    ///
    /// * [`Error::UndefinedAlias`] The signature of a jet contains an alias that the language does
    ///   not define.
    fn argument_types(&self, ty: &ResolvedType) -> (result: Result<List<ResolvedType>, Error>)
        requires
            has_arity(*self),
        ensures
            match (result, argument_types(*self, *ty)) {
                (Ok(tys), Ok(expected)) => tys == expected,
                (Err(e), Err(expected)) => e@ == expected,
                _ => false,
            },
    {
        match self {
            CallName::Jet(jet) => match AliasedType::resolve_all(
                &jet.source_type,
                &NameMap::new(),
            ) {
                Ok(tys) => Ok(tys),
                Err(alias) => Err(Error::UndefinedAlias(alias.text.clone())),
            },
            CallName::UnwrapLeft(right) => Ok(
                list_of_one(ResolvedType::Either(Arc::new(ty.clone()), Arc::new(right.clone()))),
            ),
            CallName::UnwrapRight(left) => Ok(
                list_of_one(ResolvedType::Either(Arc::new(left.clone()), Arc::new(ty.clone()))),
            ),
            CallName::IsNone(some) => Ok(
                list_of_one(ResolvedType::Option(Arc::new(some.clone()))),
            ),
            CallName::Unwrap => Ok(list_of_one(ResolvedType::Option(Arc::new(ty.clone())))),
            CallName::Assert => Ok(list_of_one(ResolvedType::Boolean)),
            CallName::Panic => Ok(List::Nil),
            CallName::Debug => Ok(list_of_one(ty.clone())),
            CallName::TypeCast(source) => Ok(list_of_one(source.clone())),
            CallName::Custom(function) => Ok(collect_param_types(&function.params)),
            CallName::Fold(function, bound) => {
                // A list fold has the signature:
                //   fold::<f, N>(list: List<E, N>, initial_accumulator: A) -> A
                // where
                //   fn f(element: E, accumulator: A) -> A
                let (element, accumulator) = first_two(&function.params);
                let list_ty = ResolvedType::List(Arc::new(element.ty.clone()), *bound);
                Ok(list_of_two(list_ty, accumulator.ty.clone()))
            },
            CallName::ArrayFold(function, size) => {
                // An array fold has the signature:
                //   array_fold::<f, N>(array: [E; N], initial_accumulator: A) -> A
                // where
                //   fn f(element: E, accumulator: A) -> A
                let (element, accumulator) = first_two(&function.params);
                let array_ty = ResolvedType::Array(Arc::new(element.ty.clone()), *size);
                Ok(list_of_two(array_ty, accumulator.ty.clone()))
            },
            CallName::ForWhile(function, _) => {
                // A for-while loop has the signature:
                //   for_while::<f>(initial_accumulator: A, readonly_context: C) -> Either<B, A>
                // where
                //   fn f(accumulator: A, readonly_context: C, counter: u{N}) -> Either<B, A>
                //   N is a power of two
                let (accumulator, context) = first_two(&function.params);
                Ok(list_of_two(accumulator.ty.clone(), context.ty.clone()))
            },
        }
    }

    /// The type that the function returns, if the function fixes it.
    ///
    /// ## Errors
    ///
    /// * [`Error::UndefinedAlias`] The signature of a jet contains an alias that the language does
    ///   not define.
    fn output_type(&self) -> (result: Result<Option<ResolvedType>, Error>)
        ensures
            match (result, output_type(*self)) {
                (Ok(out), Ok(expected)) => out == expected,
                (Err(e), Err(expected)) => e@ == expected,
                _ => false,
            },
    {
        match self {
            CallName::Jet(jet) => match jet.target_type.resolve_builtin() {
                Ok(out) => Ok(Some(out)),
                Err(alias) => Err(Error::UndefinedAlias(alias.text.clone())),
            },
            CallName::IsNone(_) => Ok(Some(ResolvedType::Boolean)),
            CallName::Assert => Ok(Some(ResolvedType::unit())),
            CallName::Custom(function) => Ok(Some(function.body.ty.clone())),
            CallName::Fold(function, _) => Ok(Some(function.body.ty.clone())),
            CallName::ArrayFold(function, _) => Ok(Some(function.body.ty.clone())),
            CallName::ForWhile(function, _) => Ok(Some(function.body.ty.clone())),
            // panic! allows every output type because it will never return anything
            _ => Ok(None),
        }
    }

    /// Check the number of arguments and the output type of a call.
    ///
    /// Return the types of the arguments.
    ///
    /// ## Errors
    ///
    /// * [`Error::InvalidCast`] A cast is between types of different structure.
    /// * [`Error::InvalidNumberOfArguments`] The function takes another number of arguments.
    /// * [`Error::ExpressionTypeMismatch`] The function returns a value of another type.
    /// * [`Error::UndefinedAlias`] The signature of a jet contains an alias that the language does
    ///   not define.
    fn check_arguments(&self, args: &List<parse::Expression>, ty: &ResolvedType) -> (result: Result<
        List<ResolvedType>,
        Error,
    >)
        requires
            has_arity(*self),
        ensures
            match (result, checked_arguments(*self, args@.len(), *ty)) {
                (Ok(tys), Ok(expected)) => tys == expected,
                (Err(e), Err(expected)) => e@ == expected,
                _ => false,
            },
    {
        if let CallName::TypeCast(source) = self {
            if !StructuralType::of(source).same(&StructuralType::of(ty)) {
                return Err(Error::InvalidCast(source.clone(), ty.clone()));
            }
        }
        let tys = self.argument_types(ty)?;
        if !args.same_len(&tys) {
            return Err(Error::InvalidNumberOfArguments(tys.len(), args.len()));
        }
        if let Some(out_ty) = self.output_type()? {
            if !out_ty.same(ty) {
                return Err(Error::ExpressionTypeMismatch(ty.clone(), out_ty));
            }
        }
        Ok(tys)
    }
}

impl Call {
    /// Analyze a call.
    ///
    /// Check if the call returns a value of the given type.
    pub fn analyze<J: JetHinter<Jet = Jet>>(
        from: &parse::Call,
        ty: &ResolvedType,
        scope: &mut Scope<J>,
    ) -> (result: Result<Call, RichError>)
        requires
            old(scope)@.valid(),
        ensures
            final(scope)@.valid(),
            is_outcome(result, final(scope)@, call(*from, *ty, old(scope)@)),
        decreases from,
    {
        proof {
            call_keeps(*from, *ty, scope@);
        }
        let name = CallName::analyze(from, scope)?;
        let tys = name.check_arguments(&from.args, ty).with_span(from.span)?;
        match &name {
            CallName::Jet(_) => scope.track_call(from.span, TrackedCallName::Jet),
            CallName::Unwrap => scope.track_call(from.span, TrackedCallName::Unwrap),
            CallName::Assert => scope.track_call(from.span, TrackedCallName::Assert),
            CallName::Panic => scope.track_call(from.span, TrackedCallName::Panic),
            _ => {},
        }
        let args = Expression::analyze_each(&from.args, &tys, scope)?;
        match &name {
            CallName::UnwrapLeft(right) => {
                let arg_ty = ResolvedType::Either(Arc::new(ty.clone()), Arc::new(right.clone()));
                scope.track_call(from.span, TrackedCallName::UnwrapLeft(arg_ty));
            },
            CallName::UnwrapRight(left) => {
                let arg_ty = ResolvedType::Either(Arc::new(left.clone()), Arc::new(ty.clone()));
                scope.track_call(from.span, TrackedCallName::UnwrapRight(arg_ty));
            },
            CallName::Debug => scope.track_call(from.span, TrackedCallName::Debug(ty.clone())),
            _ => {},
        }
        Ok(Call { name, args: Arc::new(args), span: from.span })
    }
}

impl MatchArm {
    /// Analyze a match arm.
    ///
    /// Check if the arm returns a value of the given type.
    fn analyze<J: JetHinter<Jet = Jet>>(
        from: &parse::MatchArm,
        span: Span,
        ty: &ResolvedType,
        scope: &mut Scope<J>,
    ) -> (result: Result<MatchArm, RichError>)
        requires
            old(scope)@.valid(),
        ensures
            final(scope)@.valid(),
            is_outcome(result, final(scope)@, match_arm(*from, span, *ty, old(scope)@)),
        decreases from,
    {
        proof {
            match_arm_keeps(*from, span, *ty, scope@);
        }
        scope.enter_block();
        let typed_pattern = match &from.pattern {
            MatchPattern::Left(p, aliased) => Some((p, aliased)),
            MatchPattern::Right(p, aliased) => Some((p, aliased)),
            MatchPattern::Something(p, aliased) => Some((p, aliased)),
            _ => None,
        };
        if let Some((p, aliased)) = typed_pattern {
            let pattern_ty = scope.resolve(aliased).with_span(span)?;
            let typed_variables = p.is_of_type(&pattern_ty).with_span(span)?;
            scope.insert_variables(typed_variables);
        }
        proof {
            expression_keeps(shared(from.expression), *ty, scope@);
        }
        let ast_expression = Expression::analyze(&from.expression, ty, scope)?;
        scope.exit_block();
        Ok(MatchArm { pattern: from.pattern.clone(), expression: Arc::new(ast_expression) })
    }
}

impl Match {
    /// Analyze a match expression.
    ///
    /// Check if the expression is of the given type.
    pub fn analyze<J: JetHinter<Jet = Jet>>(
        from: &parse::Match,
        ty: &ResolvedType,
        scope: &mut Scope<J>,
    ) -> (result: Result<Match, RichError>)
        requires
            old(scope)@.valid(),
        ensures
            final(scope)@.valid(),
            is_outcome(result, final(scope)@, match_(*from, *ty, old(scope)@)),
        decreases from,
    {
        let aliased = match from.scrutinee_type() {
            Some(aliased) => aliased,
            None => {
                return Err(
                    Error::IncompatibleMatchArms(
                        from.left.pattern.clone(),
                        from.right.pattern.clone(),
                    ).with_span(from.span),
                );
            },
        };
        let scrutinee_ty = scope.resolve(&aliased).with_span(from.span)?;
        let scrutinee = Expression::analyze(&from.scrutinee, &scrutinee_ty, scope)?;
        let left = MatchArm::analyze(&from.left, from.span, ty, scope)?;
        let right = MatchArm::analyze(&from.right, from.span, ty, scope)?;
        Ok(Match { scrutinee: Arc::new(scrutinee), left, right, span: from.span })
    }
}

impl FunctionParam {
    /// Analyze the parameters of a function.
    ///
    /// ## Errors
    ///
    /// * [`Error::UndefinedAlias`] The type of a parameter refers to an alias that is not defined.
    fn analyze_all<J: JetHinter<Jet = Jet>>(
        from: &List<parse::FunctionParam>,
        scope: &Scope<J>,
    ) -> (result:
        Result<List<FunctionParam>, Error>)
        requires
            scope@.valid(),
        ensures
            match (result, params(*from, scope@)) {
                (Ok(list), Ok(expected)) => list == expected,
                (Err(e), Err(expected)) => e@ == expected,
                _ => false,
            },
        decreases from,
    {
        match from {
            List::Nil => Ok(List::Nil),
            List::Cons(head, tail) => {
                let identifier = head.identifier.clone();
                let ty = scope.resolve(&head.ty)?;
                let rest = FunctionParam::analyze_all(tail, scope)?;
                Ok(List::Cons(FunctionParam { identifier, ty }, Box::new(rest)))
            },
        }
    }
}

/// Make the parameters of a function variables of the current block.
fn insert_params<J: JetHinter<Jet = Jet>>(params: &List<FunctionParam>, scope: &mut Scope<J>)
    requires
        old(scope)@.variables.len() > 0,
    ensures
        final(scope)@ == with_params(*params, old(scope)@),
    decreases params,
{
    if let List::Cons(head, tail) = params {
        scope.insert_variable(head.identifier.clone(), head.ty.clone());
        insert_params(tail, scope);
    }
}

/// Resolve the type that a function returns.
///
/// ## Errors
///
/// * [`Error::UndefinedAlias`] The type refers to an alias that is not defined.
fn resolve_return_type<J: JetHinter<Jet = Jet>>(
    ret: &Option<AliasedType>,
    scope: &Scope<J>,
) -> (result:
    Result<ResolvedType, Error>)
    requires
        scope@.valid(),
    ensures
        match (result, return_type(*ret, scope@)) {
            (Ok(ty), Ok(expected)) => ty == expected,
            (Err(e), Err(expected)) => e@ == expected,
            _ => false,
        },
{
    match ret {
        Some(aliased) => scope.resolve(aliased),
        None => Ok(ResolvedType::unit()),
    }
}

impl Function {
    /// Analyze the definition of a function.
    ///
    /// ## Errors
    ///
    /// * [`Error::MainNoInputs`] The main function has parameters.
    /// * [`Error::MainNoOutput`] The main function returns something.
    /// * [`Error::MainCannotBePublic`] The main function is public.
    /// * [`Error::FunctionRedefined`] Another function of the module has the same name.
    /// * Propagates errors of the signature and of the body.
    pub fn analyze<J: JetHinter<Jet = Jet>>(
        from: &parse::Function,
        scope: &mut Scope<J>,
    ) -> (result: Result<
        Function,
        RichError,
    >)
        requires
            old(scope)@.valid(),
            is_outside(old(scope)@),
        ensures
            final(scope)@.valid(),
            is_outcome(result, final(scope)@, function(*from, old(scope)@)),
    {
        let ghost start = scope@;
        if !from.name.is("main") {
            let params = FunctionParam::analyze_all(&from.params, scope).with_span(from.span)?;
            let ret = resolve_return_type(&from.ret, scope).with_span(from.span)?;
            scope.enter_block();
            proof {
                with_params_keeps(params, scope@);
            }
            insert_params(&params, scope);
            proof {
                expression_keeps(shared(from.body), ret, scope@);
            }
            let body = Expression::analyze(&from.body, &ret, scope)?;
            scope.exit_block();
            let function = CustomFunction { params: Arc::new(params), body: Arc::new(body) };
            scope.insert_function(from.name.clone(), from.visibility, function).with_span(
                from.span,
            )?;
            return Ok(Function::Custom);
        }
        if !from.params.is_empty() {
            return Err(Error::MainNoInputs.with_span(from.span));
        }
        let ret = resolve_return_type(&from.ret, scope).with_span(from.span)?;
        if !ret.is_unit() {
            return Err(Error::MainNoOutput.with_span(from.span));
        }
        if from.visibility == Visibility::Public {
            return Err(Error::MainCannotBePublic.with_span(from.span));
        }
        scope.enter_main();
        proof {
            expression_keeps(shared(from.body), ret, scope@);
        }
        let body = Expression::analyze(&from.body, &ret, scope)?;
        scope.exit_main();
        Ok(Function::Main(body))
    }
}

impl Item {
    /// Analyze an item.
    ///
    /// ## Errors
    ///
    /// * [`Error::ModuleRedefined`] Another module of the module has the same name.
    /// * Propagates errors of the item and of the items of a module.
    pub fn analyze<J: JetHinter<Jet = Jet>>(
        from: &parse::Item,
        scope: &mut Scope<J>,
    ) -> (result: Result<
        Item,
        RichError,
    >)
        requires
            old(scope)@.valid(),
            is_outside(old(scope)@),
        ensures
            final(scope)@.valid(),
            is_outcome(result, final(scope)@, item(*from, old(scope)@)),
        decreases from,
    {
        match from {
            parse::Item::TypeAlias(alias) => {
                scope.insert_alias(alias.clone()).with_span(alias.span)?;
                Ok(Item::TypeAlias)
            },
            parse::Item::Function(f) => Ok(Item::Function(Function::analyze(f, scope)?)),
            parse::Item::Use(use_decl) => {
                scope.resolve_use(use_decl).with_span(use_decl.span)?;
                Ok(Item::Use)
            },
            parse::Item::Module(module) => {
                scope.enter_module(module.name.clone(), module.visibility).with_span(
                    module.span,
                )?;
                proof {
                    items_keep(shared(module.items), scope@);
                }
                let analyzed_children = Item::analyze_all(&module.items, scope)?;
                scope.exit_module();
                Ok(Item::Module(Box::new(analyzed_children)))
            },
            parse::Item::Ignored => Ok(Item::Ignored),
        }
    }

    /// Analyze items, one after the other.
    fn analyze_all<J: JetHinter<Jet = Jet>>(
        from: &List<parse::Item>,
        scope: &mut Scope<J>,
    ) -> (result: Result<
        List<Item>,
        RichError,
    >)
        requires
            old(scope)@.valid(),
            is_outside(old(scope)@),
        ensures
            final(scope)@.valid(),
            is_outcome(result, final(scope)@, items(*from, old(scope)@)),
        decreases from,
    {
        match from {
            List::Nil => Ok(List::Nil),
            List::Cons(head, tail) => {
                proof {
                    item_keeps(*head, scope@);
                }
                let first = Item::analyze(head, scope)?;
                let rest = Item::analyze_all(tail, scope)?;
                Ok(List::Cons(first, Box::new(rest)))
            },
        }
    }
}

impl Program {
    /// Analyze a program.
    ///
    /// ## Errors
    ///
    /// * [`Error::MainRequired`] There is no main function.
    /// * [`Error::FunctionRedefined`] There is more than one main function.
    /// * Propagates errors of the items.
    pub fn analyze<J: JetHinter<Jet = Jet>>(
        from: &parse::Program,
        jet_hinter: J,
    ) -> (result: Result<
        Program,
        RichError,
    >)
        ensures
            ({
                let expected = program(*from, jet_hinter.jets());
                match result {
                    Ok(p) => {
                        &&& expected.0 == Ok::<Expression, RichErrorView>(p.main)
                        &&& p.parameters@ == expected.1.parameters
                        &&& p.witness_types@ == expected.1.witnesses
                        &&& p.call_tracker@ == expected.1.calls
                    },
                    Err(e) => expected.0 == Err::<Expression, RichErrorView>(e@),
                }
            }),
    {
        let mut scope = Scope::new(jet_hinter);
        let items = Item::analyze_all(&from.items, &mut scope)?;
        let (parameters, witness_types, call_tracker) = scope.destruct();
        match Program::extract_single_main(&items) {
            // There is a duplicate of the main function.
            Err(error) => Err(error.with_span(from.span)),
            Ok(None) => Err(Error::MainRequired.with_span(from.span)),
            Ok(Some(main)) => Ok(
                Program { main, parameters, witness_types, call_tracker: Arc::new(call_tracker) },
            ),
        }
    }

    /// Find the main function among items and in their modules.
    ///
    /// ## Errors
    ///
    /// * [`Error::FunctionRedefined`] There is more than one main function.
    fn extract_single_main(items: &List<Item>) -> (result: Result<Option<Expression>, Error>)
        ensures
            match (result, single_main(*items)) {
                (Ok(main), Ok(expected)) => main == expected,
                (Err(e), Err(expected)) => e@ == expected,
                _ => false,
            },
        decreases items,
    {
        match items {
            List::Nil => Ok(None),
            List::Cons(head, tail) => {
                proof {
                    reveal_with_fuel(main_functions, 2);
                    reveal_with_fuel(main_functions_of, 2);
                }
                let extracted = match head {
                    Item::Function(Function::Main(expr)) => Some(expr.clone()),
                    Item::Module(children) => Program::extract_single_main(children)?,
                    _ => None,
                };
                let rest = Program::extract_single_main(tail)?;
                match (extracted, rest) {
                    (Some(_), Some(_)) => Err(Error::FunctionRedefined("main".to_owned())),
                    (Some(expr), None) => Ok(Some(expr)),
                    (None, found) => Ok(found),
                }
            },
        }
    }
}

} // verus!
