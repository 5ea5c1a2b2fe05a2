//! The analysis of a program results in a well-typed tree.
use crate::ast::frame::{
    each_keeps, expression_keeps, is_outside, item_keeps, items_keep, keeps_items, match_arm_keeps,
    statement_keeps, statements_keep,
};
use crate::ast::module::{
    empty_module, imported_item, imported_items, lemma_replaced_at, module_at, replaced_at,
    ModuleView,
};
use crate::ast::rules::{
    all, arm_bindings, call, call_name, checked_arguments, each, expression, function, item, items,
    main_functions, main_functions_of, match_, match_arm, params, program, return_type,
    single_expression, single_inner, statement, statements, tracked_before, typed_pattern,
    with_params,
};
use crate::ast::scope::{
    common_prefix_len, lemma_enter, lemma_prefix_valid, navigated, variable_type, ScopeView,
};
use crate::ast::typing::{
    after_statement, after_statements, are_of, are_statements_typed, are_typed, arm_variables,
    is_arm_typed, is_assignment_typed, is_call_typed, is_callee_typed, is_function_typed,
    is_inner_typed, is_match_typed, is_single_typed, is_statement_typed, is_typed, is_value_of,
    params_types, Context, Types,
};
use crate::ast::{
    types_of, Assignment, Call, CallName, CustomFunction, Expression, ExpressionInner, Function,
    FunctionParam, Item, Match, MatchArm, SingleExpression, SingleExpressionInner, Statement,
};
use crate::error::Span;
use crate::jet::Jet;
use crate::list::{shared, List};
use crate::name::names;
use crate::parse;
use crate::parse::{scrutinee_type, Either, UseItem, Visibility};
use crate::pattern::bound_by;
use crate::types::{resolved, unit_type, ResolvedType};
use crate::value::{
    hexadecimal_value, lemma_all_digits, lemma_hex_bytes_len, lemma_value_of_digits, number,
};
use vstd::prelude::*;

verus! {

/// Whether a context has what another one has, with the same variables.
pub open spec fn extends(c: Context, d: Context) -> bool {
    &&& c.variables == d.variables
    &&& c.parameters.submap_of(d.parameters)
    &&& c.witnesses.submap_of(d.witnesses)
}

/// What is well typed stays so when more parameters and witnesses are known.
proof fn lemma_typed(e: Expression, c: Context, d: Context)
    requires
        is_typed(e, c),
        extends(c, d),
    ensures
        is_typed(e, d),
    decreases e,
{
    match e.inner {
        ExpressionInner::Single(single) => {
            lemma_single_typed(single, c, d);
        },
        ExpressionInner::Block(list, last) => {
            lemma_statements_typed(shared(list), c, d);
            if let Some(value) = last {
                lemma_typed(
                    shared(value),
                    after_statements(shared(list), c),
                    after_statements(shared(list), d),
                );
            }
        },
    }
}

/// What is well typed stays so when more parameters and witnesses are known.
proof fn lemma_statements_typed(list: List<Statement>, c: Context, d: Context)
    requires
        are_statements_typed(list, c),
        extends(c, d),
    ensures
        are_statements_typed(list, d),
        extends(after_statements(list, c), after_statements(list, d)),
    decreases list,
{
    if let List::Cons(head, tail) = list {
        lemma_statement_typed(head, c, d);
        lemma_statements_typed(*tail, after_statement(head, c), after_statement(head, d));
    }
}

/// What is well typed stays so when more parameters and witnesses are known.
proof fn lemma_statement_typed(statement: Statement, c: Context, d: Context)
    requires
        is_statement_typed(statement, c),
        extends(c, d),
    ensures
        is_statement_typed(statement, d),
    decreases statement,
{
    match statement {
        Statement::Assignment(a) => {
            lemma_assignment_typed(a, c, d);
        },
        Statement::Expression(e) => {
            lemma_typed(e, c, d);
        },
    }
}

/// What is well typed stays so when more parameters and witnesses are known.
proof fn lemma_single_typed(single: SingleExpression, c: Context, d: Context)
    requires
        is_single_typed(single, c),
        extends(c, d),
    ensures
        is_single_typed(single, d),
    decreases single,
{
    lemma_inner_typed(single.inner, single.ty, c, d);
}

/// The variables after statements depend on those before the statements alone.
proof fn lemma_after_statements(list: List<Statement>, c: Context, d: Context)
    requires
        c.variables == d.variables,
    ensures
        after_statements(list, d) == (Context {
            variables: after_statements(list, c).variables,
            ..d
        }),
    decreases list,
{
    if let List::Cons(head, tail) = list {
        lemma_after_statements(*tail, after_statement(head, c), after_statement(head, d));
    }
}

/// What is well typed stays so when more parameters and witnesses are known.
proof fn lemma_assignment_typed(a: Assignment, c: Context, d: Context)
    requires
        is_assignment_typed(a, c),
        extends(c, d),
    ensures
        is_assignment_typed(a, d),
    decreases a,
{
    lemma_typed(a.expression, c, d);
}

/// What is well typed stays so when more parameters and witnesses are known.
proof fn lemma_all_typed(list: List<Expression>, c: Context, d: Context)
    requires
        are_typed(list, c),
        extends(c, d),
    ensures
        are_typed(list, d),
    decreases list,
{
    if let List::Cons(head, tail) = list {
        lemma_typed(head, c, d);
        lemma_all_typed(*tail, c, d);
    }
}

/// What is well typed stays so when more parameters and witnesses are known.
proof fn lemma_inner_typed(
    inner: SingleExpressionInner,
    ty: ResolvedType,
    c: Context,
    d: Context,
)
    requires
        is_inner_typed(inner, ty, c),
        extends(c, d),
    ensures
        is_inner_typed(inner, ty, d),
    decreases inner,
{
    match inner {
        SingleExpressionInner::Expression(e) => {
            lemma_typed(shared(e), c, d);
        },
        SingleExpressionInner::Tuple(es) => {
            lemma_all_typed(shared(es), c, d);
        },
        SingleExpressionInner::Array(es) => {
            lemma_all_typed(shared(es), c, d);
        },
        SingleExpressionInner::List(es) => {
            lemma_all_typed(shared(es), c, d);
        },
        SingleExpressionInner::Either(Either::Left(e)) => {
            lemma_typed(shared(e), c, d);
        },
        SingleExpressionInner::Either(Either::Right(e)) => {
            lemma_typed(shared(e), c, d);
        },
        SingleExpressionInner::Option(Some(e)) => {
            lemma_typed(shared(e), c, d);
        },
        SingleExpressionInner::Call(call) => {
            lemma_call_typed(call, ty, c, d);
        },
        SingleExpressionInner::Match(m) => {
            lemma_match_typed(m, ty, c, d);
        },
        _ => {},
    }
}

/// What is well typed stays so when more parameters and witnesses are known.
proof fn lemma_call_typed(call: Call, ty: ResolvedType, c: Context, d: Context)
    requires
        is_call_typed(call, ty, c),
        extends(c, d),
    ensures
        is_call_typed(call, ty, d),
    decreases call,
{
    lemma_all_typed(shared(call.args), c, d);
    lemma_callee_typed(call.name, ty, c, d);
}

/// What is well typed stays so when more parameters and witnesses are known.
proof fn lemma_callee_typed(name: CallName, ty: ResolvedType, c: Context, d: Context)
    requires
        is_callee_typed(name, ty, c),
        extends(c, d),
    ensures
        is_callee_typed(name, ty, d),
    decreases name,
{
    match name {
        CallName::Custom(f) => {
            lemma_function_typed(f, c.parameters, d.parameters);
        },
        CallName::Fold(f, _) => {
            lemma_function_typed(f, c.parameters, d.parameters);
        },
        CallName::ArrayFold(f, _) => {
            lemma_function_typed(f, c.parameters, d.parameters);
        },
        CallName::ForWhile(f, _) => {
            lemma_function_typed(f, c.parameters, d.parameters);
        },
        _ => {},
    }
}

/// What is well typed stays so when more parameters are known.
proof fn lemma_function_typed(f: CustomFunction, before: Types, after: Types)
    requires
        is_function_typed(f, before),
        before.submap_of(after),
    ensures
        is_function_typed(f, after),
    decreases f,
{
    let variables = params_types(shared(f.params), Map::empty());
    lemma_typed(
        shared(f.body),
        Context { variables, parameters: before, witnesses: Map::empty() },
        Context { variables, parameters: after, witnesses: Map::empty() },
    );
}

/// What is well typed stays so when more parameters and witnesses are known.
proof fn lemma_match_typed(m: Match, ty: ResolvedType, c: Context, d: Context)
    requires
        is_match_typed(m, ty, c),
        extends(c, d),
    ensures
        is_match_typed(m, ty, d),
    decreases m,
{
    lemma_typed(shared(m.scrutinee), c, d);
    lemma_arm_typed(m.left, shared(m.scrutinee).ty, ty, c, d);
    lemma_arm_typed(m.right, shared(m.scrutinee).ty, ty, c, d);
}

/// What is well typed stays so when more parameters and witnesses are known.
proof fn lemma_arm_typed(
    arm: MatchArm,
    scrutinee: ResolvedType,
    ty: ResolvedType,
    c: Context,
    d: Context,
)
    requires
        is_arm_typed(arm, scrutinee, ty, c),
        extends(c, d),
    ensures
        is_arm_typed(arm, scrutinee, ty, d),
    decreases arm,
{
    if let Some(bindings) = arm_variables(arm.pattern, scrutinee) {
        lemma_typed(shared(arm.expression), c.with(bindings), d.with(bindings));
    }
}

/// The variables that are in scope, with those of inner blocks in place of outer ones.
pub open spec fn visible(variables: Seq<Types>) -> Types {
    Map::new(
        |name: Seq<char>| variable_type(variables, name) is Some,
        |name: Seq<char>| variable_type(variables, name)->0,
    )
}

/// The witnesses that an expression can refer to.
pub open spec fn usable_witnesses(s: ScopeView) -> Types {
    if s.is_main {
        s.witnesses
    } else {
        Map::empty()
    }
}

/// The context of an expression with the variables of one scope, and with the parameters and
/// witnesses of the scope after its analysis.
pub open spec fn context(before: ScopeView, after: ScopeView) -> Context {
    Context {
        variables: visible(before.variables),
        parameters: after.parameters,
        witnesses: usable_witnesses(after),
    }
}

/// Whether the functions that a module defines or imports are well typed.
pub open spec fn has_typed_functions(module: ModuleView, parameters: Types) -> bool {
    forall|name: Seq<char>| #[trigger]
        module.functions.contains_key(name) ==> is_function_typed(
            module.functions[name].0,
            parameters,
        )
}

/// A new block has no variables.
pub proof fn lemma_visible_in_block(variables: Seq<Types>)
    ensures
        visible(variables.push(Map::empty())) == visible(variables),
{
    let inside = variables.push(Map::empty());
    assert(inside.drop_last() =~= variables);
    assert(visible(inside) =~= visible(variables));
}

/// Variables of the innermost block take the place of others.
pub proof fn lemma_visible_with(variables: Seq<Types>, bindings: Types)
    requires
        variables.len() > 0,
    ensures
        visible(variables.drop_last().push(variables.last().union_prefer_right(bindings)))
            == visible(variables).union_prefer_right(bindings),
{
    let after = variables.drop_last().push(variables.last().union_prefer_right(bindings));
    assert(after.drop_last() =~= variables.drop_last());
    assert(visible(after) =~= visible(variables).union_prefer_right(bindings));
}

/// What functions a module has stays well typed when more parameters are known.
proof fn lemma_functions(module: ModuleView, before: Types, after: Types)
    requires
        has_typed_functions(module, before),
        before.submap_of(after),
    ensures
        has_typed_functions(module, after),
{
    assert forall|name: Seq<char>| #[trigger]
        module.functions.contains_key(name) implies is_function_typed(
        module.functions[name].0,
        after,
    ) by {
        lemma_function_typed(module.functions[name].0, before, after);
    }
}

/// After a step that keeps items, the same functions are well typed.
proof fn lemma_step(before: ScopeView, after: ScopeView)
    requires
        keeps_items(before, after),
        has_typed_functions(before.current(), before.parameters),
    ensures
        has_typed_functions(after.current(), after.parameters),
        usable_witnesses(before).submap_of(usable_witnesses(after)),
        after.current() == before.current(),
{
    lemma_functions(before.current(), before.parameters, after.parameters);
}

/// The analysis of an expression results in a well-typed expression of the expected type, and
/// leaves the same variables in scope.
proof fn lemma_expression(from: parse::Expression, ty: ResolvedType, s: ScopeView)
    requires
        has_typed_functions(s.current(), s.parameters),
    ensures
        match expression(from, ty, s) {
            (Ok(e), after) => {
                &&& e.ty == ty
                &&& is_typed(e, context(s, after))
                &&& visible(after.variables) == visible(s.variables)
            },
            _ => true,
        },
    decreases from,
{
    match from.inner {
        parse::ExpressionInner::Single(single) => {
            lemma_single(single, ty, s);
        },
        parse::ExpressionInner::Block(list, last) => {
            let start = s.in_block();
            lemma_visible_in_block(s.variables);
            lemma_statements(shared(list), start);
            statements_keep(shared(list), start);
            if let (Ok(statement_list), inside) = statements(shared(list), start) {
                lemma_step(start, inside);
                assert(start.variables.drop_last() =~= s.variables);
                match last {
                    Some(e) => {
                        lemma_expression(shared(e), ty, inside);
                        expression_keeps(shared(e), ty, inside);
                        if let (Ok(value), after) = expression(shared(e), ty, inside) {
                            lemma_step(inside, after);
                            lemma_statements_typed(
                                statement_list,
                                context(s, inside),
                                context(s, after),
                            );
                            lemma_after_statements(
                                statement_list,
                                context(s, inside),
                                context(s, after),
                            );
                        }
                    },
                    None => {},
                }
            }
        },
    }
}

/// The analysis of statements results in well-typed statements.
proof fn lemma_statements(from: List<parse::Statement>, s: ScopeView)
    requires
        s.variables.len() > 0,
        has_typed_functions(s.current(), s.parameters),
    ensures
        match statements(from, s) {
            (Ok(list), after) => {
                &&& are_statements_typed(list, context(s, after))
                &&& after_statements(list, context(s, after)) == context(after, after)
            },
            _ => true,
        },
    decreases from,
{
    if let List::Cons(head, tail) = from {
        lemma_statement(head, s);
        statement_keeps(head, s);
        if let (Ok(first), inside) = statement(head, s) {
            lemma_step(s, inside);
            lemma_statements(*tail, inside);
            statements_keep(*tail, inside);
            if let (Ok(rest), after) = statements(*tail, inside) {
                lemma_step(inside, after);
                lemma_statement_typed(first, context(s, inside), context(s, after));
                assert(after_statement(first, context(s, after)) == context(inside, after));
            }
        }
    }
}

/// The analysis of a statement results in a well-typed statement.
proof fn lemma_statement(from: parse::Statement, s: ScopeView)
    requires
        s.variables.len() > 0,
        has_typed_functions(s.current(), s.parameters),
    ensures
        match statement(from, s) {
            (Ok(result), after) => {
                &&& is_statement_typed(result, context(s, after))
                &&& after_statement(result, context(s, after)) == context(after, after)
            },
            _ => true,
        },
    decreases from,
{
    match from {
        parse::Statement::Assignment(a) => {
            if let Ok(ty) = s.resolved(a.ty) {
                lemma_expression(a.expression, ty, s);
                expression_keeps(a.expression, ty, s);
                if let (Ok(e), after) = expression(a.expression, ty, s) {
                    if let Ok(bindings) = bound_by(a.pattern, ty, Map::empty()) {
                        lemma_visible_with(after.variables, bindings);
                    }
                }
            }
        },
        parse::Statement::Expression(e) => {
            lemma_expression(e, unit_type(), s);
        },
    }
}

/// The analysis of expressions results in well-typed expressions of the expected types.
proof fn lemma_each(from: List<parse::Expression>, tys: List<ResolvedType>, s: ScopeView)
    requires
        has_typed_functions(s.current(), s.parameters),
        from@.len() == tys@.len(),
    ensures
        match each(from, tys, s) {
            (Ok(list), after) => {
                &&& types_of(list) == tys
                &&& are_typed(list, context(s, after))
                &&& visible(after.variables) == visible(s.variables)
            },
            _ => true,
        },
    decreases from,
{
    match (from, tys) {
        (List::Cons(head, tail), List::Cons(ty, rest_tys)) => {
            lemma_expression(head, ty, s);
            expression_keeps(head, ty, s);
            if let (Ok(first), inside) = expression(head, ty, s) {
                lemma_step(s, inside);
                assert(tail@.len() == rest_tys@.len());
                lemma_each(*tail, *rest_tys, inside);
                each_keeps(*tail, *rest_tys, inside);
                if let (Ok(rest), after) = each(*tail, *rest_tys, inside) {
                    lemma_step(inside, after);
                    lemma_typed(first, context(s, inside), context(s, after));
                }
            }
        },
        (List::Cons(_, _), List::Nil) => {
            assert(from@.len() > 0);
        },
        (List::Nil, List::Cons(_, _)) => {
            assert(tys@.len() > 0);
        },
        _ => {},
    }
}

/// The analysis of expressions results in well-typed expressions of the expected type.
proof fn lemma_all(from: List<parse::Expression>, ty: ResolvedType, s: ScopeView)
    requires
        has_typed_functions(s.current(), s.parameters),
    ensures
        match all(from, ty, s) {
            (Ok(list), after) => {
                &&& list@.len() == from@.len()
                &&& are_of(list, ty)
                &&& are_typed(list, context(s, after))
                &&& visible(after.variables) == visible(s.variables)
            },
            _ => true,
        },
    decreases from,
{
    if let List::Cons(head, tail) = from {
        lemma_expression(head, ty, s);
        expression_keeps(head, ty, s);
        if let (Ok(first), inside) = expression(head, ty, s) {
            lemma_step(s, inside);
            lemma_all(*tail, ty, inside);
            crate::ast::frame::all_keep(*tail, ty, inside);
            if let (Ok(rest), after) = all(*tail, ty, inside) {
                lemma_step(inside, after);
                lemma_typed(first, context(s, inside), context(s, after));
            }
        }
    }
}

/// The analysis of a single expression results in a well-typed expression of the expected type.
proof fn lemma_single(from: parse::SingleExpression, ty: ResolvedType, s: ScopeView)
    requires
        has_typed_functions(s.current(), s.parameters),
    ensures
        match single_expression(from, ty, s) {
            (Ok(e), after) => {
                &&& e.ty == ty
                &&& is_single_typed(e, context(s, after))
                &&& visible(after.variables) == visible(s.variables)
            },
            _ => true,
        },
    decreases from,
{
    lemma_inner(from.inner, from.span, ty, s);
}

/// The value of a hexadecimal literal is of the type of the literal.
proof fn lemma_hexadecimal(text: Seq<char>, ty: ResolvedType)
    ensures
        hexadecimal_value(text, ty) matches Ok(value) ==> is_value_of(value, ty),
{
    match ty {
        ResolvedType::UInt(uint) => {
            if let Some(n) = number(text, 16) {
                lemma_uint(n, uint);
            }
        },
        ResolvedType::Array(_, n) => {
            if number(text, 16) is Some && text.len() == 2 * n {
                assert forall|i: int| 0 <= i < text.len() implies crate::value::digit_value(
                    #[trigger] text[i],
                ) is Some by {
                    lemma_all_digits(text, 16, i);
                }
                lemma_hex_bytes_len(text, n as nat);
            }
        },
        _ => {},
    }
}

/// The digits of a number of a type denote a number of the type.
proof fn lemma_uint(n: nat, ty: crate::types::UIntType)
    ensures
        n < crate::value::limit(ty) ==> crate::value::u256(n).value() < crate::value::limit(ty),
{
    if n < crate::value::limit(ty) {
        lemma_value_of_digits(n);
    }
}

/// The analysis of a single expression results in a well-typed expression of the expected type.
proof fn lemma_inner(
    from: parse::SingleExpressionInner,
    span: Span,
    ty: ResolvedType,
    s: ScopeView,
)
    requires
        has_typed_functions(s.current(), s.parameters),
    ensures
        match single_inner(from, span, ty, s) {
            (Ok(inner), after) => {
                &&& is_inner_typed(inner, ty, context(s, after))
                &&& visible(after.variables) == visible(s.variables)
            },
            _ => true,
        },
    decreases from,
{
    match from {
        parse::SingleExpressionInner::Decimal(text) => {
            if let (ResolvedType::UInt(uint), Some(n)) = (ty, number(text@, 10)) {
                lemma_uint(n, uint);
            }
        },
        parse::SingleExpressionInner::Binary(text) => {
            if let (ResolvedType::UInt(uint), Some(n)) = (ty, number(text@, 2)) {
                lemma_uint(n, uint);
            }
        },
        parse::SingleExpressionInner::Hexadecimal(text) => {
            lemma_hexadecimal(text@, ty);
        },
        parse::SingleExpressionInner::Variable(name) => {
            if variable_type(s.variables, name@) == Some(ty) {
                assert(s.variables.len() > 0);
                lemma_visible_with(s.variables, map![name@ => ty]);
                assert(visible(s.variables).union_prefer_right(map![name@ => ty]) =~= visible(
                    s.variables,
                ));
            }
        },
        parse::SingleExpressionInner::Expression(e) => {
            lemma_expression(shared(e), ty, s);
        },
        parse::SingleExpressionInner::Tuple(es) => {
            if let ResolvedType::Tuple(tys) = ty {
                if es@.len() == tys@.len() {
                    lemma_each(shared(es), shared(tys), s);
                }
            }
        },
        parse::SingleExpressionInner::Array(es) => {
            if let ResolvedType::Array(element, _) = ty {
                lemma_all(shared(es), shared(element), s);
            }
        },
        parse::SingleExpressionInner::List(es) => {
            if let ResolvedType::List(element, _) = ty {
                lemma_all(shared(es), shared(element), s);
            }
        },
        parse::SingleExpressionInner::Either(Either::Left(e)) => {
            if let ResolvedType::Either(left, _) = ty {
                lemma_expression(shared(e), shared(left), s);
            }
        },
        parse::SingleExpressionInner::Either(Either::Right(e)) => {
            if let ResolvedType::Either(_, right) = ty {
                lemma_expression(shared(e), shared(right), s);
            }
        },
        parse::SingleExpressionInner::Option(Some(e)) => {
            if let ResolvedType::Option(some) = ty {
                lemma_expression(shared(e), shared(some), s);
            }
        },
        parse::SingleExpressionInner::Call(c) => {
            lemma_call(c, ty, s);
        },
        parse::SingleExpressionInner::Match(m) => {
            lemma_match(m, ty, s);
        },
        _ => {},
    }
}

/// The analysis of a call results in a well-typed call.
proof fn lemma_call(from: parse::Call, ty: ResolvedType, s: ScopeView)
    requires
        has_typed_functions(s.current(), s.parameters),
    ensures
        match call(from, ty, s) {
            (Ok(result), after) => {
                &&& is_call_typed(result, ty, context(s, after))
                &&& visible(after.variables) == visible(s.variables)
            },
            _ => true,
        },
    decreases from,
{
    if let Ok(name) = call_name(from.name, s) {
        if let Ok(tys) = checked_arguments(name, from.args@.len(), ty) {
            let inside = tracked_before(name, from.span, s);
            assert(inside.current() == s.current());
            lemma_each(shared(from.args), tys, inside);
            each_keeps(shared(from.args), tys, inside);
            if let (Ok(args), after) = each(shared(from.args), tys, inside) {
                lemma_step(inside, after);
                lemma_functions(s.current(), s.parameters, after.parameters);
                assert(is_callee_typed(name, ty, context(s, after)));
            }
        }
    }
}

/// The analysis of a match arm results in a well-typed match arm.
proof fn lemma_arm(
    from: parse::MatchArm,
    span: Span,
    scrutinee: ResolvedType,
    ty: ResolvedType,
    s: ScopeView,
)
    requires
        has_typed_functions(s.current(), s.parameters),
        match (from.pattern, typed_pattern(from.pattern)) {
            (_, Some((p, aliased))) => s.resolved(aliased) matches Ok(t) && arm_variables(
                from.pattern,
                scrutinee,
            ) == crate::ast::typing::variables_of(p, t),
            _ => arm_variables(from.pattern, scrutinee) == Some(Map::<Seq<char>, ResolvedType>::empty()),
        },
    ensures
        match match_arm(from, span, ty, s) {
            (Ok(arm), after) => is_arm_typed(arm, scrutinee, ty, context(s, after)),
            _ => true,
        },
    decreases from,
{
    let start = s.in_block();
    lemma_visible_in_block(s.variables);
    if let (Ok(_), inside) = arm_bindings(from.pattern, start) {
        assert(inside.current() == s.current());
        lemma_expression(shared(from.expression), ty, inside);
        match typed_pattern(from.pattern) {
            Some((p, aliased)) => {
                assert(start.resolved(aliased) == s.resolved(aliased));
                if let Ok(t) = s.resolved(aliased) {
                    if let Ok(bindings) = bound_by(p, t, Map::empty()) {
                        lemma_visible_with(start.variables, bindings);
                    }
                }
            },
            None => {
                assert(visible(s.variables).union_prefer_right(Map::empty()) =~= visible(
                    s.variables,
                ));
            },
        }
    }
}

/// The analysis of a match expression results in a well-typed match expression.
proof fn lemma_match(from: parse::Match, ty: ResolvedType, s: ScopeView)
    requires
        has_typed_functions(s.current(), s.parameters),
    ensures
        match match_(from, ty, s) {
            (Ok(m), after) => {
                &&& is_match_typed(m, ty, context(s, after))
                &&& visible(after.variables) == visible(s.variables)
            },
            _ => true,
        },
    decreases from,
{
    if let Some(aliased) = scrutinee_type(from.left.pattern, from.right.pattern) {
        if let Ok(scrutinee_ty) = s.resolved(aliased) {
            lemma_expression(shared(from.scrutinee), scrutinee_ty, s);
            expression_keeps(shared(from.scrutinee), scrutinee_ty, s);
            if let (Ok(scrutinee), s1) = expression(shared(from.scrutinee), scrutinee_ty, s) {
                lemma_step(s, s1);
                reveal_with_fuel(resolved, 2);
                lemma_arm(from.left, from.span, scrutinee_ty, ty, s1);
                match_arm_keeps(from.left, from.span, ty, s1);
                if let (Ok(left), s2) = match_arm(from.left, from.span, ty, s1) {
                    lemma_step(s1, s2);
                    lemma_arm(from.right, from.span, scrutinee_ty, ty, s2);
                    match_arm_keeps(from.right, from.span, ty, s2);
                    if let (Ok(right), s3) = match_arm(from.right, from.span, ty, s2) {
                        lemma_step(s2, s3);
                        lemma_typed(scrutinee, context(s, s1), context(s, s2));
                        lemma_typed(scrutinee, context(s, s2), context(s, s3));
                        lemma_arm_typed(left, scrutinee_ty, ty, context(s, s2), context(s, s3));
                    }
                }
            }
        }
    }
}

/// Whether the functions of a module and of all modules in it are well typed.
pub open spec fn is_tree_typed(module: ModuleView, parameters: Types) -> bool {
    forall|path: Seq<Seq<char>>| #[trigger]
        module_at(module, path) is Some ==> has_typed_functions(
            module_at(module, path)->0,
            parameters,
        )
}

/// The functions of a nested module are well typed.
proof fn lemma_tree_child(module: ModuleView, name: Seq<char>, parameters: Types)
    requires
        is_tree_typed(module, parameters),
        module.submodules.contains_key(name),
    ensures
        is_tree_typed(module.submodules[name].0, parameters),
{
    let child = module.submodules[name].0;
    assert forall|path: Seq<Seq<char>>| #[trigger]
        module_at(child, path) is Some implies has_typed_functions(
        module_at(child, path)->0,
        parameters,
    ) by {
        let longer = seq![name] + path;
        assert(longer.drop_first() =~= path);
        assert(module_at(module, longer) == module_at(child, path));
    }
}

/// A module with well-typed functions and such nested modules.
proof fn lemma_tree(module: ModuleView, parameters: Types)
    requires
        has_typed_functions(module, parameters),
        forall|name: Seq<char>| #[trigger]
            module.submodules.contains_key(name) ==> is_tree_typed(
                module.submodules[name].0,
                parameters,
            ),
    ensures
        is_tree_typed(module, parameters),
{
    assert forall|path: Seq<Seq<char>>| #[trigger]
        module_at(module, path) is Some implies has_typed_functions(
        module_at(module, path)->0,
        parameters,
    ) by {
        if path.len() > 0 {
            assert(is_tree_typed(module.submodules[path[0]].0, parameters));
            assert(module_at(module.submodules[path[0]].0, path.drop_first()) is Some);
        }
    }
}

/// The functions of a module are well typed if those of the tree are.
proof fn lemma_tree_at(module: ModuleView, path: Seq<Seq<char>>, parameters: Types)
    requires
        is_tree_typed(module, parameters),
        module_at(module, path) is Some,
    ensures
        is_tree_typed(module_at(module, path)->0, parameters),
    decreases path.len(),
{
    if path.len() > 0 {
        lemma_tree_child(module, path[0], parameters);
        lemma_tree_at(module.submodules[path[0]].0, path.drop_first(), parameters);
    }
}

/// A module may be replaced by one with well-typed functions.
proof fn lemma_tree_replaced(
    module: ModuleView,
    path: Seq<Seq<char>>,
    new: ModuleView,
    parameters: Types,
)
    requires
        is_tree_typed(module, parameters),
        module_at(module, path) is Some,
        is_tree_typed(new, parameters),
    ensures
        is_tree_typed(replaced_at(module, path, new), parameters),
    decreases path.len(),
{
    if path.len() > 0 {
        let after = replaced_at(module, path, new);
        lemma_tree_child(module, path[0], parameters);
        lemma_tree_replaced(
            module.submodules[path[0]].0,
            path.drop_first(),
            new,
            parameters,
        );
        assert(module_at(module, Seq::empty()) == Some(module));
        assert forall|name: Seq<char>| #[trigger]
            after.submodules.contains_key(name) implies is_tree_typed(
            after.submodules[name].0,
            parameters,
        ) by {
            if name != path[0] {
                lemma_tree_child(module, name, parameters);
            }
        }
        lemma_tree(after, parameters);
    }
}

/// What is well typed stays so when more parameters are known.
proof fn lemma_tree_grows(module: ModuleView, before: Types, after: Types)
    requires
        is_tree_typed(module, before),
        before.submap_of(after),
    ensures
        is_tree_typed(module, after),
{
    assert forall|path: Seq<Seq<char>>| #[trigger]
        module_at(module, path) is Some implies has_typed_functions(
        module_at(module, path)->0,
        after,
    ) by {
        lemma_functions(module_at(module, path)->0, before, after);
    }
}

/// A module that an import leads to has well-typed functions.
proof fn lemma_tree_navigated(
    module: ModuleView,
    path: Seq<Seq<char>>,
    depth: nat,
    shared_len: nat,
    parameters: Types,
)
    requires
        is_tree_typed(module, parameters),
    ensures
        navigated(module, path, depth, shared_len) matches Ok(source) ==> is_tree_typed(
            source,
            parameters,
        ),
    decreases path.len(),
{
    if path.len() > 0 && module.submodules.contains_key(path[0]) {
        lemma_tree_child(module, path[0], parameters);
        lemma_tree_navigated(
            module.submodules[path[0]].0,
            path.drop_first(),
            depth + 1,
            shared_len,
            parameters,
        );
    }
}

/// Imported functions are well typed.
proof fn lemma_tree_imported(
    source: ModuleView,
    target: ModuleView,
    list: Seq<UseItem>,
    visibility: Visibility,
    parameters: Types,
)
    requires
        is_tree_typed(source, parameters),
        is_tree_typed(target, parameters),
    ensures
        is_tree_typed(imported_items(source, target, list, visibility).1, parameters),
    decreases list.len(),
{
    if list.len() > 0 {
        let (outcome, after) = imported_item(source, target, list[0], visibility);
        assert(module_at(source, Seq::empty()) == Some(source));
        assert(module_at(target, Seq::empty()) == Some(target));
        assert forall|name: Seq<char>| #[trigger]
            after.submodules.contains_key(name) implies is_tree_typed(
            after.submodules[name].0,
            parameters,
        ) by {
            if target.submodules.contains_key(name) {
                lemma_tree_child(target, name, parameters);
            } else {
                lemma_tree_child(source, list[0].name@, parameters);
            }
        }
        lemma_tree(after, parameters);
        if outcome is Ok {
            lemma_tree_imported(source, after, list.drop_first(), visibility, parameters);
        }
    }
}

/// The parameters of a function are the variables in its body.
pub proof fn lemma_params(list: List<FunctionParam>, s: ScopeView)
    requires
        s.variables.len() > 0,
    ensures
        visible(with_params(list, s).variables) == params_types(list, visible(s.variables)),
        with_params(list, s).variables.len() > 0,
        with_params(list, s).current() == s.current(),
        with_params(list, s).parameters == s.parameters,
    decreases list,
{
    if let List::Cons(head, tail) = list {
        lemma_visible_with(s.variables, map![head.identifier@ => head.ty]);
        lemma_params(*tail, s.with_variable(head.identifier@, head.ty));
    }
}

/// Whether main functions are well typed and return nothing.
pub open spec fn are_mains_typed(mains: Seq<Expression>, s: ScopeView) -> bool {
    forall|i: int|
        0 <= i < mains.len() ==> (#[trigger] mains[i]).ty == unit_type() && is_typed(
            mains[i],
            Context {
                variables: Map::empty(),
                parameters: s.parameters,
                witnesses: s.witnesses,
            },
        )
}

/// Main functions stay well typed when more parameters and witnesses are known.
proof fn lemma_mains(mains: Seq<Expression>, before: ScopeView, after: ScopeView)
    requires
        are_mains_typed(mains, before),
        before.parameters.submap_of(after.parameters),
        before.witnesses.submap_of(after.witnesses),
    ensures
        are_mains_typed(mains, after),
{
    assert forall|i: int| 0 <= i < mains.len() implies (#[trigger] mains[i]).ty == unit_type()
        && is_typed(
        mains[i],
        Context {
            variables: Map::empty(),
            parameters: after.parameters,
            witnesses: after.witnesses,
        },
    ) by {
        lemma_typed(
            mains[i],
            Context {
                variables: Map::empty(),
                parameters: before.parameters,
                witnesses: before.witnesses,
            },
            Context {
                variables: Map::empty(),
                parameters: after.parameters,
                witnesses: after.witnesses,
            },
        );
    }
}

/// The scope outside of functions has no variables.
proof fn lemma_outside(s: ScopeView)
    requires
        is_outside(s),
    ensures
        visible(s.variables) == Map::<Seq<char>, ResolvedType>::empty(),
        visible(s.in_block().variables) == Map::<Seq<char>, ResolvedType>::empty(),
{
    lemma_visible_in_block(s.variables);
    assert(visible(s.variables) =~= Map::<Seq<char>, ResolvedType>::empty());
}

/// The analysis of a function results in a well-typed function.
proof fn lemma_function(from: parse::Function, s: ScopeView)
    requires
        is_outside(s),
        s.valid(),
        is_tree_typed(s.root, s.parameters),
    ensures
        match function(from, s) {
            (Ok(f), after) => {
                &&& after.valid()
                &&& is_tree_typed(after.root, after.parameters)
                &&& are_mains_typed(main_functions_of(Item::Function(f)), after)
            },
            _ => true,
        },
{
    assert(has_typed_functions(s.current(), s.parameters));
    lemma_outside(s);
    if from.name@ == "main"@ {
        let start = s.in_main();
        lemma_expression(shared(from.body), unit_type(), start);
        expression_keeps(shared(from.body), unit_type(), start);
        if let (Ok(f), after) = function(from, s) {
            lemma_tree_grows(s.root, s.parameters, after.parameters);
        }
    } else if let Ok(list) = params(shared(from.params), s) {
        if let Ok(ret) = return_type(from.ret, s) {
            let start = with_params(list, s.in_block());
            lemma_params(list, s.in_block());
            lemma_expression(shared(from.body), ret, start);
            expression_keeps(shared(from.body), ret, start);
            crate::ast::frame::with_params_keeps(list, s.in_block());
            if let (Ok(body), inside) = expression(shared(from.body), ret, start) {
                let end = inside.after_block();
                lemma_tree_grows(s.root, s.parameters, end.parameters);
                if let (Ok(f), after) = function(from, s) {
                    let current = s.current();
                    let new = after.current();
                    lemma_tree_at(end.root, end.position, end.parameters);
                    lemma_replaced_at(
                        end.root,
                        end.position,
                        ModuleView {
                            functions: current.functions.insert(
                                from.name@,
                                (
                                    CustomFunction {
                                        params: std::sync::Arc::new(list),
                                        body: std::sync::Arc::new(body),
                                    },
                                    from.visibility,
                                ),
                            ),
                            ..current
                        },
                    );
                    assert(has_typed_functions(current, end.parameters));
                    assert(has_typed_functions(new, end.parameters));
                    assert forall|name: Seq<char>| #[trigger]
                        new.submodules.contains_key(name) implies is_tree_typed(
                        new.submodules[name].0,
                        end.parameters,
                    ) by {
                        lemma_tree_child(current, name, end.parameters);
                    }
                    lemma_tree(new, end.parameters);
                    lemma_tree_replaced(end.root, end.position, new, end.parameters);
                }
            }
        }
    }
}

/// The analysis of an item results in well-typed functions.
proof fn lemma_item(from: parse::Item, s: ScopeView)
    requires
        is_outside(s),
        s.valid(),
        is_tree_typed(s.root, s.parameters),
    ensures
        match item(from, s) {
            (Ok(i), after) => {
                &&& after.valid()
                &&& is_tree_typed(after.root, after.parameters)
                &&& are_mains_typed(main_functions_of(i), after)
            },
            _ => true,
        },
    decreases from,
{
    let current = s.current();
    lemma_tree_at(s.root, s.position, s.parameters);
    assert(module_at(current, Seq::empty()) == Some(current));
    match from {
        parse::Item::TypeAlias(alias) => {
            if let (Ok(_), after) = s.with_alias(alias) {
                let new = ModuleView {
                    aliases: current.aliases.insert(
                        alias.name@,
                        (s.resolved(alias.ty)->Ok_0, alias.visibility),
                    ),
                    ..current
                };
                assert(after == s.with_current(new));
                assert forall|name: Seq<char>| #[trigger]
                    new.submodules.contains_key(name) implies is_tree_typed(
                    new.submodules[name].0,
                    s.parameters,
                ) by {
                    lemma_tree_child(current, name, s.parameters);
                }
                lemma_tree(new, s.parameters);
                lemma_replaced_at(s.root, s.position, new);
                lemma_tree_replaced(s.root, s.position, new, s.parameters);
            }
        },
        parse::Item::Function(f) => {
            lemma_function(f, s);
        },
        parse::Item::Use(decl) => {
            let path = names(decl.path@);
            if path.len() > 0 && path[0] == "crate"@ {
                let shared_len = common_prefix_len(s.position, path.drop_first());
                lemma_tree_navigated(s.root, path.drop_first(), 0, shared_len, s.parameters);
                if let Ok(source) = navigated(s.root, path.drop_first(), 0, shared_len) {
                    let list = crate::ast::module::use_items(decl.items);
                    lemma_tree_imported(source, current, list, decl.visibility, s.parameters);
                    let new = imported_items(source, current, list, decl.visibility).1;
                    lemma_replaced_at(s.root, s.position, new);
                    lemma_tree_replaced(s.root, s.position, new, s.parameters);
                }
            }
        },
        parse::Item::Module(module) => {
            let start = s.in_module(module.name@, module.visibility);
            let new = ModuleView {
                submodules: current.submodules.insert(
                    module.name@,
                    (empty_module(), module.visibility),
                ),
                ..current
            };
            assert(start.root == replaced_at(s.root, s.position, new));
            assert forall|name: Seq<char>| #[trigger]
                new.submodules.contains_key(name) implies is_tree_typed(
                new.submodules[name].0,
                s.parameters,
            ) by {
                if name != module.name@ {
                    lemma_tree_child(current, name, s.parameters);
                } else {
                    lemma_tree(empty_module(), s.parameters);
                }
            }
            lemma_tree(new, s.parameters);
            lemma_tree_replaced(s.root, s.position, new, s.parameters);
            lemma_replaced_at(s.root, s.position, new);
            lemma_enter(start.root, s.position, module.name@);
            lemma_items(shared(module.items), start);
            items_keep(shared(module.items), start);
            if let (Ok(list), inside) = items(shared(module.items), start) {
                lemma_prefix_valid(inside.root, inside.position);
            }
        },
        parse::Item::Ignored => {},
    }
}

/// The analysis of items results in well-typed functions.
proof fn lemma_items(from: List<parse::Item>, s: ScopeView)
    requires
        is_outside(s),
        s.valid(),
        is_tree_typed(s.root, s.parameters),
    ensures
        match items(from, s) {
            (Ok(list), after) => {
                &&& after.valid()
                &&& is_tree_typed(after.root, after.parameters)
                &&& are_mains_typed(main_functions(list), after)
            },
            _ => true,
        },
    decreases from,
{
    if let List::Cons(head, tail) = from {
        lemma_item(head, s);
        item_keeps(head, s);
        if let (Ok(first), inside) = item(head, s) {
            lemma_items(*tail, inside);
            items_keep(*tail, inside);
            if let (Ok(rest), after) = items(*tail, inside) {
                lemma_mains(main_functions_of(first), inside, after);
            }
        }
    }
}

/// An analyzed program is well typed: its main function returns nothing, and all its parts, down to
/// the bodies of the functions that it calls, are of the types that are expected of them, given the
/// types of the parameters and witnesses that the program declares.
pub proof fn analyzed_program_is_well_typed(from: parse::Program, jets: Map<Seq<char>, Jet>)
    ensures
        match program(from, jets) {
            (Ok(main), after) => main.ty == unit_type() && is_typed(
                main,
                Context {
                    variables: Map::empty(),
                    parameters: after.parameters,
                    witnesses: after.witnesses,
                },
            ),
            _ => true,
        },
{
    let s = ScopeView::initial(jets);
    lemma_tree(empty_module(), s.parameters);
    lemma_items(shared(from.items), s);
    if let (Ok(list), after) = items(shared(from.items), s) {
        if main_functions(list).len() == 1 {
            assert(main_functions(list)[0].ty == unit_type());
        }
    }
}

/// A constant expression is well typed if its analysis succeeds.
pub proof fn analyzed_expression_is_well_typed(
    from: parse::Expression,
    ty: ResolvedType,
    jets: Map<Seq<char>, Jet>,
)
    ensures
        match expression(from, ty, ScopeView::initial(jets)) {
            (Ok(e), after) => e.ty == ty && is_typed(
                e,
                Context {
                    variables: Map::empty(),
                    parameters: after.parameters,
                    witnesses: Map::empty(),
                },
            ),
            _ => true,
        },
{
    let s = ScopeView::initial(jets);
    lemma_expression(from, ty, s);
    expression_keeps(from, ty, s);
    lemma_outside(s);
}

} // verus!
