//! The analysis accepts the expressions that can be of the expected type.
use crate::ast::acceptance::{
    accepts, all_accept, all_accept_one, are_pure, are_pure_statements, arm_accepts,
    assignment_accepts, call_accepts, inner_accepts, is_callee, is_pure, is_pure_arm,
    is_pure_assignment, is_pure_call, is_pure_inner, is_pure_match, is_pure_single,
    is_pure_statement, literal_accepts, match_accepts, single_accepts, statement_accepts,
    statements_accept, taken_apart, vars_after, vars_with,
};
use crate::ast::frame::{expression_keeps, match_arm_keeps, statement_keeps, statements_keep};
use crate::ast::meaning::{definitions, is_type, Definitions};
use crate::ast::meaning_laws::resolved_type_replaces_aliases;
use crate::ast::rules::{
    all, arm_bindings, assignment, call, call_name, checked_arguments, custom_function, each,
    expression, match_, match_arm, params, return_type, single_expression, single_inner, statement,
    statements, tracked_before, with_params,
};
use crate::ast::scope::{variable_type, ScopeView};
use crate::ast::signature_laws::{calls_follow_signatures, has_signature};
use crate::ast::typing::{params_types, Types};
use crate::ast::typing_laws::{lemma_params, lemma_visible_in_block, lemma_visible_with, visible};
use crate::ast::CallName;
use crate::error::Span;
use crate::list::{shared, List};
use crate::parse;
use crate::parse::{scrutinee_type, Either};
use crate::pattern::{bound_by, MatchPattern};
use crate::types::{resolved, unit_type, AliasedType, ResolvedType};
use crate::value::laws::{
    bit_strings_denote_numbers, decimal_literals_denote_numbers, hexadecimal_literals_denote_values,
};
use crate::value::number;
use vstd::prelude::*;

verus! {

/// The analysis of an expression accepts only expressions that can be of the expected type, and it
/// accepts all of them that refer to no witness and to no parameter.
pub proof fn accepted_expressions_fit(from: parse::Expression, ty: ResolvedType, s: ScopeView)
    ensures
        expression(from, ty, s).0 is Ok ==> accepts(
            from,
            ty,
            visible(s.variables),
            definitions(s),
        ) && visible(expression(from, ty, s).1.variables) == visible(s.variables),
        accepts(from, ty, visible(s.variables), definitions(s)) && is_pure(from) ==> expression(
            from,
            ty,
            s,
        ).0 is Ok,
    decreases from,
{
    match from.inner {
        parse::ExpressionInner::Single(single) => {
            lemma_single(single, ty, s);
        },
        parse::ExpressionInner::Block(list, last) => {
            let start = s.in_block();
            lemma_visible_in_block(s.variables);
            lemma_statements(shared(list), start);
            statements_keep(shared(list), start);
            let inside = statements(shared(list), start).1;
            assert(start.variables.drop_last() =~= s.variables);
            assert(definitions(start) == definitions(s));
            if let Some(e) = last {
                accepted_expressions_fit(shared(e), ty, inside);
                expression_keeps(shared(e), ty, inside);
            }
        },
    }
}

/// The analysis of statements accepts those that fit.
proof fn lemma_statements(from: List<parse::Statement>, s: ScopeView)
    requires
        s.variables.len() > 0,
    ensures
        statements(from, s).0 is Ok ==> statements_accept(
            from,
            visible(s.variables),
            definitions(s),
        ) && visible(statements(from, s).1.variables) == vars_after(
            from,
            visible(s.variables),
            definitions(s).aliases,
        ),
        statements_accept(from, visible(s.variables), definitions(s)) && are_pure_statements(from)
            ==> statements(from, s).0 is Ok,
    decreases from,
{
    if let List::Cons(head, tail) = from {
        lemma_statement(head, s);
        statement_keeps(head, s);
        let vars = visible(s.variables);
        let aliases = definitions(s).aliases;
        reveal_with_fuel(vars_after, 2);
        if statement(head, s).0 is Ok {
            lemma_statements(*tail, statement(head, s).1);
        }
    }
}

/// The analysis of a statement accepts it if it fits.
proof fn lemma_statement(from: parse::Statement, s: ScopeView)
    requires
        s.variables.len() > 0,
    ensures
        statement(from, s).0 is Ok ==> statement_accepts(
            from,
            visible(s.variables),
            definitions(s),
        ) && visible(statement(from, s).1.variables) == (match from {
            parse::Statement::Assignment(a) => vars_with(
                a.pattern,
                a.ty,
                visible(s.variables),
                definitions(s).aliases,
            )->0,
            parse::Statement::Expression(_) => visible(s.variables),
        }),
        statement_accepts(from, visible(s.variables), definitions(s)) && is_pure_statement(from)
            ==> statement(from, s).0 is Ok,
    decreases from,
{
    match from {
        parse::Statement::Assignment(a) => {
            lemma_assignment(a, s);
        },
        parse::Statement::Expression(e) => {
            accepted_expressions_fit(e, unit_type(), s);
        },
    }
}

/// The analysis of an assignment accepts it if it fits.
proof fn lemma_assignment(from: parse::Assignment, s: ScopeView)
    requires
        s.variables.len() > 0,
    ensures
        assignment(from, s).0 is Ok ==> assignment_accepts(
            from,
            visible(s.variables),
            definitions(s),
        ) && visible(assignment(from, s).1.variables) == vars_with(
            from.pattern,
            from.ty,
            visible(s.variables),
            definitions(s).aliases,
        )->0,
        assignment_accepts(from, visible(s.variables), definitions(s)) && is_pure_assignment(from)
            ==> assignment(from, s).0 is Ok,
    decreases from,
{
    if let Ok(ty) = resolved(from.ty, s.current().aliases) {
        accepted_expressions_fit(from.expression, ty, s);
        expression_keeps(from.expression, ty, s);
        let after = expression(from.expression, ty, s).1;
        if expression(from.expression, ty, s).0 is Ok {
            if let Ok(bindings) = bound_by(from.pattern, ty, Map::empty()) {
                lemma_visible_with(after.variables, bindings);
            }
        }
    }
}

/// The analysis of expressions accepts those that fit.
proof fn lemma_each(from: List<parse::Expression>, tys: List<ResolvedType>, s: ScopeView)
    requires
        from@.len() == tys@.len(),
    ensures
        each(from, tys, s).0 is Ok ==> all_accept(
            from,
            tys,
            visible(s.variables),
            definitions(s),
        ) && visible(each(from, tys, s).1.variables) == visible(s.variables),
        all_accept(from, tys, visible(s.variables), definitions(s)) && are_pure(from) ==> each(
            from,
            tys,
            s,
        ).0 is Ok,
    decreases from,
{
    match (from, tys) {
        (List::Cons(head, tail), List::Cons(ty, rest)) => {
            accepted_expressions_fit(head, ty, s);
            expression_keeps(head, ty, s);
            assert(tail@.len() == rest@.len());
            lemma_each(*tail, *rest, expression(head, ty, s).1);
        },
        (List::Cons(_, tail), List::Nil) => {
            assert(from@.len() == 1 + tail@.len());
        },
        (List::Nil, List::Cons(_, rest)) => {
            assert(tys@.len() == 1 + rest@.len());
        },
        (List::Nil, List::Nil) => {},
    }
}

/// Expressions that fit types are as many as the types.
proof fn lemma_all_accept(
    from: List<parse::Expression>,
    tys: List<ResolvedType>,
    vars: Types,
    d: Definitions,
)
    ensures
        all_accept(from, tys, vars, d) ==> from@.len() == tys@.len(),
    decreases from,
{
    match (from, tys) {
        (List::Cons(_, tail), List::Cons(_, rest)) => {
            lemma_all_accept(*tail, *rest, vars, d);
        },
        _ => {},
    }
}

/// The analysis of expressions of one type accepts those that fit.
proof fn lemma_all(from: List<parse::Expression>, ty: ResolvedType, s: ScopeView)
    ensures
        all(from, ty, s).0 is Ok ==> all_accept_one(
            from,
            ty,
            visible(s.variables),
            definitions(s),
        ) && visible(all(from, ty, s).1.variables) == visible(s.variables),
        all_accept_one(from, ty, visible(s.variables), definitions(s)) && are_pure(from) ==> all(
            from,
            ty,
            s,
        ).0 is Ok,
    decreases from,
{
    if let List::Cons(head, tail) = from {
        accepted_expressions_fit(head, ty, s);
        expression_keeps(head, ty, s);
        lemma_all(*tail, ty, expression(head, ty, s).1);
    }
}

/// The analysis of a single expression accepts it if it fits.
proof fn lemma_single(from: parse::SingleExpression, ty: ResolvedType, s: ScopeView)
    ensures
        single_expression(from, ty, s).0 is Ok ==> single_accepts(
            from,
            ty,
            visible(s.variables),
            definitions(s),
        ) && visible(single_expression(from, ty, s).1.variables) == visible(s.variables),
        single_accepts(from, ty, visible(s.variables), definitions(s)) && is_pure_single(from)
            ==> single_expression(from, ty, s).0 is Ok,
    decreases from,
{
    lemma_inner(from.inner, from.span, ty, s);
}

/// Literals are accepted where they fit.
proof fn lemma_literal(
    from: parse::SingleExpressionInner,
    span: Span,
    ty: ResolvedType,
    s: ScopeView,
)
    requires
        from is Boolean || from is Decimal || from is Binary || from is Hexadecimal,
    ensures
        single_inner(from, span, ty, s).0 is Ok <==> literal_accepts(from, ty),
        single_inner(from, span, ty, s).1 == s,
{
    match from {
        parse::SingleExpressionInner::Decimal(text) => {
            if let ResolvedType::UInt(uint) = ty {
                decimal_literals_denote_numbers(text@, uint);
            }
        },
        parse::SingleExpressionInner::Binary(text) => {
            if let ResolvedType::UInt(uint) = ty {
                bit_strings_denote_numbers(text@, uint);
            }
        },
        parse::SingleExpressionInner::Hexadecimal(text) => {
            hexadecimal_literals_denote_values(text@, ty);
            if let Some(n) = number(text@, 16) {
                crate::value::laws::numerals_are_positional(text@, 16, n);
            }
        },
        _ => {},
    }
}

/// The analysis of the variant of a single expression accepts it if it fits.
proof fn lemma_inner(
    from: parse::SingleExpressionInner,
    span: Span,
    ty: ResolvedType,
    s: ScopeView,
)
    ensures
        single_inner(from, span, ty, s).0 is Ok ==> inner_accepts(
            from,
            ty,
            visible(s.variables),
            definitions(s),
        ) && visible(single_inner(from, span, ty, s).1.variables) == visible(s.variables),
        inner_accepts(from, ty, visible(s.variables), definitions(s)) && is_pure_inner(from)
            ==> single_inner(from, span, ty, s).0 is Ok,
    decreases from,
{
    let vars = visible(s.variables);
    let d = definitions(s);
    match from {
        parse::SingleExpressionInner::Variable(name) => {
            if variable_type(s.variables, name@) == Some(ty) {
                assert(s.variables.len() > 0);
                lemma_visible_with(s.variables, map![name@ => ty]);
                assert(vars.union_prefer_right(map![name@ => ty]) =~= vars);
            }
        },
        parse::SingleExpressionInner::Expression(e) => {
            accepted_expressions_fit(shared(e), ty, s);
        },
        parse::SingleExpressionInner::Tuple(list) => {
            if let ResolvedType::Tuple(tys) = ty {
                lemma_all_accept(shared(list), shared(tys), vars, d);
                if shared(list)@.len() == shared(tys)@.len() {
                    lemma_each(shared(list), shared(tys), s);
                }
            }
        },
        parse::SingleExpressionInner::Array(list) => {
            if let ResolvedType::Array(element, _) = ty {
                lemma_all(shared(list), shared(element), s);
            }
        },
        parse::SingleExpressionInner::List(list) => {
            if let ResolvedType::List(element, _) = ty {
                lemma_all(shared(list), shared(element), s);
            }
        },
        parse::SingleExpressionInner::Either(Either::Left(e)) => {
            if let ResolvedType::Either(left, _) = ty {
                accepted_expressions_fit(shared(e), shared(left), s);
            }
        },
        parse::SingleExpressionInner::Either(Either::Right(e)) => {
            if let ResolvedType::Either(_, right) = ty {
                accepted_expressions_fit(shared(e), shared(right), s);
            }
        },
        parse::SingleExpressionInner::Option(Some(e)) => {
            if let ResolvedType::Option(some) = ty {
                accepted_expressions_fit(shared(e), shared(some), s);
            }
        },
        parse::SingleExpressionInner::Call(c) => {
            lemma_call(c, ty, s);
        },
        parse::SingleExpressionInner::Match(m) => {
            lemma_match(m, ty, s);
        },
        parse::SingleExpressionInner::Boolean(_) => {
            lemma_literal(from, span, ty, s);
        },
        parse::SingleExpressionInner::Decimal(_) => {
            lemma_literal(from, span, ty, s);
        },
        parse::SingleExpressionInner::Binary(_) => {
            lemma_literal(from, span, ty, s);
        },
        parse::SingleExpressionInner::Hexadecimal(_) => {
            lemma_literal(from, span, ty, s);
        },
        _ => {},
    }
}

/// A type that stands for another one resolves to it.
proof fn lemma_type(from: AliasedType, ty: ResolvedType, s: ScopeView)
    ensures
        is_type(from, ty, definitions(s).aliases) <==> resolved(from, s.current().aliases) == Ok::<
            ResolvedType,
            Seq<char>,
        >(ty),
{
    resolved_type_replaces_aliases(from, ty, s.current().aliases);
}

/// A name can be called if and only if it stands for a function.
proof fn lemma_callee(from: parse::CallName, name: CallName, s: ScopeView)
    ensures
        call_name(from, s) == Ok::<CallName, crate::error::ErrorView>(name) <==> is_callee(
            from,
            name,
            definitions(s),
        ),
{
    match (from, name) {
        (parse::CallName::UnwrapLeft(ty), CallName::UnwrapLeft(right)) => {
            lemma_type(ty, right, s);
        },
        (parse::CallName::UnwrapRight(ty), CallName::UnwrapRight(left)) => {
            lemma_type(ty, left, s);
        },
        (parse::CallName::IsNone(ty), CallName::IsNone(some)) => {
            lemma_type(ty, some, s);
        },
        (parse::CallName::TypeCast(ty), CallName::TypeCast(source)) => {
            lemma_type(ty, source, s);
        },
        _ => {},
    }
}

/// The analysis of a call accepts it if it fits.
proof fn lemma_call(from: parse::Call, ty: ResolvedType, s: ScopeView)
    ensures
        call(from, ty, s).0 is Ok ==> call_accepts(
            from,
            ty,
            visible(s.variables),
            definitions(s),
        ) && visible(call(from, ty, s).1.variables) == visible(s.variables),
        call_accepts(from, ty, visible(s.variables), definitions(s)) && is_pure_call(from) ==> call(
            from,
            ty,
            s,
        ).0 is Ok,
    decreases from,
{
    let vars = visible(s.variables);
    let d = definitions(s);
    let args = shared(from.args);
    if let Ok(name) = call_name(from.name, s) {
        lemma_callee(from.name, name, s);
        if let Ok(tys) = checked_arguments(name, args@.len(), ty) {
            let inside = tracked_before(name, from.span, s);
            assert(definitions(inside) == d);
            assert(inside.variables == s.variables);
            calls_follow_signatures(name, tys, ty);
            lemma_each(args, tys, inside);
            if call(from, ty, s).0 is Ok {
                assert(is_callee(from.name, name, d) && has_signature(name, tys@, ty));
            }
        }
    }
    if call_accepts(from, ty, vars, d) && is_pure_call(from) {
        let (name, tys) = choose|name: CallName, tys: List<ResolvedType>| #[trigger]
            is_callee(from.name, name, d) && #[trigger] has_signature(name, tys@, ty) && all_accept(
                args,
                tys,
                vars,
                d,
            );
        lemma_callee(from.name, name, s);
        lemma_all_accept(args, tys, vars, d);
        calls_follow_signatures(name, tys, ty);
        lemma_each(args, tys, tracked_before(name, from.span, s));
    }
}

/// The analysis of a match arm accepts it if it fits.
proof fn lemma_arm(from: parse::MatchArm, span: Span, ty: ResolvedType, s: ScopeView)
    ensures
        match_arm(from, span, ty, s).0 is Ok ==> arm_accepts(
            from,
            ty,
            visible(s.variables),
            definitions(s),
        ) && visible(match_arm(from, span, ty, s).1.variables) == visible(s.variables),
        arm_accepts(from, ty, visible(s.variables), definitions(s)) && is_pure_arm(from)
            ==> match_arm(from, span, ty, s).0 is Ok,
    decreases from,
{
    let start = s.in_block();
    lemma_visible_in_block(s.variables);
    assert(definitions(start) == definitions(s));
    let inside = arm_bindings(from.pattern, start).1;
    assert(start.variables.drop_last() =~= s.variables);
    match from.pattern {
        MatchPattern::Left(p, aliased) => {
            lemma_arm_bindings(p, aliased, start);
        },
        MatchPattern::Right(p, aliased) => {
            lemma_arm_bindings(p, aliased, start);
        },
        MatchPattern::Something(p, aliased) => {
            lemma_arm_bindings(p, aliased, start);
        },
        _ => {},
    }
    accepted_expressions_fit(shared(from.expression), ty, inside);
    match_arm_keeps(from, span, ty, s);
    if match_arm(from, span, ty, s).0 is Ok {
        expression_keeps(shared(from.expression), ty, inside);
        let after = expression(shared(from.expression), ty, inside).1;
        assert(inside.variables.drop_last() =~= s.variables);
        assert(after.variables.drop_last() == inside.variables.drop_last());
    }
}

/// The variables that a pattern binds in a new block.
proof fn lemma_arm_bindings(pattern: crate::pattern::Pattern, aliased: AliasedType, s: ScopeView)
    requires
        s.variables.len() > 0,
    ensures
        match resolved(aliased, s.current().aliases) {
            Ok(ty) => match bound_by(pattern, ty, Map::empty()) {
                Ok(bindings) => vars_with(
                    pattern,
                    aliased,
                    visible(s.variables),
                    definitions(s).aliases,
                ) == Some(visible(s.with_variables(bindings).variables)),
                Err(_) => true,
            },
            Err(_) => true,
        },
{
    if let Ok(ty) = resolved(aliased, s.current().aliases) {
        if let Ok(bindings) = bound_by(pattern, ty, Map::empty()) {
            lemma_visible_with(s.variables, bindings);
        }
    }
}

/// The analysis of a match expression accepts it if it fits.
proof fn lemma_match(from: parse::Match, ty: ResolvedType, s: ScopeView)
    ensures
        match_(from, ty, s).0 is Ok ==> match_accepts(
            from,
            ty,
            visible(s.variables),
            definitions(s),
        ) && visible(match_(from, ty, s).1.variables) == visible(s.variables),
        match_accepts(from, ty, visible(s.variables), definitions(s)) && is_pure_match(from)
            ==> match_(from, ty, s).0 is Ok,
    decreases from,
{
    reveal_with_fuel(resolved, 2);
    if let Some(aliased) = scrutinee_type(from.left.pattern, from.right.pattern) {
        if let Ok(scrutinee_ty) = s.resolved(aliased) {
            assert(taken_apart(from.left.pattern, from.right.pattern, definitions(s).aliases)
                == Some(scrutinee_ty));
            accepted_expressions_fit(shared(from.scrutinee), scrutinee_ty, s);
            expression_keeps(shared(from.scrutinee), scrutinee_ty, s);
            let s1 = expression(shared(from.scrutinee), scrutinee_ty, s).1;
            lemma_arm(from.left, from.span, ty, s1);
            match_arm_keeps(from.left, from.span, ty, s1);
            lemma_arm(from.right, from.span, ty, match_arm(from.left, from.span, ty, s1).1);
        }
    }
}

/// The definition of a function is accepted if its types resolve, its name is free, and its body
/// can be of the type that it returns and refers to no witness and to no parameter of the program.
/// The variables in the body are the parameters of the function.
pub proof fn fitting_functions_are_accepted(
    from: parse::Function,
    s: ScopeView,
    list: List<crate::ast::FunctionParam>,
    ret: ResolvedType,
)
    requires
        s.valid(),
        s.variables.len() == 0,
        params(*from.params, s) == Ok::<
            List<crate::ast::FunctionParam>,
            crate::error::ErrorView,
        >(list),
        return_type(from.ret, s) == Ok::<ResolvedType, crate::error::ErrorView>(ret),
        !s.current().functions.contains_key(from.name@),
        accepts(*from.body, ret, params_types(list, Map::empty()), definitions(s)),
        is_pure(*from.body),
    ensures
        custom_function(from, s).0 is Ok,
{
    let start = s.in_block();
    let inside = with_params(list, start);
    lemma_visible_in_block(s.variables);
    lemma_params(list, start);
    crate::ast::frame::with_params_keeps(list, start);
    assert(visible(s.variables) =~= Map::<Seq<char>, ResolvedType>::empty());
    accepted_expressions_fit(shared(from.body), ret, inside);
    expression_keeps(shared(from.body), ret, inside);
    let after = expression(shared(from.body), ret, inside).1.after_block();
    assert(after.root == s.root && after.position == s.position);
}

/// A witness is accepted if and only if it is in the main function and is used for the first time,
/// and it is then known with the expected type. A parameter is accepted if and only if it has not
/// been used at another type.
pub proof fn witnesses_are_used_once(
    name: crate::name::WitnessName,
    span: Span,
    ty: ResolvedType,
    s: ScopeView,
)
    ensures
        ({
            let (outcome, after) = single_inner(
                parse::SingleExpressionInner::Witness(name),
                span,
                ty,
                s,
            );
            &&& outcome is Ok <==> s.is_main && !s.witnesses.contains_key(name@)
            &&& outcome is Ok ==> after.witnesses == s.witnesses.insert(name@, ty)
            &&& outcome is Err ==> after.witnesses == s.witnesses
        }),
        ({
            let (outcome, after) = single_inner(
                parse::SingleExpressionInner::Parameter(name),
                span,
                ty,
                s,
            );
            &&& outcome is Ok <==> (s.parameters.contains_key(name@) ==> s.parameters[name@] == ty)
            &&& outcome is Ok ==> after.parameters == s.parameters.insert(name@, ty)
            &&& outcome is Err ==> after.parameters == s.parameters
        }),
{
    if s.parameters.contains_key(name@) && s.parameters[name@] == ty {
        assert(s.parameters.insert(name@, ty) =~= s.parameters);
    }
}

} // verus!
