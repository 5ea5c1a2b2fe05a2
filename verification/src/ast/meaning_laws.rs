//! The analysis of a program results in a tree that means what the program says.
use crate::ast::frame::{expression_keeps, match_arm_keeps, statement_keeps};
use crate::ast::meaning::{
    all_mean, are_types, arm_means, assignment_means, call_means, callee_means, definitions,
    denotes, function_means, inner_means, is_type, match_means, means, params_mean, single_means,
    statement_means, statements_mean,
};
use crate::ast::rules::{
    all, assignment, call, call_name, checked_arguments, custom_function, each, expression,
    main_function, match_, match_arm, params, return_type, single_expression, single_inner,
    statement, statements, tracked_before, with_params,
};
use crate::ast::scope::ScopeView;
use crate::ast::{CustomFunction, Function, SingleExpressionInner};
use crate::error::Span;
use crate::list::{shared, List};
use crate::parse;
use crate::parse::{scrutinee_type, Either};
use crate::types::{resolved, resolved_all, unit_type, AliasMap, AliasedType, ResolvedType};
use crate::value::laws::{
    bit_strings_denote_numbers, decimal_literals_denote_numbers, hexadecimal_literals_denote_values,
};
use crate::value::Value;
use vstd::prelude::*;

verus! {

/// The literal `true` denotes the value true, and the literal `false` the value false, wherever a
/// truth value is expected. Nowhere else is such a literal accepted.
pub proof fn boolean_literals_denote_themselves(span: Span, ty: ResolvedType, s: ScopeView)
    ensures
        single_inner(parse::SingleExpressionInner::Boolean(true), span, ty, s).0 is Ok
            <==> ty == ResolvedType::Boolean,
        single_inner(parse::SingleExpressionInner::Boolean(true), span, ty, s).0 matches Ok(inner)
            ==> inner == SingleExpressionInner::Constant(Value::Boolean(true)),
        single_inner(parse::SingleExpressionInner::Boolean(false), span, ty, s).0 is Ok
            <==> ty == ResolvedType::Boolean,
        single_inner(parse::SingleExpressionInner::Boolean(false), span, ty, s).0 matches Ok(inner)
            ==> inner == SingleExpressionInner::Constant(Value::Boolean(false)),
{
}

/// A type resolves to the type with all aliases replaced. It does so if and only if there is such a
/// type.
pub proof fn resolved_type_replaces_aliases(
    from: AliasedType,
    ty: ResolvedType,
    aliases: AliasMap,
)
    ensures
        resolved(from, aliases) == Ok::<ResolvedType, Seq<char>>(ty) <==> is_type(
            from,
            ty,
            aliases,
        ),
    decreases from,
{
    match from {
        AliasedType::Either(l, r) => {
            if let ResolvedType::Either(left, right) = ty {
                resolved_type_replaces_aliases(shared(l), shared(left), aliases);
                resolved_type_replaces_aliases(shared(r), shared(right), aliases);
            }
        },
        AliasedType::Option(t) => {
            if let ResolvedType::Option(some) = ty {
                resolved_type_replaces_aliases(shared(t), shared(some), aliases);
            }
        },
        AliasedType::Tuple(ts) => {
            if let ResolvedType::Tuple(elements) = ty {
                resolved_types_replace_aliases(shared(ts), shared(elements), aliases);
            }
        },
        AliasedType::Array(t, _) => {
            if let ResolvedType::Array(element, _) = ty {
                resolved_type_replaces_aliases(shared(t), shared(element), aliases);
            }
        },
        AliasedType::List(t, _) => {
            if let ResolvedType::List(element, _) = ty {
                resolved_type_replaces_aliases(shared(t), shared(element), aliases);
            }
        },
        _ => {},
    }
}

/// Types resolve to the types with all aliases replaced.
pub proof fn resolved_types_replace_aliases(
    from: List<AliasedType>,
    tys: List<ResolvedType>,
    aliases: AliasMap,
)
    ensures
        resolved_all(from, aliases) == Ok::<List<ResolvedType>, Seq<char>>(tys) <==> are_types(
            from,
            tys,
            aliases,
        ),
    decreases from,
{
    match (from, tys) {
        (List::Cons(head, tail), List::Cons(first, rest)) => {
            resolved_type_replaces_aliases(head, first, aliases);
            resolved_types_replace_aliases(*tail, *rest, aliases);
        },
        _ => {},
    }
}

/// A type that is resolved in a scope has the aliases of the scope replaced.
proof fn lemma_type(from: AliasedType, s: ScopeView)
    ensures
        s.resolved(from) matches Ok(ty) ==> is_type(from, ty, definitions(s).aliases),
{
    if let Ok(ty) = s.resolved(from) {
        resolved_type_replaces_aliases(from, ty, s.current().aliases);
    }
}

/// The analysis of an expression results in a tree of the expected type that means what the
/// expression says: literals denote their values, names stand for what is defined in the scope, and
/// all parts are in their places.
pub proof fn analyzed_expression_keeps_meaning(
    from: parse::Expression,
    ty: ResolvedType,
    s: ScopeView,
)
    ensures
        expression(from, ty, s).0 matches Ok(e) ==> e.ty == ty && means(from, e, definitions(s)),
    decreases from,
{
    match from.inner {
        parse::ExpressionInner::Single(single) => {
            lemma_single(single, ty, s);
        },
        parse::ExpressionInner::Block(list, last) => {
            lemma_statements(shared(list), s.in_block());
            crate::ast::frame::statements_keep(shared(list), s.in_block());
            let inside = statements(shared(list), s.in_block()).1;
            if let Some(e) = last {
                analyzed_expression_keeps_meaning(shared(e), ty, inside);
            }
        },
    }
}

/// The analysis of statements keeps their meaning.
proof fn lemma_statements(from: List<parse::Statement>, s: ScopeView)
    requires
        s.variables.len() > 0,
    ensures
        statements(from, s).0 matches Ok(list) ==> statements_mean(from, list, definitions(s)),
    decreases from,
{
    if let List::Cons(head, tail) = from {
        lemma_statement(head, s);
        statement_keeps(head, s);
        if statement(head, s).0 is Ok {
            lemma_statements(*tail, statement(head, s).1);
        }
    }
}

/// The analysis of a statement keeps its meaning.
proof fn lemma_statement(from: parse::Statement, s: ScopeView)
    requires
        s.variables.len() > 0,
    ensures
        statement(from, s).0 matches Ok(a) ==> statement_means(from, a, definitions(s)),
    decreases from,
{
    match from {
        parse::Statement::Assignment(a) => {
            lemma_assignment(a, s);
        },
        parse::Statement::Expression(e) => {
            analyzed_expression_keeps_meaning(e, unit_type(), s);
        },
    }
}

/// The analysis of an assignment keeps its meaning.
proof fn lemma_assignment(from: parse::Assignment, s: ScopeView)
    ensures
        assignment(from, s).0 matches Ok(a) ==> assignment_means(from, a, definitions(s)),
    decreases from,
{
    lemma_type(from.ty, s);
    if let Ok(ty) = s.resolved(from.ty) {
        analyzed_expression_keeps_meaning(from.expression, ty, s);
    }
}

/// The analysis of expressions keeps their meaning.
proof fn lemma_each(from: List<parse::Expression>, tys: List<ResolvedType>, s: ScopeView)
    requires
        from@.len() == tys@.len(),
    ensures
        each(from, tys, s).0 matches Ok(list) ==> all_mean(from, list, definitions(s)),
    decreases from,
{
    match (from, tys) {
        (List::Cons(head, tail), List::Cons(ty, rest)) => {
            analyzed_expression_keeps_meaning(head, ty, s);
            expression_keeps(head, ty, s);
            lemma_each(*tail, *rest, expression(head, ty, s).1);
        },
        (List::Cons(head, tail), List::Nil) => {
            assert(from@.len() == 1 + tail@.len());
        },
        _ => {},
    }
}

/// The analysis of expressions of one type keeps their meaning.
proof fn lemma_all(from: List<parse::Expression>, ty: ResolvedType, s: ScopeView)
    ensures
        all(from, ty, s).0 matches Ok(list) ==> all_mean(from, list, definitions(s)),
    decreases from,
{
    if let List::Cons(head, tail) = from {
        analyzed_expression_keeps_meaning(head, ty, s);
        expression_keeps(head, ty, s);
        lemma_all(*tail, ty, expression(head, ty, s).1);
    }
}

/// The analysis of a single expression keeps its meaning.
proof fn lemma_single(from: parse::SingleExpression, ty: ResolvedType, s: ScopeView)
    ensures
        single_expression(from, ty, s).0 matches Ok(single) ==> single.ty == ty && single_means(
            from,
            single,
            definitions(s),
        ),
    decreases from,
{
    lemma_inner(from.inner, from.span, ty, s);
}

/// A literal denotes its value.
proof fn lemma_literal(
    from: parse::SingleExpressionInner,
    span: Span,
    ty: ResolvedType,
    s: ScopeView,
)
    requires
        from is Boolean || from is Decimal || from is Binary || from is Hexadecimal,
    ensures
        single_inner(from, span, ty, s).0 matches Ok(inner) ==> (
        inner matches SingleExpressionInner::Constant(value) && denotes(from, value)),
{
    match from {
        parse::SingleExpressionInner::Decimal(text) => {
            if let ResolvedType::UInt(uint) = ty {
                decimal_literals_denote_numbers(text@, uint);
            }
        },
        parse::SingleExpressionInner::Binary(text) => {
            if let ResolvedType::UInt(uint) = ty {
                bit_strings_denote_numbers(text@, uint);
            }
        },
        parse::SingleExpressionInner::Hexadecimal(text) => {
            hexadecimal_literals_denote_values(text@, ty);
        },
        _ => {},
    }
}

/// The analysis of the variant of a single expression keeps its meaning.
proof fn lemma_inner(
    from: parse::SingleExpressionInner,
    span: Span,
    ty: ResolvedType,
    s: ScopeView,
)
    ensures
        single_inner(from, span, ty, s).0 matches Ok(inner) ==> inner_means(
            from,
            inner,
            definitions(s),
        ),
    decreases from,
{
    match from {
        parse::SingleExpressionInner::Expression(e) => {
            analyzed_expression_keeps_meaning(shared(e), ty, s);
        },
        parse::SingleExpressionInner::Tuple(list) => {
            if let ResolvedType::Tuple(tys) = ty {
                if shared(list)@.len() == shared(tys)@.len() {
                    lemma_each(shared(list), shared(tys), s);
                }
            }
        },
        parse::SingleExpressionInner::Array(list) => {
            if let ResolvedType::Array(element, _) = ty {
                lemma_all(shared(list), shared(element), s);
            }
        },
        parse::SingleExpressionInner::List(list) => {
            if let ResolvedType::List(element, _) = ty {
                lemma_all(shared(list), shared(element), s);
            }
        },
        parse::SingleExpressionInner::Either(Either::Left(e)) => {
            if let ResolvedType::Either(left, _) = ty {
                analyzed_expression_keeps_meaning(shared(e), shared(left), s);
            }
        },
        parse::SingleExpressionInner::Either(Either::Right(e)) => {
            if let ResolvedType::Either(_, right) = ty {
                analyzed_expression_keeps_meaning(shared(e), shared(right), s);
            }
        },
        parse::SingleExpressionInner::Option(Some(e)) => {
            if let ResolvedType::Option(some) = ty {
                analyzed_expression_keeps_meaning(shared(e), shared(some), s);
            }
        },
        parse::SingleExpressionInner::Call(c) => {
            lemma_call(c, ty, s);
        },
        parse::SingleExpressionInner::Match(m) => {
            lemma_match(m, ty, s);
        },
        parse::SingleExpressionInner::Boolean(_) => {
            lemma_literal(from, span, ty, s);
        },
        parse::SingleExpressionInner::Decimal(_) => {
            lemma_literal(from, span, ty, s);
        },
        parse::SingleExpressionInner::Binary(_) => {
            lemma_literal(from, span, ty, s);
        },
        parse::SingleExpressionInner::Hexadecimal(_) => {
            lemma_literal(from, span, ty, s);
        },
        _ => {},
    }
}

/// A called function is the one that is named.
proof fn lemma_callee(from: parse::CallName, s: ScopeView)
    ensures
        call_name(from, s) matches Ok(name) ==> callee_means(from, name, definitions(s)),
{
    match from {
        parse::CallName::UnwrapLeft(ty) => {
            lemma_type(ty, s);
        },
        parse::CallName::UnwrapRight(ty) => {
            lemma_type(ty, s);
        },
        parse::CallName::IsNone(ty) => {
            lemma_type(ty, s);
        },
        parse::CallName::TypeCast(ty) => {
            lemma_type(ty, s);
        },
        _ => {},
    }
}

/// The analysis of a call keeps its meaning.
proof fn lemma_call(from: parse::Call, ty: ResolvedType, s: ScopeView)
    ensures
        call(from, ty, s).0 matches Ok(c) ==> call_means(from, c, definitions(s)),
    decreases from,
{
    lemma_callee(from.name, s);
    if let Ok(name) = call_name(from.name, s) {
        if let Ok(tys) = checked_arguments(name, from.args@.len(), ty) {
            lemma_each(shared(from.args), tys, tracked_before(name, from.span, s));
        }
    }
}

/// The analysis of a match arm keeps its meaning.
proof fn lemma_arm(from: parse::MatchArm, span: Span, ty: ResolvedType, s: ScopeView)
    ensures
        match_arm(from, span, ty, s).0 matches Ok(arm) ==> arm_means(from, arm, definitions(s)),
    decreases from,
{
    let inside = crate::ast::rules::arm_bindings(from.pattern, s.in_block()).1;
    analyzed_expression_keeps_meaning(shared(from.expression), ty, inside);
}

/// The analysis of a match expression keeps its meaning.
proof fn lemma_match(from: parse::Match, ty: ResolvedType, s: ScopeView)
    ensures
        match_(from, ty, s).0 matches Ok(m) ==> match_means(from, m, definitions(s)),
    decreases from,
{
    if let Some(aliased) = scrutinee_type(from.left.pattern, from.right.pattern) {
        if let Ok(scrutinee_ty) = s.resolved(aliased) {
            analyzed_expression_keeps_meaning(shared(from.scrutinee), scrutinee_ty, s);
            expression_keeps(shared(from.scrutinee), scrutinee_ty, s);
            let s1 = expression(shared(from.scrutinee), scrutinee_ty, s).1;
            lemma_arm(from.left, from.span, ty, s1);
            match_arm_keeps(from.left, from.span, ty, s1);
            lemma_arm(from.right, from.span, ty, match_arm(from.left, from.span, ty, s1).1);
        }
    }
}

/// The parameters of a function are those that are written.
proof fn lemma_params(from: List<parse::FunctionParam>, s: ScopeView)
    ensures
        params(from, s) matches Ok(list) ==> params_mean(from@, list@, definitions(s)),
    decreases from,
{
    if let List::Cons(head, tail) = from {
        lemma_type(head.ty, s);
        lemma_params(*tail, s);
        if let Ok(list) = params(from, s) {
            let rest = params(*tail, s)->Ok_0;
            assert forall|i: int| 0 <= i < from@.len() implies (#[trigger] list@[i]).identifier
                == from@[i].identifier && is_type(
                from@[i].ty,
                list@[i].ty,
                definitions(s).aliases,
            ) by {
                if i > 0 {
                    assert(list@[i] == rest@[i - 1]);
                    assert(from@[i] == tail@[i - 1]);
                }
            }
        }
    }
}

/// The parameters of a function change nothing but the variables.
proof fn lemma_with_params(list: List<crate::ast::FunctionParam>, s: ScopeView)
    ensures
        definitions(with_params(list, s)) == definitions(s),
    decreases list,
{
    if let List::Cons(head, tail) = list {
        lemma_with_params(*tail, s.with_variable(head.identifier@, head.ty));
    }
}

/// The definition of a function that is accepted becomes known in its module under its name and
/// with its visibility, and it is the function that is written. Nothing else that is defined
/// changes.
pub proof fn defined_function_keeps_meaning(from: parse::Function, s: ScopeView)
    requires
        s.valid(),
    ensures
        custom_function(from, s).0 is Ok ==> {
            let after = custom_function(from, s).1;
            &&& after.valid()
            &&& !s.current().functions.contains_key(from.name@)
            &&& after.current().functions.contains_key(from.name@)
            &&& after.current().functions[from.name@].1 == from.visibility
            &&& function_means(
                from,
                after.current().functions[from.name@].0,
                definitions(s),
            )
            &&& after.current().functions.remove(from.name@) == s.current().functions
            &&& after.current().aliases == s.current().aliases
            &&& after.current().submodules == s.current().submodules
        },
{
    lemma_params(shared(from.params), s);
    if let Some(aliased) = from.ret {
        lemma_type(aliased, s);
    }
    if custom_function(from, s).0 is Ok {
        let list = params(shared(from.params), s)->Ok_0;
        let ret = return_type(from.ret, s)->Ok_0;
        let inside = with_params(list, s.in_block());
        lemma_with_params(list, s.in_block());
        crate::ast::frame::with_params_keeps(list, s.in_block());
        analyzed_expression_keeps_meaning(shared(from.body), ret, inside);
        expression_keeps(shared(from.body), ret, inside);
        let after = custom_function(from, s).1;
        let middle = expression(shared(from.body), ret, inside).1.after_block();
        assert(middle.root == s.root && middle.position == s.position);
        let new = crate::ast::module::ModuleView {
            functions: s.current().functions.insert(
                from.name@,
                (
                    CustomFunction {
                        params: std::sync::Arc::new(list),
                        body: std::sync::Arc::new(expression(shared(from.body), ret, inside).0->Ok_0),
                    },
                    from.visibility,
                ),
            ),
            ..s.current()
        };
        crate::ast::module::lemma_replaced_at(s.root, s.position, new);
        assert(after.current() == new);
        assert(after.current().functions.remove(from.name@) =~= s.current().functions);
    }
}

/// The main function that is accepted has no parameters and returns nothing, and its body means
/// what is written.
pub proof fn main_function_keeps_meaning(from: parse::Function, s: ScopeView)
    ensures
        main_function(from, s).0 matches Ok(f) ==> {
            &&& f matches Function::Main(body) && means(*from.body, body, definitions(s))
                && body.ty == unit_type()
            &&& from.params@.len() == 0
            &&& from.ret matches Some(ret) ==> is_type(ret, unit_type(), definitions(s).aliases)
            &&& from.visibility == parse::Visibility::Private
        },
{
    if let Some(aliased) = from.ret {
        lemma_type(aliased, s);
    }
    analyzed_expression_keeps_meaning(shared(from.body), unit_type(), s.in_main());
}

} // verus!
