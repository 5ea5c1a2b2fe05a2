//! Which parsed expressions are accepted at a type.
use crate::ast::meaning::{callee_means, Definitions};
use crate::ast::signature_laws::{can_fold, can_loop, has_signature};
use crate::ast::typing::Types;
use crate::ast::CallName;
use crate::list::List;
use crate::parse;
use crate::parse::Either;
use crate::pattern::{bound_by, MatchPattern, Pattern};
use crate::types::{resolved, AliasMap, AliasedType, ResolvedType, UIntType};
use crate::value::laws::{is_numeral, width_of};
use std::sync::Arc;
use vstd::arithmetic::power::pow;
use vstd::prelude::*;

verus! {

/// The variables after a value of an annotated type was bound to a pattern, if the type resolves
/// and the pattern fits it.
pub open spec fn vars_with(
    pattern: Pattern,
    ty: AliasedType,
    vars: Types,
    aliases: AliasMap,
) -> Option<Types> {
    match resolved(ty, aliases) {
        Ok(t) => match bound_by(pattern, t, Map::empty()) {
            Ok(bindings) => Some(vars.union_prefer_right(bindings)),
            Err(_) => None,
        },
        Err(_) => None,
    }
}

/// The variables after statements.
pub open spec fn vars_after(list: List<parse::Statement>, vars: Types, aliases: AliasMap) -> Types
    decreases list,
{
    match list {
        List::Nil => vars,
        List::Cons(parse::Statement::Assignment(a), tail) => match vars_with(
            a.pattern,
            a.ty,
            vars,
            aliases,
        ) {
            Some(inside) => vars_after(*tail, inside, aliases),
            None => vars,
        },
        List::Cons(_, tail) => vars_after(*tail, vars, aliases),
    }
}

/// Whether a literal can be of a type.
pub open spec fn literal_accepts(from: parse::SingleExpressionInner, ty: ResolvedType) -> bool {
    match from {
        parse::SingleExpressionInner::Boolean(_) => ty == ResolvedType::Boolean,
        parse::SingleExpressionInner::Decimal(text) => ty matches ResolvedType::UInt(uint)
            && text@.len() > 0 && exists|n: int| #[trigger]
            is_numeral(text@, 10, n) && n < pow(2, width_of(uint)),
        parse::SingleExpressionInner::Binary(text) => ty matches ResolvedType::UInt(uint)
            && text@.len() == width_of(uint) && exists|n: int| #[trigger] is_numeral(text@, 2, n),
        parse::SingleExpressionInner::Hexadecimal(text) => {
            &&& exists|n: int| #[trigger] is_numeral(text@, 16, n)
            &&& match ty {
                ResolvedType::UInt(uint) => width_of(uint) >= 8 && text@.len() * 4 == width_of(
                    uint,
                ),
                ResolvedType::Array(element, n) => *element == ResolvedType::UInt(UIntType::U8)
                    && text@.len() == 2 * n,
                _ => false,
            }
        },
        _ => false,
    }
}

/// Whether an expression can be of a type, given the types of the variables. Witnesses and
/// parameters can be of any type.
pub open spec fn accepts(
    from: parse::Expression,
    ty: ResolvedType,
    vars: Types,
    d: Definitions,
) -> bool
    decreases from,
{
    match from.inner {
        parse::ExpressionInner::Single(single) => single_accepts(single, ty, vars, d),
        parse::ExpressionInner::Block(list, last) => statements_accept(*list, vars, d)
            && match last {
            Some(e) => accepts(*e, ty, vars_after(*list, vars, d.aliases), d),
            None => ty matches ResolvedType::Tuple(elements) && *elements is Nil,
        },
    }
}

/// Whether statements are accepted, each with the variables that the statements before it bind.
pub open spec fn statements_accept(
    list: List<parse::Statement>,
    vars: Types,
    d: Definitions,
) -> bool
    decreases list,
{
    match list {
        List::Nil => true,
        List::Cons(head, tail) => statement_accepts(head, vars, d) && statements_accept(
            *tail,
            vars_after(List::Cons(head, Box::new(List::Nil)), vars, d.aliases),
            d,
        ),
    }
}

/// Whether a statement is accepted: the value of an assignment is of the annotated type, and
/// another expression returns nothing.
pub open spec fn statement_accepts(from: parse::Statement, vars: Types, d: Definitions) -> bool
    decreases from,
{
    match from {
        parse::Statement::Assignment(a) => assignment_accepts(a, vars, d),
        parse::Statement::Expression(e) => accepts(
            e,
            ResolvedType::Tuple(Arc::new(List::Nil)),
            vars,
            d,
        ),
    }
}

/// Whether an assignment is accepted.
pub open spec fn assignment_accepts(from: parse::Assignment, vars: Types, d: Definitions) -> bool
    decreases from,
{
    &&& vars_with(from.pattern, from.ty, vars, d.aliases) is Some
    &&& resolved(from.ty, d.aliases) matches Ok(t) && accepts(from.expression, t, vars, d)
}

/// Whether expressions can be of the types at the same positions.
pub open spec fn all_accept(
    from: List<parse::Expression>,
    tys: List<ResolvedType>,
    vars: Types,
    d: Definitions,
) -> bool
    decreases from,
{
    match (from, tys) {
        (List::Nil, List::Nil) => true,
        (List::Cons(head, tail), List::Cons(ty, rest)) => accepts(head, ty, vars, d) && all_accept(
            *tail,
            *rest,
            vars,
            d,
        ),
        _ => false,
    }
}

/// Whether expressions can all be of one type.
pub open spec fn all_accept_one(
    from: List<parse::Expression>,
    ty: ResolvedType,
    vars: Types,
    d: Definitions,
) -> bool
    decreases from,
{
    match from {
        List::Nil => true,
        List::Cons(head, tail) => accepts(head, ty, vars, d) && all_accept_one(*tail, ty, vars, d),
    }
}

/// Whether a single expression can be of a type.
pub open spec fn single_accepts(
    from: parse::SingleExpression,
    ty: ResolvedType,
    vars: Types,
    d: Definitions,
) -> bool
    decreases from,
{
    inner_accepts(from.inner, ty, vars, d)
}

/// Whether the variant of a single expression can be of a type.
pub open spec fn inner_accepts(
    from: parse::SingleExpressionInner,
    ty: ResolvedType,
    vars: Types,
    d: Definitions,
) -> bool
    decreases from,
{
    match from {
        parse::SingleExpressionInner::Witness(_) => true,
        parse::SingleExpressionInner::Parameter(_) => true,
        parse::SingleExpressionInner::Variable(name) => vars.contains_key(name@) && vars[name@]
            == ty,
        parse::SingleExpressionInner::Expression(e) => accepts(*e, ty, vars, d),
        parse::SingleExpressionInner::Tuple(list) => ty matches ResolvedType::Tuple(tys)
            && all_accept(*list, *tys, vars, d),
        parse::SingleExpressionInner::Array(list) => ty matches ResolvedType::Array(element, n)
            && list@.len() == n && all_accept_one(*list, *element, vars, d),
        parse::SingleExpressionInner::List(list) => ty matches ResolvedType::List(element, bound)
            && list@.len() < bound && all_accept_one(*list, *element, vars, d),
        parse::SingleExpressionInner::Either(Either::Left(e)) => ty matches ResolvedType::Either(
            left,
            _,
        ) && accepts(*e, *left, vars, d),
        parse::SingleExpressionInner::Either(Either::Right(e)) => ty matches ResolvedType::Either(
            _,
            right,
        ) && accepts(*e, *right, vars, d),
        parse::SingleExpressionInner::Option(Some(e)) => ty matches ResolvedType::Option(some)
            && accepts(*e, *some, vars, d),
        parse::SingleExpressionInner::Option(None) => ty is Option,
        parse::SingleExpressionInner::Call(c) => call_accepts(c, ty, vars, d),
        parse::SingleExpressionInner::Match(m) => match_accepts(m, ty, vars, d),
        _ => literal_accepts(from, ty),
    }
}

/// Whether a name can be called and stands for a function.
pub open spec fn is_callee(from: parse::CallName, name: CallName, d: Definitions) -> bool {
    &&& callee_means(from, name, d)
    &&& match name {
        CallName::Fold(f, _) => can_fold(f),
        CallName::ArrayFold(f, _) => can_fold(f),
        CallName::ForWhile(f, width) => can_loop(f, width),
        _ => true,
    }
}

/// Whether a call can return a value of a type: the function is known, and its arguments can be of
/// the types of its signature.
pub open spec fn call_accepts(from: parse::Call, ty: ResolvedType, vars: Types, d: Definitions) -> bool
    decreases from,
{
    exists|name: CallName, tys: List<ResolvedType>| #[trigger]
        is_callee(from.name, name, d) && #[trigger] has_signature(name, tys@, ty) && all_accept(
            *from.args,
            tys,
            vars,
            d,
        )
}

/// The type of the value that two match arms take apart.
pub open spec fn taken_apart(
    left: MatchPattern,
    right: MatchPattern,
    aliases: AliasMap,
) -> Option<ResolvedType> {
    match (left, right) {
        (MatchPattern::Left(_, a), MatchPattern::Right(_, b)) => match (
            resolved(a, aliases),
            resolved(b, aliases),
        ) {
            (Ok(l), Ok(r)) => Some(ResolvedType::Either(Arc::new(l), Arc::new(r))),
            _ => None,
        },
        (MatchPattern::Nothing, MatchPattern::Something(_, a)) => match resolved(a, aliases) {
            Ok(some) => Some(ResolvedType::Option(Arc::new(some))),
            Err(_) => None,
        },
        (MatchPattern::False, MatchPattern::True) => Some(ResolvedType::Boolean),
        _ => None,
    }
}

/// Whether a match expression can return a value of a type.
pub open spec fn match_accepts(
    from: parse::Match,
    ty: ResolvedType,
    vars: Types,
    d: Definitions,
) -> bool
    decreases from,
{
    match taken_apart(from.left.pattern, from.right.pattern, d.aliases) {
        Some(t) => accepts(*from.scrutinee, t, vars, d) && arm_accepts(from.left, ty, vars, d)
            && arm_accepts(from.right, ty, vars, d),
        None => false,
    }
}

/// The variables in a match arm.
pub open spec fn arm_vars(pattern: MatchPattern, vars: Types, aliases: AliasMap) -> Option<Types> {
    match pattern {
        MatchPattern::Left(p, ty) => vars_with(p, ty, vars, aliases),
        MatchPattern::Right(p, ty) => vars_with(p, ty, vars, aliases),
        MatchPattern::Something(p, ty) => vars_with(p, ty, vars, aliases),
        _ => Some(vars),
    }
}

/// Whether a match arm can return a value of a type.
pub open spec fn arm_accepts(
    from: parse::MatchArm,
    ty: ResolvedType,
    vars: Types,
    d: Definitions,
) -> bool
    decreases from,
{
    match arm_vars(from.pattern, vars, d.aliases) {
        Some(inside) => accepts(*from.expression, ty, inside, d),
        None => false,
    }
}

/// Whether an expression refers to no witness and to no parameter of the program.
pub open spec fn is_pure(from: parse::Expression) -> bool
    decreases from,
{
    match from.inner {
        parse::ExpressionInner::Single(single) => is_pure_single(single),
        parse::ExpressionInner::Block(list, last) => are_pure_statements(*list) && (
        last matches Some(e) ==> is_pure(*e)),
    }
}

/// Whether statements refer to no witness and to no parameter of the program.
pub open spec fn are_pure_statements(list: List<parse::Statement>) -> bool
    decreases list,
{
    match list {
        List::Nil => true,
        List::Cons(head, tail) => is_pure_statement(head) && are_pure_statements(*tail),
    }
}

/// Whether a statement refers to no witness and to no parameter of the program.
pub open spec fn is_pure_statement(from: parse::Statement) -> bool
    decreases from,
{
    match from {
        parse::Statement::Assignment(a) => is_pure_assignment(a),
        parse::Statement::Expression(e) => is_pure(e),
    }
}

/// Whether an assignment refers to no witness and to no parameter of the program.
pub open spec fn is_pure_assignment(from: parse::Assignment) -> bool
    decreases from,
{
    is_pure(from.expression)
}

/// Whether expressions refer to no witness and to no parameter of the program.
pub open spec fn are_pure(list: List<parse::Expression>) -> bool
    decreases list,
{
    match list {
        List::Nil => true,
        List::Cons(head, tail) => is_pure(head) && are_pure(*tail),
    }
}

/// Whether a single expression refers to no witness and to no parameter of the program.
pub open spec fn is_pure_single(from: parse::SingleExpression) -> bool
    decreases from,
{
    is_pure_inner(from.inner)
}

/// Whether the variant of a single expression refers to no witness and to no parameter of the
/// program.
pub open spec fn is_pure_inner(from: parse::SingleExpressionInner) -> bool
    decreases from,
{
    match from {
        parse::SingleExpressionInner::Witness(_) => false,
        parse::SingleExpressionInner::Parameter(_) => false,
        parse::SingleExpressionInner::Expression(e) => is_pure(*e),
        parse::SingleExpressionInner::Tuple(list) => are_pure(*list),
        parse::SingleExpressionInner::Array(list) => are_pure(*list),
        parse::SingleExpressionInner::List(list) => are_pure(*list),
        parse::SingleExpressionInner::Either(Either::Left(e)) => is_pure(*e),
        parse::SingleExpressionInner::Either(Either::Right(e)) => is_pure(*e),
        parse::SingleExpressionInner::Option(Some(e)) => is_pure(*e),
        parse::SingleExpressionInner::Call(c) => is_pure_call(c),
        parse::SingleExpressionInner::Match(m) => is_pure_match(m),
        _ => true,
    }
}

/// Whether a call refers to no witness and to no parameter of the program.
pub open spec fn is_pure_call(from: parse::Call) -> bool
    decreases from,
{
    are_pure(*from.args)
}

/// Whether a match expression refers to no witness and to no parameter of the program.
pub open spec fn is_pure_match(from: parse::Match) -> bool
    decreases from,
{
    is_pure(*from.scrutinee) && is_pure_arm(from.left) && is_pure_arm(from.right)
}

/// Whether a match arm refers to no witness and to no parameter of the program.
pub open spec fn is_pure_arm(from: parse::MatchArm) -> bool
    decreases from,
{
    is_pure(*from.expression)
}

} // verus!
