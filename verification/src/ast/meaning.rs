//! When a syntax tree means what a parse tree says.
use crate::ast::scope::ScopeView;
use crate::ast::{
    Assignment, Call, CallName, CustomFunction, Expression, ExpressionInner, FunctionParam, Match,
    MatchArm, SingleExpression, SingleExpressionInner, Statement,
};
use crate::jet::Jet;
use crate::list::List;
use crate::parse;
use crate::parse::{Either, Visibility};
use crate::types::{AliasMap, AliasedType, ResolvedType};
use crate::value::laws::{is_byte, is_numeral, width_of};
use crate::value::Value;
use vstd::prelude::*;

verus! {

/// What the names in an expression stand for.
pub ghost struct Definitions {
    /// The type aliases.
    pub aliases: AliasMap,
    /// The functions.
    pub functions: Map<Seq<char>, (CustomFunction, Visibility)>,
    /// The jets.
    pub jets: Map<Seq<char>, Jet>,
}

/// What names stand for in a scope.
pub open spec fn definitions(s: ScopeView) -> Definitions {
    Definitions {
        aliases: s.current().aliases,
        functions: s.current().functions,
        jets: s.jets,
    }
}

/// Whether a type is another one with its aliases replaced by what they stand for.
pub open spec fn is_type(from: AliasedType, ty: ResolvedType, aliases: AliasMap) -> bool
    decreases from,
{
    match from {
        AliasedType::Alias(name) => aliases.contains_key(name@) && aliases[name@].0 == ty,
        AliasedType::Builtin(_, builtin) => ty == *builtin,
        AliasedType::Either(l, r) => ty matches ResolvedType::Either(left, right) && is_type(
            *l,
            *left,
            aliases,
        ) && is_type(*r, *right, aliases),
        AliasedType::Option(t) => ty matches ResolvedType::Option(some) && is_type(
            *t,
            *some,
            aliases,
        ),
        AliasedType::Boolean => ty == ResolvedType::Boolean,
        AliasedType::UInt(n) => ty == ResolvedType::UInt(n),
        AliasedType::Tuple(ts) => ty matches ResolvedType::Tuple(elements) && are_types(
            *ts,
            *elements,
            aliases,
        ),
        AliasedType::Array(t, n) => ty matches ResolvedType::Array(element, size) && size == n
            && is_type(*t, *element, aliases),
        AliasedType::List(t, n) => ty matches ResolvedType::List(element, bound) && bound == n
            && is_type(*t, *element, aliases),
    }
}

/// Whether types are those at the same position with their aliases replaced.
pub open spec fn are_types(
    from: List<AliasedType>,
    tys: List<ResolvedType>,
    aliases: AliasMap,
) -> bool
    decreases from,
{
    match (from, tys) {
        (List::Nil, List::Nil) => true,
        (List::Cons(head, tail), List::Cons(first, rest)) => is_type(head, first, aliases)
            && are_types(*tail, *rest, aliases),
        _ => false,
    }
}

/// Whether a value is what a literal denotes.
pub open spec fn denotes(from: parse::SingleExpressionInner, value: Value) -> bool {
    match from {
        parse::SingleExpressionInner::Boolean(true) => value == Value::Boolean(true),
        parse::SingleExpressionInner::Boolean(false) => value == Value::Boolean(false),
        parse::SingleExpressionInner::Decimal(text) => value matches Value::UInt(n) && text@.len()
            > 0 && is_numeral(text@, 10, n.number.value() as int),
        parse::SingleExpressionInner::Binary(text) => value matches Value::UInt(n) && is_numeral(
            text@,
            2,
            n.number.value() as int,
        ) && text@.len() == width_of(n.ty),
        parse::SingleExpressionInner::Hexadecimal(text) => match value {
            Value::UInt(n) => is_numeral(text@, 16, n.number.value() as int) && text@.len() * 4
                == width_of(n.ty),
            Value::Bytes(bytes) => {
                &&& text@.len() == 2 * bytes@.len()
                &&& forall|i: int|
                    0 <= i < bytes@.len() ==> is_byte(
                        text@[2 * i],
                        text@[2 * i + 1],
                        #[trigger] bytes@[i],
                    )
            },
            Value::Boolean(_) => false,
        },
        _ => false,
    }
}

/// Whether an expression means what a parsed expression says: it has the same parts at the same
/// places, and the names in it stand for what is defined.
pub open spec fn means(from: parse::Expression, e: Expression, d: Definitions) -> bool
    decreases from,
{
    &&& e.span == from.span
    &&& match from.inner {
        parse::ExpressionInner::Single(parsed) => e.inner matches ExpressionInner::Single(single)
            && single_means(parsed, single, d),
        parse::ExpressionInner::Block(parsed, parsed_last) => e.inner matches ExpressionInner::Block(
            list,
            last,
        ) && statements_mean(*parsed, *list, d) && match parsed_last {
            Some(parsed_value) => last matches Some(value) && means(*parsed_value, *value, d),
            None => last is None,
        },
    }
}

/// Whether statements mean what parsed statements say.
pub open spec fn statements_mean(
    from: List<parse::Statement>,
    list: List<Statement>,
    d: Definitions,
) -> bool
    decreases from,
{
    match (from, list) {
        (List::Nil, List::Nil) => true,
        (List::Cons(head, tail), List::Cons(first, rest)) => statement_means(head, first, d)
            && statements_mean(*tail, *rest, d),
        _ => false,
    }
}

/// Whether a statement means what a parsed statement says.
pub open spec fn statement_means(
    from: parse::Statement,
    statement: Statement,
    d: Definitions,
) -> bool
    decreases from,
{
    match from {
        parse::Statement::Assignment(parsed) => statement matches Statement::Assignment(a)
            && assignment_means(parsed, a, d),
        parse::Statement::Expression(parsed) => statement matches Statement::Expression(e) && means(
            parsed,
            e,
            d,
        ),
    }
}

/// Whether an assignment means what a parsed assignment says: the value of the annotated type is
/// bound to the same pattern.
pub open spec fn assignment_means(from: parse::Assignment, a: Assignment, d: Definitions) -> bool
    decreases from,
{
    &&& a.pattern == from.pattern
    &&& a.span == from.span
    &&& is_type(from.ty, a.expression.ty, d.aliases)
    &&& means(from.expression, a.expression, d)
}

/// Whether expressions mean what the parsed expressions at the same positions say.
pub open spec fn all_mean(
    from: List<parse::Expression>,
    list: List<Expression>,
    d: Definitions,
) -> bool
    decreases from,
{
    match (from, list) {
        (List::Nil, List::Nil) => true,
        (List::Cons(head, tail), List::Cons(first, rest)) => means(head, first, d) && all_mean(
            *tail,
            *rest,
            d,
        ),
        _ => false,
    }
}

/// Whether a single expression means what a parsed one says.
pub open spec fn single_means(
    from: parse::SingleExpression,
    single: SingleExpression,
    d: Definitions,
) -> bool
    decreases from,
{
    single.span == from.span && inner_means(from.inner, single.inner, d)
}

/// Whether the variant of a single expression means what a parsed one says.
pub open spec fn inner_means(
    from: parse::SingleExpressionInner,
    inner: SingleExpressionInner,
    d: Definitions,
) -> bool
    decreases from,
{
    match from {
        parse::SingleExpressionInner::Boolean(_) => inner matches SingleExpressionInner::Constant(
            value,
        ) && denotes(from, value),
        parse::SingleExpressionInner::Decimal(_) => inner matches SingleExpressionInner::Constant(
            value,
        ) && denotes(from, value),
        parse::SingleExpressionInner::Binary(_) => inner matches SingleExpressionInner::Constant(
            value,
        ) && denotes(from, value),
        parse::SingleExpressionInner::Hexadecimal(_) => inner
            matches SingleExpressionInner::Constant(value) && denotes(from, value),
        parse::SingleExpressionInner::Witness(name) => inner matches SingleExpressionInner::Witness(
            same,
        ) && same == name,
        parse::SingleExpressionInner::Parameter(name) => inner
            matches SingleExpressionInner::Parameter(same) && same == name,
        parse::SingleExpressionInner::Variable(name) => inner
            matches SingleExpressionInner::Variable(same) && same == name,
        parse::SingleExpressionInner::Expression(parsed) => inner
            matches SingleExpressionInner::Expression(e) && means(*parsed, *e, d),
        parse::SingleExpressionInner::Tuple(parsed) => inner matches SingleExpressionInner::Tuple(
            list,
        ) && all_mean(*parsed, *list, d),
        parse::SingleExpressionInner::Array(parsed) => inner matches SingleExpressionInner::Array(
            list,
        ) && all_mean(*parsed, *list, d),
        parse::SingleExpressionInner::List(parsed) => inner matches SingleExpressionInner::List(
            list,
        ) && all_mean(*parsed, *list, d),
        parse::SingleExpressionInner::Either(Either::Left(parsed)) => inner
            matches SingleExpressionInner::Either(Either::Left(e)) && means(*parsed, *e, d),
        parse::SingleExpressionInner::Either(Either::Right(parsed)) => inner
            matches SingleExpressionInner::Either(Either::Right(e)) && means(*parsed, *e, d),
        parse::SingleExpressionInner::Option(Some(parsed)) => inner
            matches SingleExpressionInner::Option(Some(e)) && means(*parsed, *e, d),
        parse::SingleExpressionInner::Option(None) => inner
            == SingleExpressionInner::Option(None),
        parse::SingleExpressionInner::Call(parsed) => inner matches SingleExpressionInner::Call(c)
            && call_means(parsed, c, d),
        parse::SingleExpressionInner::Match(parsed) => inner matches SingleExpressionInner::Match(m)
            && match_means(parsed, m, d),
    }
}

/// Whether a call means what a parsed call says.
pub open spec fn call_means(from: parse::Call, call: Call, d: Definitions) -> bool
    decreases from,
{
    &&& call.span == from.span
    &&& callee_means(from.name, call.name, d)
    &&& all_mean(*from.args, *call.args, d)
}

/// Whether a name stands for the definition of a function.
pub open spec fn is_defined_as(d: Definitions, name: Seq<char>, f: CustomFunction) -> bool {
    d.functions.contains_key(name) && d.functions[name].0 == f
}

/// Whether the called function is the one that is named.
pub open spec fn callee_means(from: parse::CallName, name: CallName, d: Definitions) -> bool {
    match from {
        parse::CallName::Jet(parsed) => name matches CallName::Jet(jet) && d.jets.contains_key(
            parsed@,
        ) && d.jets[parsed@] == jet && !jet.disabled,
        parse::CallName::UnwrapLeft(parsed) => name matches CallName::UnwrapLeft(right) && is_type(
            parsed,
            right,
            d.aliases,
        ),
        parse::CallName::UnwrapRight(parsed) => name matches CallName::UnwrapRight(left) && is_type(
            parsed,
            left,
            d.aliases,
        ),
        parse::CallName::IsNone(parsed) => name matches CallName::IsNone(some) && is_type(
            parsed,
            some,
            d.aliases,
        ),
        parse::CallName::Unwrap => name == CallName::Unwrap,
        parse::CallName::Assert => name == CallName::Assert,
        parse::CallName::Panic => name == CallName::Panic,
        parse::CallName::Debug => name == CallName::Debug,
        parse::CallName::TypeCast(parsed) => name matches CallName::TypeCast(source) && is_type(
            parsed,
            source,
            d.aliases,
        ),
        parse::CallName::Custom(parsed) => name matches CallName::Custom(f) && is_defined_as(
            d,
            parsed@,
            f,
        ),
        parse::CallName::Fold(parsed, n) => name matches CallName::Fold(f, bound) && is_defined_as(
            d,
            parsed@,
            f,
        ) && bound == n,
        parse::CallName::ArrayFold(parsed, n) => name matches CallName::ArrayFold(f, size)
            && is_defined_as(d, parsed@, f) && size == n,
        parse::CallName::ForWhile(parsed) => name matches CallName::ForWhile(f, _) && is_defined_as(
            d,
            parsed@,
            f,
        ),
    }
}

/// Whether a match expression means what a parsed one says.
pub open spec fn match_means(from: parse::Match, m: Match, d: Definitions) -> bool
    decreases from,
{
    &&& m.span == from.span
    &&& means(*from.scrutinee, *m.scrutinee, d)
    &&& arm_means(from.left, m.left, d)
    &&& arm_means(from.right, m.right, d)
}

/// Whether a match arm means what a parsed one says.
pub open spec fn arm_means(from: parse::MatchArm, arm: MatchArm, d: Definitions) -> bool
    decreases from,
{
    arm.pattern == from.pattern && means(*from.expression, *arm.expression, d)
}

/// Whether the parameters of a function are those that are written: the same names in the same
/// order, with their types.
pub open spec fn params_mean(
    from: Seq<parse::FunctionParam>,
    list: Seq<FunctionParam>,
    d: Definitions,
) -> bool {
    &&& list.len() == from.len()
    &&& forall|i: int|
        0 <= i < from.len() ==> (#[trigger] list[i]).identifier == from[i].identifier && is_type(
            from[i].ty,
            list[i].ty,
            d.aliases,
        )
}

/// Whether a function is the one that is written: it has the same parameters, and its body means
/// what the parsed body says and is of the written type.
pub open spec fn function_means(from: parse::Function, f: CustomFunction, d: Definitions) -> bool {
    &&& params_mean(from.params@, f.params@, d)
    &&& means(*from.body, *f.body, d)
    &&& match from.ret {
        Some(ret) => is_type(ret, f.body.ty, d.aliases),
        None => f.body.ty matches ResolvedType::Tuple(elements) && elements@.len() == 0,
    }
}

} // verus!
