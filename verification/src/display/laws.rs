//! How types are written.
use super::{
    aliased_text, aliased_texts, match_pattern_text, pattern_text, pattern_texts, tuple_text,
    type_text, type_texts, uint_text,
};
use crate::ast::meaning::{are_types, is_type};
use crate::list::{shared, List};
use crate::pattern::{MatchPattern, Pattern};
use crate::text::laws::joined_in_groups;
use crate::text::{decimal, joined};
use crate::types::{AliasMap, AliasedType, ResolvedType, UIntType};
use crate::value::laws::width_of;
use std::sync::Arc;
use vstd::prelude::*;

verus! {

/// An integer type is written as `u` and its width.
pub proof fn integer_types_are_written_with_width(ty: UIntType)
    ensures
        uint_text(ty) == "u"@ + decimal(width_of(ty)),
{
    reveal_strlit("u");
    reveal_strlit("u1");
    reveal_strlit("u2");
    reveal_strlit("u4");
    reveal_strlit("u8");
    reveal_strlit("u16");
    reveal_strlit("u32");
    reveal_strlit("u64");
    reveal_strlit("u128");
    reveal_strlit("u256");
    reveal_with_fuel(decimal, 3);
    assert(uint_text(ty) =~= "u"@ + decimal(width_of(ty)));
}

/// A tuple is written in parentheses, with commas between its components. A single component is
/// followed by a comma.
pub proof fn tuples_are_written_in_parentheses(
    first: Seq<char>,
    second: Seq<char>,
    rest: Seq<Seq<char>>,
)
    ensures
        tuple_text(Seq::empty()) == "()"@,
        tuple_text(seq![first]) == "("@ + first + ",)"@,
        tuple_text(seq![first] + (seq![second] + rest)) == "("@ + first + ", "@ + joined(
            seq![second] + rest,
            ", "@,
        ) + ")"@,
{
    reveal_strlit("(");
    reveal_strlit(")");
    reveal_strlit("()");
    assert(joined(Seq::empty(), ", "@) == Seq::<char>::empty());
    assert("("@ + Seq::<char>::empty() + ")"@ =~= "()"@);
    joined_in_groups(seq![first], seq![second] + rest, ", "@);
    assert(joined(seq![first], ", "@) == first);
    assert("("@ + (first + ", "@ + joined(seq![second] + rest, ", "@)) + ")"@ =~= "("@ + first
        + ", "@ + joined(seq![second] + rest, ", "@) + ")"@);
}

/// Types are written as in programs.
pub proof fn types_are_written_as_in_programs(l: Arc<ResolvedType>, r: Arc<ResolvedType>, n: usize)
    ensures
        type_text(ResolvedType::Boolean) == "bool"@,
        type_text(ResolvedType::Either(l, r)) == "Either<"@ + type_text(*l) + ", "@ + type_text(*r)
            + ">"@,
        type_text(ResolvedType::Option(l)) == "Option<"@ + type_text(*l) + ">"@,
        type_text(ResolvedType::Array(l, n)) == "["@ + type_text(*l) + "; "@ + decimal(n as nat)
            + "]"@,
        type_text(ResolvedType::List(l, n)) == "List<"@ + type_text(*l) + ", "@ + decimal(n as nat)
            + ">"@,
{
}

/// Whether a type is written without aliases.
pub open spec fn has_no_alias(ty: AliasedType) -> bool
    decreases ty,
{
    match ty {
        AliasedType::Alias(_) => false,
        AliasedType::Builtin(_, _) => false,
        AliasedType::Either(l, r) => has_no_alias(*l) && has_no_alias(*r),
        AliasedType::Option(t) => has_no_alias(*t),
        AliasedType::Boolean => true,
        AliasedType::UInt(_) => true,
        AliasedType::Tuple(ts) => have_no_alias(*ts),
        AliasedType::Array(t, _) => has_no_alias(*t),
        AliasedType::List(t, _) => has_no_alias(*t),
    }
}

/// Whether types are written without aliases.
pub open spec fn have_no_alias(tys: List<AliasedType>) -> bool
    decreases tys,
{
    match tys {
        List::Nil => true,
        List::Cons(head, tail) => has_no_alias(head) && have_no_alias(*tail),
    }
}

/// A type without aliases is written like the type that it stands for.
pub proof fn types_without_aliases_are_written_alike(
    from: AliasedType,
    ty: ResolvedType,
    aliases: AliasMap,
)
    requires
        has_no_alias(from),
        is_type(from, ty, aliases),
    ensures
        aliased_text(from) == type_text(ty),
    decreases from,
{
    match (from, ty) {
        (AliasedType::Either(a, b), ResolvedType::Either(l, r)) => {
            types_without_aliases_are_written_alike(shared(a), shared(l), aliases);
            types_without_aliases_are_written_alike(shared(b), shared(r), aliases);
        },
        (AliasedType::Option(a), ResolvedType::Option(t)) => {
            types_without_aliases_are_written_alike(shared(a), shared(t), aliases);
        },
        (AliasedType::Tuple(a), ResolvedType::Tuple(t)) => {
            lemma_written_alike(shared(a), shared(t), aliases);
        },
        (AliasedType::Array(a, _), ResolvedType::Array(t, _)) => {
            types_without_aliases_are_written_alike(shared(a), shared(t), aliases);
        },
        (AliasedType::List(a, _), ResolvedType::List(t, _)) => {
            types_without_aliases_are_written_alike(shared(a), shared(t), aliases);
        },
        _ => {},
    }
}

/// Types without aliases are written like those that they stand for.
proof fn lemma_written_alike(from: List<AliasedType>, tys: List<ResolvedType>, aliases: AliasMap)
    requires
        have_no_alias(from),
        are_types(from, tys, aliases),
    ensures
        aliased_texts(from) == type_texts(tys),
    decreases from,
{
    match (from, tys) {
        (List::Cons(a, rest), List::Cons(t, others)) => {
            types_without_aliases_are_written_alike(a, t, aliases);
            lemma_written_alike(*rest, *others, aliases);
        },
        _ => {},
    }
}

/// Patterns are written as in programs: variables by their name, ignored values by an underscore,
/// and tuples and arrays like the values that they match.
pub proof fn patterns_are_written_as_in_programs(pattern: Pattern)
    ensures
        match pattern {
            Pattern::Identifier(name) => pattern_text(pattern) == name@,
            Pattern::Ignore => pattern_text(pattern) == "_"@,
            Pattern::Tuple(ps) => exists|parts: Seq<Seq<char>>| #[trigger]
                are_texts_of(parts, ps@) && pattern_text(pattern) == tuple_text(parts),
            Pattern::Array(ps) => exists|parts: Seq<Seq<char>>| #[trigger]
                are_texts_of(parts, ps@) && pattern_text(pattern) == "["@ + joined(parts, ", "@)
                    + "]"@,
        },
{
    match pattern {
        Pattern::Tuple(ps) => {
            lemma_pattern_texts(shared(ps));
            assert(are_texts_of(pattern_texts(*ps), ps@));
        },
        Pattern::Array(ps) => {
            lemma_pattern_texts(shared(ps));
            assert(are_texts_of(pattern_texts(*ps), ps@));
        },
        _ => {},
    }
}

/// Whether texts are those of patterns, in their order.
pub open spec fn are_texts_of(parts: Seq<Seq<char>>, patterns: Seq<Pattern>) -> bool {
    &&& parts.len() == patterns.len()
    &&& forall|i: int| 0 <= i < parts.len() ==> #[trigger] parts[i] == pattern_text(patterns[i])
}

/// There is a text for each pattern.
proof fn lemma_pattern_texts(patterns: List<Pattern>)
    ensures
        are_texts_of(pattern_texts(patterns), patterns@),
    decreases patterns,
{
    if let List::Cons(head, tail) = patterns {
        lemma_pattern_texts(*tail);
        assert(patterns@ =~= seq![head] + tail@);
        assert forall|i: int| 0 <= i < patterns@.len() implies #[trigger] pattern_texts(patterns)[i]
            == pattern_text(patterns@[i]) by {
            if i > 0 {
                assert(pattern_texts(patterns)[i] == pattern_texts(*tail)[i - 1]);
            }
        }
    }
}

/// The patterns of match arms are written by the name of what they match, with the pattern of the
/// value inside and its type.
pub proof fn match_patterns_are_written_as_in_programs(p: Pattern, ty: AliasedType)
    ensures
        match_pattern_text(MatchPattern::Left(p, ty)) == "Left("@ + pattern_text(p) + ": "@
            + aliased_text(ty) + ")"@,
        match_pattern_text(MatchPattern::Right(p, ty)) == "Right("@ + pattern_text(p) + ": "@
            + aliased_text(ty) + ")"@,
        match_pattern_text(MatchPattern::Something(p, ty)) == "Some("@ + pattern_text(p) + ": "@
            + aliased_text(ty) + ")"@,
        match_pattern_text(MatchPattern::Nothing) == "None"@,
        match_pattern_text(MatchPattern::False) == "false"@,
        match_pattern_text(MatchPattern::True) == "true"@,
{
}

} // verus!
