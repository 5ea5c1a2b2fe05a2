//! Texts of types and patterns.
pub mod laws;

use crate::list::List;
use crate::pattern::{MatchPattern, Pattern};
use crate::text::{decimal, decimal_text, join, joined, texts};
use crate::types::{AliasedType, ResolvedType, UIntType};
use vstd::prelude::*;

verus! {

/// Put three texts together.
pub fn concat3(a: &str, b: &str, c: &str) -> (text: String)
    ensures
        text@ == a@ + b@ + c@,
{
    let mut text: String = a.to_owned();
    text.append(b);
    text.append(c);
    text
}

/// Put five texts together.
pub fn concat5(a: &str, b: &str, c: &str, d: &str, e: &str) -> (text: String)
    ensures
        text@ == a@ + b@ + c@ + d@ + e@,
{
    let mut text: String = concat3(a, b, c);
    text.append(d);
    text.append(e);
    text
}

/// The text of an integer type.
pub open spec fn uint_text(ty: UIntType) -> Seq<char> {
    match ty {
        UIntType::U1 => "u1"@,
        UIntType::U2 => "u2"@,
        UIntType::U4 => "u4"@,
        UIntType::U8 => "u8"@,
        UIntType::U16 => "u16"@,
        UIntType::U32 => "u32"@,
        UIntType::U64 => "u64"@,
        UIntType::U128 => "u128"@,
        UIntType::U256 => "u256"@,
    }
}

/// The text of a tuple of parts. A single part is followed by a comma.
pub open spec fn tuple_text(parts: Seq<Seq<char>>) -> Seq<char> {
    if parts.len() == 1 {
        "("@ + parts[0] + ",)"@
    } else {
        "("@ + joined(parts, ", "@) + ")"@
    }
}

impl UIntType {
    /// Write the type.
    pub fn to_string(&self) -> (text: String)
        ensures
            text@ == uint_text(*self),
    {
        match self {
            UIntType::U1 => "u1".to_owned(),
            UIntType::U2 => "u2".to_owned(),
            UIntType::U4 => "u4".to_owned(),
            UIntType::U8 => "u8".to_owned(),
            UIntType::U16 => "u16".to_owned(),
            UIntType::U32 => "u32".to_owned(),
            UIntType::U64 => "u64".to_owned(),
            UIntType::U128 => "u128".to_owned(),
            UIntType::U256 => "u256".to_owned(),
        }
    }
}

/// Write a tuple of parts.
fn write_tuple(parts: Vec<String>) -> (text: String)
    ensures
        text@ == tuple_text(texts(parts@)),
{
    if parts.len() == 1 {
        concat3("(", parts[0].as_str(), ",)")
    } else {
        concat3("(", join(&parts, ", ").as_str(), ")")
    }
}

/// The text of a type.
pub open spec fn type_text(ty: ResolvedType) -> Seq<char>
    decreases ty,
{
    match ty {
        ResolvedType::Either(l, r) => "Either<"@ + type_text(*l) + ", "@ + type_text(*r) + ">"@,
        ResolvedType::Option(t) => "Option<"@ + type_text(*t) + ">"@,
        ResolvedType::Boolean => "bool"@,
        ResolvedType::UInt(n) => uint_text(n),
        ResolvedType::Tuple(ts) => tuple_text(type_texts(*ts)),
        ResolvedType::Array(t, n) => "["@ + type_text(*t) + "; "@ + decimal(n as nat) + "]"@,
        ResolvedType::List(t, n) => "List<"@ + type_text(*t) + ", "@ + decimal(n as nat) + ">"@,
    }
}

/// The text of each type.
pub open spec fn type_texts(tys: List<ResolvedType>) -> Seq<Seq<char>>
    decreases tys,
{
    match tys {
        List::Nil => Seq::empty(),
        List::Cons(head, tail) => seq![type_text(head)] + type_texts(*tail),
    }
}

impl ResolvedType {
    /// Write the type.
    pub fn to_string(&self) -> (text: String)
        ensures
            text@ == type_text(*self),
        decreases self,
    {
        match self {
            ResolvedType::Either(l, r) => concat5(
                "Either<",
                l.to_string().as_str(),
                ", ",
                r.to_string().as_str(),
                ">",
            ),
            ResolvedType::Option(t) => concat3("Option<", t.to_string().as_str(), ">"),
            ResolvedType::Boolean => "bool".to_owned(),
            ResolvedType::UInt(n) => n.to_string(),
            ResolvedType::Tuple(ts) => {
                let mut parts: Vec<String> = Vec::new();
                ResolvedType::push_texts(ts, &mut parts);
                assert(texts(parts@) =~= type_texts(**ts));
                write_tuple(parts)
            },
            ResolvedType::Array(t, n) => concat5(
                "[",
                t.to_string().as_str(),
                "; ",
                decimal_text(*n).as_str(),
                "]",
            ),
            ResolvedType::List(t, n) => concat5(
                "List<",
                t.to_string().as_str(),
                ", ",
                decimal_text(*n).as_str(),
                ">",
            ),
        }
    }

    /// Append the text of each type to `out`.
    fn push_texts(tys: &List<ResolvedType>, out: &mut Vec<String>)
        ensures
            texts(final(out)@) == texts(old(out)@) + type_texts(*tys),
        decreases tys,
    {
        match tys {
            List::Nil => {
                assert(texts(out@) =~= texts(out@) + Seq::<Seq<char>>::empty());
            },
            List::Cons(head, tail) => {
                let ghost start = out@;
                out.push(head.to_string());
                assert(texts(out@) =~= texts(start).push(type_text(*head)));
                ResolvedType::push_texts(tail, out);
                assert(texts(out@) =~= texts(start) + type_texts(*tys));
            },
        }
    }
}

/// The text of a type.
pub open spec fn aliased_text(ty: AliasedType) -> Seq<char>
    decreases ty,
{
    match ty {
        AliasedType::Alias(name) => name@,
        AliasedType::Builtin(name, _) => name@,
        AliasedType::Either(l, r) => "Either<"@ + aliased_text(*l) + ", "@ + aliased_text(*r) + ">"@,
        AliasedType::Option(t) => "Option<"@ + aliased_text(*t) + ">"@,
        AliasedType::Boolean => "bool"@,
        AliasedType::UInt(n) => uint_text(n),
        AliasedType::Tuple(ts) => tuple_text(aliased_texts(*ts)),
        AliasedType::Array(t, n) => "["@ + aliased_text(*t) + "; "@ + decimal(n as nat) + "]"@,
        AliasedType::List(t, n) => "List<"@ + aliased_text(*t) + ", "@ + decimal(n as nat) + ">"@,
    }
}

/// The text of each type.
pub open spec fn aliased_texts(tys: List<AliasedType>) -> Seq<Seq<char>>
    decreases tys,
{
    match tys {
        List::Nil => Seq::empty(),
        List::Cons(head, tail) => seq![aliased_text(head)] + aliased_texts(*tail),
    }
}

impl AliasedType {
    /// Write the type.
    pub fn to_string(&self) -> (text: String)
        ensures
            text@ == aliased_text(*self),
        decreases self,
    {
        match self {
            AliasedType::Alias(name) => name.text.clone(),
            AliasedType::Builtin(name, _) => name.text.clone(),
            AliasedType::Either(l, r) => concat5(
                "Either<",
                l.to_string().as_str(),
                ", ",
                r.to_string().as_str(),
                ">",
            ),
            AliasedType::Option(t) => concat3("Option<", t.to_string().as_str(), ">"),
            AliasedType::Boolean => "bool".to_owned(),
            AliasedType::UInt(n) => n.to_string(),
            AliasedType::Tuple(ts) => {
                let mut parts: Vec<String> = Vec::new();
                AliasedType::push_texts(ts, &mut parts);
                assert(texts(parts@) =~= aliased_texts(**ts));
                write_tuple(parts)
            },
            AliasedType::Array(t, n) => concat5(
                "[",
                t.to_string().as_str(),
                "; ",
                decimal_text(*n).as_str(),
                "]",
            ),
            AliasedType::List(t, n) => concat5(
                "List<",
                t.to_string().as_str(),
                ", ",
                decimal_text(*n).as_str(),
                ">",
            ),
        }
    }

    /// Append the text of each type to `out`.
    fn push_texts(tys: &List<AliasedType>, out: &mut Vec<String>)
        ensures
            texts(final(out)@) == texts(old(out)@) + aliased_texts(*tys),
        decreases tys,
    {
        match tys {
            List::Nil => {
                assert(texts(out@) =~= texts(out@) + Seq::<Seq<char>>::empty());
            },
            List::Cons(head, tail) => {
                let ghost start = out@;
                out.push(head.to_string());
                assert(texts(out@) =~= texts(start).push(aliased_text(*head)));
                AliasedType::push_texts(tail, out);
                assert(texts(out@) =~= texts(start) + aliased_texts(*tys));
            },
        }
    }
}

/// The text of a pattern.
pub open spec fn pattern_text(pattern: Pattern) -> Seq<char>
    decreases pattern,
{
    match pattern {
        Pattern::Identifier(name) => name@,
        Pattern::Ignore => "_"@,
        Pattern::Tuple(ps) => tuple_text(pattern_texts(*ps)),
        Pattern::Array(ps) => "["@ + joined(pattern_texts(*ps), ", "@) + "]"@,
    }
}

/// The text of each pattern.
pub open spec fn pattern_texts(patterns: List<Pattern>) -> Seq<Seq<char>>
    decreases patterns,
{
    match patterns {
        List::Nil => Seq::empty(),
        List::Cons(head, tail) => seq![pattern_text(head)] + pattern_texts(*tail),
    }
}

impl Pattern {
    /// Write the pattern.
    pub fn to_string(&self) -> (text: String)
        ensures
            text@ == pattern_text(*self),
        decreases self,
    {
        match self {
            Pattern::Identifier(name) => name.text.clone(),
            Pattern::Ignore => "_".to_owned(),
            Pattern::Tuple(ps) => {
                let mut parts: Vec<String> = Vec::new();
                Pattern::push_texts(ps, &mut parts);
                assert(texts(parts@) =~= pattern_texts(**ps));
                write_tuple(parts)
            },
            Pattern::Array(ps) => {
                let mut parts: Vec<String> = Vec::new();
                Pattern::push_texts(ps, &mut parts);
                assert(texts(parts@) =~= pattern_texts(**ps));
                concat3("[", join(&parts, ", ").as_str(), "]")
            },
        }
    }

    /// Append the text of each pattern to `out`.
    fn push_texts(patterns: &List<Pattern>, out: &mut Vec<String>)
        ensures
            texts(final(out)@) == texts(old(out)@) + pattern_texts(*patterns),
        decreases patterns,
    {
        match patterns {
            List::Nil => {
                assert(texts(out@) =~= texts(out@) + Seq::<Seq<char>>::empty());
            },
            List::Cons(head, tail) => {
                let ghost start = out@;
                out.push(head.to_string());
                assert(texts(out@) =~= texts(start).push(pattern_text(*head)));
                Pattern::push_texts(tail, out);
                assert(texts(out@) =~= texts(start) + pattern_texts(*patterns));
            },
        }
    }
}

/// The text of the pattern of a match arm.
pub open spec fn match_pattern_text(pattern: MatchPattern) -> Seq<char> {
    match pattern {
        MatchPattern::Left(p, ty) => "Left("@ + pattern_text(p) + ": "@ + aliased_text(ty) + ")"@,
        MatchPattern::Right(p, ty) => "Right("@ + pattern_text(p) + ": "@ + aliased_text(ty)
            + ")"@,
        MatchPattern::Nothing => "None"@,
        MatchPattern::Something(p, ty) => "Some("@ + pattern_text(p) + ": "@ + aliased_text(ty)
            + ")"@,
        MatchPattern::False => "false"@,
        MatchPattern::True => "true"@,
    }
}

impl MatchPattern {
    /// Write the pattern.
    pub fn to_string(&self) -> (text: String)
        ensures
            text@ == match_pattern_text(*self),
    {
        match self {
            MatchPattern::Left(p, ty) => concat5(
                "Left(",
                p.to_string().as_str(),
                ": ",
                ty.to_string().as_str(),
                ")",
            ),
            MatchPattern::Right(p, ty) => concat5(
                "Right(",
                p.to_string().as_str(),
                ": ",
                ty.to_string().as_str(),
                ")",
            ),
            MatchPattern::Nothing => "None".to_owned(),
            MatchPattern::Something(p, ty) => concat5(
                "Some(",
                p.to_string().as_str(),
                ": ",
                ty.to_string().as_str(),
                ")",
            ),
            MatchPattern::False => "false".to_owned(),
            MatchPattern::True => "true".to_owned(),
        }
    }
}

} // verus!
