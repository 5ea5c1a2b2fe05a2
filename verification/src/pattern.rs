//! Patterns, which bind the parts of a value to variables.
pub mod laws;

use crate::error::{Error, ErrorView};
use crate::list::List;
use crate::name::Identifier;
use crate::name_map::NameMap;
use crate::types::{AliasedType, ResolvedType};
use std::sync::Arc;
use vstd::prelude::*;

verus! {

/// Pattern for binding values to variables.
#[derive(Debug, PartialEq, Eq, Hash)]
pub enum Pattern {
    /// Bind the value to a variable.
    Identifier(Identifier),
    /// Bind nothing.
    Ignore,
    /// Bind the components of a tuple.
    Tuple(Arc<List<Pattern>>),
    /// Bind the elements of an array.
    Array(Arc<List<Pattern>>),
}

impl Clone for Pattern {
    fn clone(&self) -> (result: Self)
        ensures
            result == *self,
    {
        match self {
            Pattern::Identifier(name) => Pattern::Identifier(name.clone()),
            Pattern::Ignore => Pattern::Ignore,
            Pattern::Tuple(ps) => Pattern::Tuple(ps.clone()),
            Pattern::Array(ps) => Pattern::Array(ps.clone()),
        }
    }
}

/// Pattern of a match arm.
#[derive(Debug, PartialEq, Eq, Hash)]
pub enum MatchPattern {
    /// Left value of a type, bound to a pattern.
    Left(Pattern, AliasedType),
    /// Right value of a type, bound to a pattern.
    Right(Pattern, AliasedType),
    /// No value of an optional type.
    Nothing,
    /// Some value of a type, bound to a pattern.
    Something(Pattern, AliasedType),
    /// The false value.
    False,
    /// The true value.
    True,
}

impl Clone for MatchPattern {
    fn clone(&self) -> (result: Self)
        ensures
            result == *self,
    {
        match self {
            MatchPattern::Left(p, ty) => MatchPattern::Left(p.clone(), ty.clone()),
            MatchPattern::Right(p, ty) => MatchPattern::Right(p.clone(), ty.clone()),
            MatchPattern::Nothing => MatchPattern::Nothing,
            MatchPattern::Something(p, ty) => MatchPattern::Something(p.clone(), ty.clone()),
            MatchPattern::False => MatchPattern::False,
            MatchPattern::True => MatchPattern::True,
        }
    }
}

/// Variables with their types.
pub type Bindings = Map<Seq<char>, ResolvedType>;

/// The variables that are bound after a value of type `ty` was bound to `pattern`,
/// given the variables that were bound before, or else the first error from left to right.
pub open spec fn bound_by(pattern: Pattern, ty: ResolvedType, before: Bindings) -> Result<
    Bindings,
    ErrorView,
>
    decreases pattern,
{
    match pattern {
        Pattern::Identifier(name) => if before.contains_key(name@) {
            Err(Error::VariableReuseInPattern(name@))
        } else {
            Ok(before.insert(name@, ty))
        },
        Pattern::Ignore => Ok(before),
        Pattern::Tuple(ps) => match ty {
            ResolvedType::Tuple(tys) if ps@.len() == tys@.len() => bound_by_tuple(
                *ps,
                *tys,
                before,
            ),
            _ => Err(Error::ExpressionUnexpectedType(ty)),
        },
        Pattern::Array(ps) => match ty {
            ResolvedType::Array(element, n) if ps@.len() == n => bound_by_array(
                *ps,
                *element,
                before,
            ),
            _ => Err(Error::ExpressionUnexpectedType(ty)),
        },
    }
}

/// The variables that are bound after the components of a tuple were bound to patterns.
pub open spec fn bound_by_tuple(
    patterns: List<Pattern>,
    tys: List<ResolvedType>,
    before: Bindings,
) -> Result<Bindings, ErrorView>
    decreases patterns,
{
    match (patterns, tys) {
        (List::Cons(p, ps), List::Cons(ty, rest)) => match bound_by(p, ty, before) {
            Err(e) => Err(e),
            Ok(after) => bound_by_tuple(*ps, *rest, after),
        },
        _ => Ok(before),
    }
}

/// The variables that are bound after the elements of an array were bound to patterns.
pub open spec fn bound_by_array(
    patterns: List<Pattern>,
    element: ResolvedType,
    before: Bindings,
) -> Result<Bindings, ErrorView>
    decreases patterns,
{
    match patterns {
        List::Nil => Ok(before),
        List::Cons(p, ps) => match bound_by(p, element, before) {
            Err(e) => Err(e),
            Ok(after) => bound_by_array(*ps, element, after),
        },
    }
}

/// The outcome of a binding, as its contract states it.
pub open spec fn is_binding(
    result: Result<NameMap<ResolvedType>, Error>,
    expected: Result<Bindings, ErrorView>,
) -> bool {
    match result {
        Ok(map) => expected == Ok::<Bindings, ErrorView>(map@),
        Err(e) => expected == Err::<Bindings, ErrorView>(e@),
    }
}

impl Pattern {
    /// Compute which variables of which types are bound when a value of type `ty` is matched
    /// against the pattern.
    ///
    /// ## Errors
    ///
    /// * [`Error::VariableReuseInPattern`] A variable occurs twice in the pattern.
    /// * [`Error::ExpressionUnexpectedType`] A tuple or array pattern meets a type of another shape.
    pub fn is_of_type(&self, ty: &ResolvedType) -> (result: Result<NameMap<ResolvedType>, Error>)
        ensures
            is_binding(result, bound_by(*self, *ty, Map::empty())),
    {
        self.bind(ty, NameMap::new())
    }

    /// Bind a value of type `ty` to the pattern, after the given bindings.
    fn bind(&self, ty: &ResolvedType, before: NameMap<ResolvedType>) -> (result: Result<
        NameMap<ResolvedType>,
        Error,
    >)
        ensures
            is_binding(result, bound_by(*self, *ty, before@)),
        decreases self,
    {
        match self {
            Pattern::Identifier(name) => {
                if before.contains_key(name) {
                    return Err(Error::VariableReuseInPattern(name.text.clone()));
                }
                let mut after = before;
                after.insert(name.clone(), ty.clone());
                Ok(after)
            },
            Pattern::Ignore => Ok(before),
            Pattern::Tuple(ps) => {
                if let ResolvedType::Tuple(tys) = ty {
                    if ps.same_len(tys) {
                        return Pattern::bind_tuple(ps, tys, before);
                    }
                }
                Err(Error::ExpressionUnexpectedType(ty.clone()))
            },
            Pattern::Array(ps) => {
                if let ResolvedType::Array(element, n) = ty {
                    if ps.has_len(*n) {
                        return Pattern::bind_array(ps, element, before);
                    }
                }
                Err(Error::ExpressionUnexpectedType(ty.clone()))
            },
        }
    }

    /// Bind the components of a tuple.
    fn bind_tuple(
        patterns: &List<Pattern>,
        tys: &List<ResolvedType>,
        before: NameMap<ResolvedType>,
    ) -> (result: Result<NameMap<ResolvedType>, Error>)
        ensures
            is_binding(result, bound_by_tuple(*patterns, *tys, before@)),
        decreases patterns,
    {
        match (patterns, tys) {
            (List::Cons(p, ps), List::Cons(ty, rest)) => {
                let after = p.bind(ty, before)?;
                Pattern::bind_tuple(ps, rest, after)
            },
            _ => Ok(before),
        }
    }

    /// Bind the elements of an array.
    fn bind_array(
        patterns: &List<Pattern>,
        element: &ResolvedType,
        before: NameMap<ResolvedType>,
    ) -> (result: Result<NameMap<ResolvedType>, Error>)
        ensures
            is_binding(result, bound_by_array(*patterns, *element, before@)),
        decreases patterns,
    {
        match patterns {
            List::Nil => Ok(before),
            List::Cons(p, ps) => {
                let after = p.bind(element, before)?;
                Pattern::bind_array(ps, element, after)
            },
        }
    }
}

} // verus!
