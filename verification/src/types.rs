//! Types of expressions.
use crate::list::List;
use crate::name::AliasName;
use crate::name_map::NameMap;
use crate::parse::Visibility;
use std::sync::Arc;
use vstd::prelude::*;

verus! {

/// Unsigned integer type.
#[derive(Clone, Copy, Debug, PartialEq, Eq, Hash, Structural)]
pub enum UIntType {
    U1,
    U2,
    U4,
    U8,
    U16,
    U32,
    U64,
    U128,
    U256,
}

impl UIntType {
    /// The binary logarithm of the bit width.
    pub open spec fn log_width(self) -> nat {
        match self {
            UIntType::U1 => 0,
            UIntType::U2 => 1,
            UIntType::U4 => 2,
            UIntType::U8 => 3,
            UIntType::U16 => 4,
            UIntType::U32 => 5,
            UIntType::U64 => 6,
            UIntType::U128 => 7,
            UIntType::U256 => 8,
        }
    }

    /// The number of bits of a value of the type.
    pub open spec fn width(self) -> usize {
        match self {
            UIntType::U1 => 1,
            UIntType::U2 => 2,
            UIntType::U4 => 4,
            UIntType::U8 => 8,
            UIntType::U16 => 16,
            UIntType::U32 => 32,
            UIntType::U64 => 64,
            UIntType::U128 => 128,
            UIntType::U256 => 256,
        }
    }

    /// The number of bits of a value of the type.
    pub fn bit_width(self) -> (bits: usize)
        ensures
            bits == self.width(),
    {
        match self {
            UIntType::U1 => 1,
            UIntType::U2 => 2,
            UIntType::U4 => 4,
            UIntType::U8 => 8,
            UIntType::U16 => 16,
            UIntType::U32 => 32,
            UIntType::U64 => 64,
            UIntType::U128 => 128,
            UIntType::U256 => 256,
        }
    }
}

/// A type without aliases.
#[derive(Debug, PartialEq, Eq, Hash)]
pub enum ResolvedType {
    /// Left value of one type or right value of another type.
    Either(Arc<ResolvedType>, Arc<ResolvedType>),
    /// Value of a type, or nothing.
    Option(Arc<ResolvedType>),
    /// Truth value.
    Boolean,
    /// Unsigned integer.
    UInt(UIntType),
    /// Tuple of values.
    Tuple(Arc<List<ResolvedType>>),
    /// Array of as many values of a type as the number says.
    Array(Arc<ResolvedType>, usize),
    /// List of fewer values of a type than the number says.
    List(Arc<ResolvedType>, usize),
}

impl Clone for ResolvedType {
    fn clone(&self) -> (result: Self)
        ensures
            result == *self,
    {
        match self {
            ResolvedType::Either(l, r) => ResolvedType::Either(l.clone(), r.clone()),
            ResolvedType::Option(t) => ResolvedType::Option(t.clone()),
            ResolvedType::Boolean => ResolvedType::Boolean,
            ResolvedType::UInt(n) => ResolvedType::UInt(*n),
            ResolvedType::Tuple(ts) => ResolvedType::Tuple(ts.clone()),
            ResolvedType::Array(t, n) => ResolvedType::Array(t.clone(), *n),
            ResolvedType::List(t, n) => ResolvedType::List(t.clone(), *n),
        }
    }
}

/// Check whether two lists of types are equal.
fn same_types(a: &List<ResolvedType>, b: &List<ResolvedType>) -> (result: bool)
    ensures
        result == (*a == *b),
    decreases a,
{
    match (a, b) {
        (List::Nil, List::Nil) => true,
        (List::Cons(x, xs), List::Cons(y, ys)) => x.same(y) && same_types(xs, ys),
        _ => false,
    }
}

/// The type whose only value is the empty tuple.
pub open spec fn unit_type() -> ResolvedType {
    ResolvedType::Tuple(Arc::new(List::Nil))
}

impl ResolvedType {
    /// The type whose only value is the empty tuple.
    pub fn unit() -> (ty: ResolvedType)
        ensures
            ty == unit_type(),
    {
        ResolvedType::Tuple(Arc::new(List::Nil))
    }

    /// Check whether the type is the type of the empty tuple.
    pub fn is_unit(&self) -> (result: bool)
        ensures
            result == (*self == unit_type()),
    {
        match self {
            ResolvedType::Tuple(ts) => match **ts {
                List::Nil => true,
                List::Cons(_, _) => false,
            },
            _ => false,
        }
    }

    /// Check whether two types are equal.
    pub fn same(&self, other: &ResolvedType) -> (result: bool)
        ensures
            result == (*self == *other),
        decreases self,
    {
        match (self, other) {
            (ResolvedType::Either(a, b), ResolvedType::Either(c, d)) => a.same(c) && b.same(d),
            (ResolvedType::Option(a), ResolvedType::Option(b)) => a.same(b),
            (ResolvedType::Boolean, ResolvedType::Boolean) => true,
            (ResolvedType::UInt(a), ResolvedType::UInt(b)) => *a == *b,
            (ResolvedType::Tuple(a), ResolvedType::Tuple(b)) => same_types(a, b),
            (ResolvedType::Array(a, n), ResolvedType::Array(b, m)) => *n == *m && a.same(b),
            (ResolvedType::List(a, n), ResolvedType::List(b, m)) => *n == *m && a.same(b),
            _ => false,
        }
    }
}

/// A type that may refer to aliases.
#[derive(Debug, PartialEq, Eq, Hash)]
pub enum AliasedType {
    /// Type alias of the program.
    Alias(AliasName),
    /// Type alias of the language, together with the type that it stands for.
    Builtin(AliasName, Arc<ResolvedType>),
    /// Left value of one type or right value of another type.
    Either(Arc<AliasedType>, Arc<AliasedType>),
    /// Value of a type, or nothing.
    Option(Arc<AliasedType>),
    /// Truth value.
    Boolean,
    /// Unsigned integer.
    UInt(UIntType),
    /// Tuple of values.
    Tuple(Arc<List<AliasedType>>),
    /// Array of as many values of a type as the number says.
    Array(Arc<AliasedType>, usize),
    /// List of fewer values of a type than the number says.
    List(Arc<AliasedType>, usize),
}

impl Clone for AliasedType {
    fn clone(&self) -> (result: Self)
        ensures
            result == *self,
    {
        match self {
            AliasedType::Alias(name) => AliasedType::Alias(name.clone()),
            AliasedType::Builtin(name, t) => AliasedType::Builtin(name.clone(), t.clone()),
            AliasedType::Either(l, r) => AliasedType::Either(l.clone(), r.clone()),
            AliasedType::Option(t) => AliasedType::Option(t.clone()),
            AliasedType::Boolean => AliasedType::Boolean,
            AliasedType::UInt(n) => AliasedType::UInt(*n),
            AliasedType::Tuple(ts) => AliasedType::Tuple(ts.clone()),
            AliasedType::Array(t, n) => AliasedType::Array(t.clone(), *n),
            AliasedType::List(t, n) => AliasedType::List(t.clone(), *n),
        }
    }
}

/// The aliases that are in scope: for each name its type and its visibility.
pub type AliasMap = Map<Seq<char>, (ResolvedType, Visibility)>;

/// The type that `ty` stands for, or else the first alias in it that is not in scope.
pub open spec fn resolved(ty: AliasedType, aliases: AliasMap) -> Result<ResolvedType, Seq<char>>
    decreases ty,
{
    match ty {
        AliasedType::Alias(name) => if aliases.contains_key(name@) {
            Ok(aliases[name@].0)
        } else {
            Err(name@)
        },
        AliasedType::Builtin(_, t) => Ok(*t),
        AliasedType::Either(l, r) => match resolved(*l, aliases) {
            Err(name) => Err(name),
            Ok(left) => match resolved(*r, aliases) {
                Err(name) => Err(name),
                Ok(right) => Ok(ResolvedType::Either(Arc::new(left), Arc::new(right))),
            },
        },
        AliasedType::Option(t) => match resolved(*t, aliases) {
            Err(name) => Err(name),
            Ok(inner) => Ok(ResolvedType::Option(Arc::new(inner))),
        },
        AliasedType::Boolean => Ok(ResolvedType::Boolean),
        AliasedType::UInt(n) => Ok(ResolvedType::UInt(n)),
        AliasedType::Tuple(ts) => match resolved_all(*ts, aliases) {
            Err(name) => Err(name),
            Ok(inner) => Ok(ResolvedType::Tuple(Arc::new(inner))),
        },
        AliasedType::Array(t, n) => match resolved(*t, aliases) {
            Err(name) => Err(name),
            Ok(inner) => Ok(ResolvedType::Array(Arc::new(inner), n)),
        },
        AliasedType::List(t, n) => match resolved(*t, aliases) {
            Err(name) => Err(name),
            Ok(inner) => Ok(ResolvedType::List(Arc::new(inner), n)),
        },
    }
}

/// The types that the elements stand for, or else the first alias in them that is not in scope.
pub open spec fn resolved_all(tys: List<AliasedType>, aliases: AliasMap) -> Result<
    List<ResolvedType>,
    Seq<char>,
>
    decreases tys,
{
    match tys {
        List::Nil => Ok(List::Nil),
        List::Cons(head, tail) => match resolved(head, aliases) {
            Err(name) => Err(name),
            Ok(first) => match resolved_all(*tail, aliases) {
                Err(name) => Err(name),
                Ok(rest) => Ok(List::Cons(first, Box::new(rest))),
            },
        },
    }
}

impl AliasedType {
    /// Resolve the aliases in a type.
    ///
    /// ## Errors
    ///
    /// The first alias that is not in scope.
    pub fn resolve<'a>(&'a self, aliases: &NameMap<(ResolvedType, Visibility)>) -> (result: Result<
        ResolvedType,
        &'a AliasName,
    >)
        ensures
            match result {
                Ok(ty) => resolved(*self, aliases@) == Ok::<ResolvedType, Seq<char>>(ty),
                Err(name) => resolved(*self, aliases@) == Err::<ResolvedType, Seq<char>>(name@),
            },
        decreases self,
    {
        match self {
            AliasedType::Alias(name) => match aliases.get(name) {
                Some(entry) => Ok(entry.0.clone()),
                None => Err(name),
            },
            AliasedType::Builtin(_, t) => Ok((**t).clone()),
            AliasedType::Either(l, r) => {
                let left = l.resolve(aliases)?;
                let right = r.resolve(aliases)?;
                Ok(ResolvedType::Either(Arc::new(left), Arc::new(right)))
            },
            AliasedType::Option(t) => Ok(ResolvedType::Option(Arc::new(t.resolve(aliases)?))),
            AliasedType::Boolean => Ok(ResolvedType::Boolean),
            AliasedType::UInt(n) => Ok(ResolvedType::UInt(*n)),
            AliasedType::Tuple(ts) => Ok(
                ResolvedType::Tuple(Arc::new(AliasedType::resolve_all(ts, aliases)?)),
            ),
            AliasedType::Array(t, n) => Ok(
                ResolvedType::Array(Arc::new(t.resolve(aliases)?), *n),
            ),
            AliasedType::List(t, n) => Ok(ResolvedType::List(Arc::new(t.resolve(aliases)?), *n)),
        }
    }

    /// Resolve the aliases in each type of a list.
    ///
    /// ## Errors
    ///
    /// The first alias that is not in scope.
    pub fn resolve_all<'a>(
        tys: &'a List<AliasedType>,
        aliases: &NameMap<(ResolvedType, Visibility)>,
    ) -> (result: Result<List<ResolvedType>, &'a AliasName>)
        ensures
            match result {
                Ok(list) => resolved_all(*tys, aliases@) == Ok::<List<ResolvedType>, Seq<char>>(
                    list,
                ),
                Err(name) => resolved_all(*tys, aliases@) == Err::<List<ResolvedType>, Seq<char>>(
                    name@,
                ),
            },
        decreases tys,
    {
        match tys {
            List::Nil => Ok(List::Nil),
            List::Cons(head, tail) => {
                let first = head.resolve(aliases)?;
                let rest = AliasedType::resolve_all(tail, aliases)?;
                Ok(List::Cons(first, Box::new(rest)))
            },
        }
    }

    /// Resolve a type in which only aliases of the language may occur.
    ///
    /// ## Errors
    ///
    /// The first alias of the program in the type.
    pub fn resolve_builtin(&self) -> (result: Result<ResolvedType, &AliasName>)
        ensures
            match result {
                Ok(ty) => resolved(*self, Map::empty()) == Ok::<ResolvedType, Seq<char>>(ty),
                Err(name) => resolved(*self, Map::empty()) == Err::<ResolvedType, Seq<char>>(name@),
            },
    {
        self.resolve(&NameMap::new())
    }
}

} // verus!
