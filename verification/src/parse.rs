//! The parse tree.
pub mod congruence_laws;
pub mod equality;
pub mod equality_laws;
pub mod meaning_laws;

use crate::error::{rich, Error, RichError, Span};
use crate::list::List;
use crate::name::{
    names, AliasName, FunctionName, Identifier, JetName, ModuleName, SymbolName, WitnessName,
};
use crate::pattern::{MatchPattern, Pattern};
use crate::types::AliasedType;
use std::sync::Arc;
use vstd::prelude::*;

verus! {

/// Visibility of an item.
#[derive(Clone, Copy, Debug, PartialEq, Eq, Hash, Structural)]
pub enum Visibility {
    /// Accessible from other files and modules.
    Public,
    /// Accessible only where it is defined.
    Private,
}

/// A program is a sequence of items.
#[derive(Debug)]
pub struct Program {
    pub items: Arc<List<Item>>,
    pub span: Span,
}

/// An item is a component of a program.
#[derive(Debug)]
pub enum Item {
    /// A type alias.
    TypeAlias(TypeAlias),
    /// A function.
    Function(Function),
    /// An import of items from another module.
    Use(UseDecl),
    /// A module with items of its own.
    Module(Module),
    /// A placeholder for an item that could not be parsed.
    Ignored,
}

/// A type alias.
#[derive(Debug)]
pub struct TypeAlias {
    /// The number of the file that defines the alias.
    pub file_id: usize,
    pub visibility: Visibility,
    pub name: AliasName,
    pub ty: AliasedType,
    pub span: Span,
}

/// Definition of a function.
#[derive(Debug)]
pub struct Function {
    /// The number of the file that defines the function.
    pub file_id: usize,
    pub visibility: Visibility,
    pub name: FunctionName,
    pub params: Arc<List<FunctionParam>>,
    /// The return type. A function without return type returns the empty tuple.
    pub ret: Option<AliasedType>,
    pub body: Arc<Expression>,
    pub span: Span,
}

/// Parameter of a function.
#[derive(Debug)]
pub struct FunctionParam {
    pub identifier: Identifier,
    pub ty: AliasedType,
}

/// Import of items.
#[derive(Debug)]
pub struct UseDecl {
    pub visibility: Visibility,
    /// The path that leads to the items.
    pub path: Vec<Identifier>,
    pub items: UseItems,
    pub span: Span,
}

/// The items that are imported from a path.
#[derive(Debug)]
pub enum UseItems {
    Single(UseItem),
    List(Vec<UseItem>),
}

/// An imported item.
#[derive(Debug)]
pub struct UseItem {
    /// The name of the item where it is defined.
    pub name: SymbolName,
    /// The name of the item where it is imported, if it is another one.
    pub alias: Option<SymbolName>,
}

/// A module.
#[derive(Debug)]
pub struct Module {
    /// The number of the file that defines the module.
    pub file_id: usize,
    pub visibility: Visibility,
    pub name: ModuleName,
    pub items: Arc<List<Item>>,
    pub span: Span,
}

/// A statement is a component of a block expression.
#[derive(Debug)]
pub enum Statement {
    /// Assignment of a value to variables.
    Assignment(Assignment),
    /// Expression that returns the empty tuple.
    Expression(Expression),
}

/// Assignment of a value of a type to the variables of a pattern.
#[derive(Debug)]
pub struct Assignment {
    pub pattern: Pattern,
    pub ty: AliasedType,
    pub expression: Expression,
    pub span: Span,
}

/// An expression returns a value.
#[derive(Debug)]
pub struct Expression {
    pub inner: ExpressionInner,
    pub span: Span,
}

/// Variant of an expression.
#[derive(Debug)]
pub enum ExpressionInner {
    /// Expression that directly returns a value.
    Single(SingleExpression),
    /// Statements that are executed in a scope of their own, and a final expression.
    Block(Arc<List<Statement>>, Option<Arc<Expression>>),
}

/// An expression that directly returns a value.
#[derive(Debug)]
pub struct SingleExpression {
    pub inner: SingleExpressionInner,
    pub span: Span,
}

/// Left value or right value.
#[derive(Debug, PartialEq, Eq, Hash)]
pub enum Either<L, R> {
    Left(L),
    Right(R),
}

/// Variant of an expression that directly returns a value.
#[derive(Debug)]
pub enum SingleExpressionInner {
    /// Left or right value.
    Either(Either<Arc<Expression>, Arc<Expression>>),
    /// Value or nothing.
    Option(Option<Arc<Expression>>),
    /// Truth value.
    Boolean(bool),
    /// Decimal literal.
    Decimal(String),
    /// Bit string literal.
    Binary(String),
    /// Hexadecimal literal.
    Hexadecimal(String),
    /// Witness value.
    Witness(WitnessName),
    /// Parameter value.
    Parameter(WitnessName),
    /// Variable.
    Variable(Identifier),
    /// Expression in parentheses.
    Expression(Arc<Expression>),
    /// Tuple.
    Tuple(Arc<List<Expression>>),
    /// Array.
    Array(Arc<List<Expression>>),
    /// Bounded list.
    List(Arc<List<Expression>>),
    /// Call of a function.
    Call(Call),
    /// Match expression.
    Match(Match),
}

/// Call of a function.
#[derive(Debug)]
pub struct Call {
    pub name: CallName,
    pub args: Arc<List<Expression>>,
    pub span: Span,
}

/// Name of a called function.
#[derive(Debug)]
pub enum CallName {
    /// Jet.
    Jet(JetName),
    /// Left value of a value whose right type is given.
    UnwrapLeft(AliasedType),
    /// Right value of a value whose left type is given.
    UnwrapRight(AliasedType),
    /// Check whether an optional value of the given type is absent.
    IsNone(AliasedType),
    /// Value of an optional value.
    Unwrap,
    /// Assertion.
    Assert,
    /// Panic.
    Panic,
    /// Debug output.
    Debug,
    /// Cast from the given type.
    TypeCast(AliasedType),
    /// Function of the program.
    Custom(FunctionName),
    /// Fold of an array of the given size with the given function.
    ArrayFold(FunctionName, usize),
    /// Fold of a list of the given bound with the given function.
    Fold(FunctionName, usize),
    /// Loop over the given function.
    ForWhile(FunctionName),
}

/// Match expression.
#[derive(Debug)]
pub struct Match {
    pub scrutinee: Arc<Expression>,
    pub left: MatchArm,
    pub right: MatchArm,
    pub span: Span,
}

/// Arm of a match expression.
#[derive(Debug)]
pub struct MatchArm {
    pub pattern: MatchPattern,
    pub expression: Arc<Expression>,
}

impl Clone for Program {
    fn clone(&self) -> (result: Self)
        ensures
            result == *self,
    {
        Program { items: self.items.clone(), span: self.span }
    }
}

impl Clone for Function {
    fn clone(&self) -> (result: Self)
        ensures
            result == *self,
    {
        Function {
            file_id: self.file_id,
            visibility: self.visibility,
            name: self.name.clone(),
            params: self.params.clone(),
            ret: match &self.ret {
                Some(ty) => Some(ty.clone()),
                None => None,
            },
            body: self.body.clone(),
            span: self.span,
        }
    }
}

impl Clone for TypeAlias {
    fn clone(&self) -> (result: Self)
        ensures
            result == *self,
    {
        TypeAlias {
            file_id: self.file_id,
            visibility: self.visibility,
            name: self.name.clone(),
            ty: self.ty.clone(),
            span: self.span,
        }
    }
}

/// The type of the values that two match arms take apart, if the arms belong together.
pub open spec fn scrutinee_type(left: MatchPattern, right: MatchPattern) -> Option<AliasedType> {
    match (left, right) {
        (MatchPattern::Left(_, ty_l), MatchPattern::Right(_, ty_r)) => Some(
            AliasedType::Either(Arc::new(ty_l), Arc::new(ty_r)),
        ),
        (MatchPattern::Nothing, MatchPattern::Something(_, ty)) => Some(
            AliasedType::Option(Arc::new(ty)),
        ),
        (MatchPattern::False, MatchPattern::True) => Some(AliasedType::Boolean),
        _ => None,
    }
}

impl Match {
    /// The type of the expression that is taken apart, if the match arms belong together.
    pub fn scrutinee_type(&self) -> (result: Option<AliasedType>)
        ensures
            result == scrutinee_type(self.left.pattern, self.right.pattern),
    {
        match (&self.left.pattern, &self.right.pattern) {
            (MatchPattern::Left(_, ty_l), MatchPattern::Right(_, ty_r)) => Some(
                AliasedType::Either(Arc::new(ty_l.clone()), Arc::new(ty_r.clone())),
            ),
            (MatchPattern::Nothing, MatchPattern::Something(_, ty)) => Some(
                AliasedType::Option(Arc::new(ty.clone())),
            ),
            (MatchPattern::False, MatchPattern::True) => Some(AliasedType::Boolean),
            _ => None,
        }
    }
}

impl UseDecl {
    /// The visibility of the imported names.
    pub fn visibility(&self) -> (visibility: &Visibility)
        ensures
            *visibility == self.visibility,
    {
        &self.visibility
    }

    /// The path that leads to the items.
    pub fn path(&self) -> (path: &Vec<Identifier>)
        ensures
            *path == self.path,
    {
        &self.path
    }

    /// The imported items.
    pub fn items(&self) -> (items: &UseItems)
        ensures
            *items == self.items,
    {
        &self.items
    }

    /// The place of the import.
    pub fn span(&self) -> (span: &Span)
        ensures
            *span == self.span,
    {
        &self.span
    }

    /// The first name of the path: `crate`, or the name of a dependency.
    ///
    /// ## Errors
    ///
    /// * [`Error::CannotParse`] The path is empty.
    pub fn drp_name(&self) -> (result: Result<&str, RichError>)
        ensures
            match result {
                Ok(name) => self.path@.len() > 0 && name@ == self.path@[0]@,
                Err(e) => self.path@.len() == 0 && e@ == rich(
                    Error::CannotParse("Missing dependency root path name"@),
                    self.span,
                ),
            },
    {
        if self.path.len() == 0 {
            Err(
                RichError::new(
                    Error::CannotParse("Missing dependency root path name".to_owned()),
                    self.span,
                ),
            )
        } else {
            Ok(self.path[0].as_inner())
        }
    }
}

impl Clone for UseItem {
    fn clone(&self) -> (result: Self)
        ensures
            result == *self,
    {
        UseItem {
            name: self.name.clone(),
            alias: match &self.alias {
                Some(alias) => Some(alias.clone()),
                None => None,
            },
        }
    }
}

/// What a contract says of imported items.
pub open spec fn use_item_views(items: Seq<UseItem>) -> Seq<(Seq<char>, Option<Seq<char>>)> {
    Seq::new(items.len(), |i: int| items[i]@)
}

impl View for UseItem {
    type V = (Seq<char>, Option<Seq<char>>);

    open spec fn view(&self) -> (Seq<char>, Option<Seq<char>>) {
        (
            self.name@,
            match self.alias {
                Some(alias) => Some(alias@),
                None => None,
            },
        )
    }
}

impl UseItem {
    /// Check whether two imported items have the same names.
    pub fn same(&self, other: &UseItem) -> (result: bool)
        ensures
            result == (self@ == other@),
    {
        self.name.same(&other.name) && match (&self.alias, &other.alias) {
            (Some(a), Some(b)) => a.same(b),
            (None, None) => true,
            _ => false,
        }
    }
}

/// Whether two imports are of the same items from the same path, with the same visibility, at
/// whatever places.
pub open spec fn is_same_use(a: UseDecl, b: UseDecl) -> bool {
    &&& a.visibility == b.visibility
    &&& names(a.path@) == names(b.path@)
    &&& match (a.items, b.items) {
        (UseItems::Single(x), UseItems::Single(y)) => x@ == y@,
        (UseItems::List(x), UseItems::List(y)) => use_item_views(x@) == use_item_views(y@),
        _ => false,
    }
}

/// Check whether two lists consist of the same names.
fn same_names(a: &Vec<Identifier>, b: &Vec<Identifier>) -> (result: bool)
    ensures
        result == (names(a@) == names(b@)),
{
    if a.len() != b.len() {
        assert(names(a@).len() != names(b@).len());
        return false;
    }
    let mut i: usize = 0;
    while i < a.len()
        invariant
            i <= a.len() == b.len(),
            forall|j: int| 0 <= j < i ==> #[trigger] names(a@)[j] == names(b@)[j],
        decreases a.len() - i,
    {
        if !a[i].same(&b[i]) {
            assert(names(a@)[i as int] != names(b@)[i as int]);
            return false;
        }
        i = i + 1;
    }
    assert(names(a@) =~= names(b@));
    true
}

/// Check whether two lists consist of the same imported items.
fn same_use_items(a: &Vec<UseItem>, b: &Vec<UseItem>) -> (result: bool)
    ensures
        result == (use_item_views(a@) == use_item_views(b@)),
{
    if a.len() != b.len() {
        assert(use_item_views(a@).len() != use_item_views(b@).len());
        return false;
    }
    let mut i: usize = 0;
    while i < a.len()
        invariant
            i <= a.len() == b.len(),
            forall|j: int|
                0 <= j < i ==> #[trigger] use_item_views(a@)[j] == use_item_views(b@)[j],
        decreases a.len() - i,
    {
        if !a[i].same(&b[i]) {
            assert(use_item_views(a@)[i as int] != use_item_views(b@)[i as int]);
            return false;
        }
        i = i + 1;
    }
    assert(use_item_views(a@) =~= use_item_views(b@));
    true
}

impl UseDecl {
    /// Check whether two imports are of the same items from the same path, with the same
    /// visibility, at whatever places.
    pub fn same(&self, other: &UseDecl) -> (result: bool)
        ensures
            result == is_same_use(*self, *other),
    {
        self.visibility == other.visibility && same_names(&self.path, &other.path) && match (
            &self.items,
            &other.items,
        ) {
            (UseItems::Single(x), UseItems::Single(y)) => x.same(y),
            (UseItems::List(x), UseItems::List(y)) => same_use_items(x, y),
            _ => false,
        }
    }
}

} // verus!
