//! The driver, which turns the files of a project into a program.
pub mod dependency;
pub mod dependency_laws;
pub mod dfs;
pub mod dfs_laws;
pub mod display;
pub mod display_laws;
pub mod equality;
pub mod exploration_laws;
pub mod flatten_laws;
pub mod link;
pub mod link_laws;
pub mod linearize;
pub mod linearize_laws;
pub mod linking_laws;
pub mod merge;
pub mod order_laws;
pub mod project;
pub mod project_laws;
pub mod resolutions;
pub mod single_laws;

use crate::driver::resolutions::FileResolutions;
use crate::error::{rich, Error, RichError, RichErrorView, Span};
use crate::list::List;
use crate::name::{AliasName, FunctionName};
use crate::parse;
use crate::source::SourceName;
use crate::types::AliasedType;
use std::sync::Arc;
use vstd::prelude::*;

verus! {

/// A program that consists of the items of several files.
#[derive(Debug)]
pub struct Program {
    /// The items of the files, in the order in which the files were linked.
    pub items: Vec<Item>,
    /// The name of each file.
    pub paths: Vec<SourceName>,
    /// The names that are known in each file.
    pub resolutions: Vec<FileResolutions>,
    pub span: Span,
}

/// An item is a component of a driver Program
#[derive(Debug)]
pub enum Item {
    /// A type alias.
    TypeAlias(TypeAlias),
    /// A function.
    Function(Function),
    /// A module, which is ignored.
    Module,
}

/// Definition of a function.
#[derive(Debug)]
pub struct Function {
    pub file_id: usize,
    pub name: FunctionName,
    pub params: Arc<List<parse::FunctionParam>>,
    pub ret: Option<AliasedType>,
    pub body: Arc<parse::Expression>,
    pub span: Span,
}

/// A type alias.
#[derive(Debug)]
pub struct TypeAlias {
    pub file_id: usize,
    pub name: AliasName,
    pub ty: AliasedType,
    pub span: Span,
}

impl Program {
    /// Access the items of the program.
    pub fn items(&self) -> (items: &[Item])
        ensures
            items@ == self.items@,
    {
        self.items.as_slice()
    }

    /// Access the paths of the program
    pub fn paths(&self) -> (paths: &[SourceName])
        ensures
            paths@ == self.paths@,
    {
        self.paths.as_slice()
    }

    /// Access the scope items of the program.
    pub fn resolutions(&self) -> (resolutions: &[FileResolutions])
        ensures
            resolutions@ == self.resolutions@,
    {
        self.resolutions.as_slice()
    }
}

/// The alias of a file.
pub open spec fn alias_of(parsed: parse::TypeAlias, file_id: usize) -> TypeAlias {
    TypeAlias { file_id, name: parsed.name, ty: parsed.ty, span: parsed.span }
}

/// The function of a file.
pub open spec fn function_of(parsed: parse::Function, file_id: usize) -> Function {
    Function {
        file_id,
        name: parsed.name,
        params: parsed.params,
        ret: parsed.ret,
        body: parsed.body,
        span: parsed.span,
    }
}

/// The item of a file. Imports are no such items.
pub open spec fn item_of(parsed: parse::Item, file_id: usize) -> Result<Item, RichErrorView> {
    match parsed {
        parse::Item::TypeAlias(alias) => Ok(Item::TypeAlias(alias_of(alias, file_id))),
        parse::Item::Function(function) => Ok(Item::Function(function_of(function, file_id))),
        parse::Item::Use(decl) => Err(
            rich(
                Error::Internal(
                    "Encountered 'Use' item during driver generation. Imports should be resolved by ProjectGraph."@,
                ),
                decl.span,
            ),
        ),
        parse::Item::Module(_) => Ok(Item::Module),
        parse::Item::Ignored => Ok(Item::Module),
    }
}

impl Item {
    /// Convert a parsed item to the item of a file.
    ///
    /// ## Errors
    ///
    /// * [`Error::Internal`] The item is an import.
    pub fn from_parse(parsed: &parse::Item, file_id: usize) -> (result: Result<Item, RichError>)
        ensures
            match (result, item_of(*parsed, file_id)) {
                (Ok(item), Ok(expected)) => item == expected,
                (Err(e), Err(expected)) => e@ == expected,
                _ => false,
            },
    {
        match parsed {
            parse::Item::TypeAlias(alias) => Ok(
                Item::TypeAlias(TypeAlias::from_parse(alias, file_id)),
            ),
            parse::Item::Function(func) => Ok(Item::Function(Function::from_parse(func, file_id))),
            parse::Item::Use(use_decl) => Err(
                RichError::new(
                    Error::Internal(
                        "Encountered 'Use' item during driver generation. Imports should be resolved by ProjectGraph.".to_owned(),
                    ),
                    use_decl.span,
                ),
            ),
            parse::Item::Module(_) => Ok(Item::Module),
            parse::Item::Ignored => Ok(Item::Module),
        }
    }
}

impl Function {
    /// Converts a parser function to a driver function.
    ///
    /// We explicitly pass `file_id` here because the `parse::Function`
    /// doesn't know which file it came from.
    pub fn from_parse(parsed: &parse::Function, file_id: usize) -> (function: Function)
        ensures
            function == function_of(*parsed, file_id),
    {
        Function {
            file_id,
            name: parsed.name.clone(),
            params: parsed.params.clone(),
            ret: match &parsed.ret {
                Some(ty) => Some(ty.clone()),
                None => None,
            },
            body: parsed.body.clone(),
            span: parsed.span,
        }
    }

    /// Access the file id of the function.
    pub fn file_id(&self) -> (file_id: usize)
        ensures
            file_id == self.file_id,
    {
        self.file_id
    }

    /// Access the name of the function.
    pub fn name(&self) -> (name: &FunctionName)
        ensures
            *name == self.name,
    {
        &self.name
    }

    /// Access the parameters of the function.
    pub fn params(&self) -> (params: &List<parse::FunctionParam>)
        ensures
            *params == *self.params,
    {
        &self.params
    }

    /// Access the return type of the function.
    ///
    /// An empty return type means that the function returns the unit value.
    pub fn ret(&self) -> (ret: Option<&AliasedType>)
        ensures
            match ret {
                Some(ty) => self.ret == Some(*ty),
                None => self.ret is None,
            },
    {
        match &self.ret {
            Some(ty) => Some(ty),
            None => None,
        }
    }

    /// Access the body of the function.
    pub fn body(&self) -> (body: &parse::Expression)
        ensures
            *body == *self.body,
    {
        &self.body
    }

    /// Access the span of the function.
    pub fn span(&self) -> (span: &Span)
        ensures
            *span == self.span,
    {
        &self.span
    }
}

impl TypeAlias {
    /// Converts a parser alias to a driver alias.
    ///
    /// We explicitly pass `file_id` here because the `parse::TypeAlias`
    /// doesn't know which file it came from.
    pub fn from_parse(parsed: &parse::TypeAlias, file_id: usize) -> (alias: TypeAlias)
        ensures
            alias == alias_of(*parsed, file_id),
    {
        TypeAlias { file_id, name: parsed.name.clone(), ty: parsed.ty.clone(), span: parsed.span }
    }

    /// Access the file id of the alias.
    pub fn file_id(&self) -> (file_id: usize)
        ensures
            file_id == self.file_id,
    {
        self.file_id
    }

    /// Access the name of the alias.
    pub fn name(&self) -> (name: &AliasName)
        ensures
            *name == self.name,
    {
        &self.name
    }

    /// Access the type that the alias resolves to.
    ///
    /// During the parsing stage, the resolved type may include aliases.
    /// The compiler will later check if all contained aliases have been declared before.
    pub fn ty(&self) -> (ty: &AliasedType)
        ensures
            *ty == self.ty,
    {
        &self.ty
    }

    /// Access the span of the alias.
    pub fn span(&self) -> (span: &Span)
        ensures
            *span == self.span,
    {
        &self.span
    }
}

impl Clone for Function {
    fn clone(&self) -> (result: Self)
        ensures
            result == *self,
    {
        Function {
            file_id: self.file_id,
            name: self.name.clone(),
            params: self.params.clone(),
            ret: match &self.ret {
                Some(ty) => Some(ty.clone()),
                None => None,
            },
            body: self.body.clone(),
            span: self.span,
        }
    }
}

impl Clone for TypeAlias {
    fn clone(&self) -> (result: Self)
        ensures
            result == *self,
    {
        TypeAlias {
            file_id: self.file_id,
            name: self.name.clone(),
            ty: self.ty.clone(),
            span: self.span,
        }
    }
}

impl Clone for Item {
    fn clone(&self) -> (result: Self)
        ensures
            result == *self,
    {
        match self {
            Item::TypeAlias(alias) => Item::TypeAlias(alias.clone()),
            Item::Function(function) => Item::Function(function.clone()),
            Item::Module => Item::Module,
        }
    }
}

impl Clone for Program {
    fn clone(&self) -> (result: Self)
        ensures
            result.items@ == self.items@,
            result.paths.len() == self.paths.len(),
            forall|i: int|
                0 <= i < self.paths.len() ==> (#[trigger] result.paths@[i])@ == self.paths@[i]@,
            result.resolutions@ == self.resolutions@,
            result.span == self.span,
    {
        Program {
            items: self.items.clone(),
            paths: self.paths.clone(),
            resolutions: self.resolutions.clone(),
            span: self.span,
        }
    }
}

impl AsRef<Span> for Program {
    fn as_ref(&self) -> (span: &Span)
        ensures
            *span == self.span,
    {
        &self.span
    }
}

impl AsRef<Span> for Function {
    fn as_ref(&self) -> (span: &Span)
        ensures
            *span == self.span,
    {
        &self.span
    }
}

impl AsRef<Span> for TypeAlias {
    fn as_ref(&self) -> (span: &Span)
        ensures
            *span == self.span,
    {
        &self.span
    }
}

} // verus!
