//! Errors, and where in the source code they occurred.
pub mod message;
pub mod message_laws;
pub mod text_laws;

use crate::path::FilePath;
use crate::pattern::MatchPattern;
use crate::position::{get_slice, slice, text_len, utf8_len};
use crate::source::{SourceFile, SourceFileView};
use crate::text::texts;
use crate::types::{ResolvedType, UIntType};
use vstd::prelude::*;

verus! {

/// Area that an object spans inside a file.
#[derive(Clone, Copy, Debug, PartialEq, Eq, Hash, Structural)]
pub struct Span {
    /// Position where the object starts, inclusively.
    pub start: usize,
    /// Position where the object ends, exclusively.
    pub end: usize,
}

impl Span {
    /// Create a new span.
    pub fn new(start: usize, end: usize) -> (span: Span)
        requires
            start <= end,
        ensures
            span.start == start,
            span.end == end,
    {
        Span { start, end }
    }
}

/// An individual error.
///
/// Records _what_ happened but not where.
///
/// Names and descriptions are of type `Text`, paths of type `Path` and lists of descriptions
/// of type `Texts`.
#[derive(Debug, PartialEq, Eq, Hash)]
pub enum Error<Text = String, Path = FilePath, Texts = Vec<String>> {
    Internal(Text),
    UnknownLibrary(Text),
    ArraySizeNonZero(usize),
    ListBoundPow2(usize),
    BitStringPow2(usize),
    CannotParse(Text),
    Grammar(Text),
    Syntax { expected: Texts, label: Option<Text>, found: Option<Text> },
    IncompatibleMatchArms(MatchPattern, MatchPattern),
    CannotCompile(Text),
    JetDoesNotExist(Text),
    InvalidCast(ResolvedType, ResolvedType),
    FileNotFound(Path),
    UnresolvedItem(Text),
    PrivateItem(Text),
    MainNoInputs,
    MainNoOutput,
    MainRequired,
    MainCannotBePublic,
    MainCannotBeAlias,
    FunctionRedefined(Text),
    FunctionUndefined(Text),
    InvalidNumberOfArguments(usize, usize),
    FunctionNotFoldable(Text),
    FunctionNotLoopable(Text),
    ExpressionUnexpectedType(ResolvedType),
    ExpressionTypeMismatch(ResolvedType, ResolvedType),
    ExpressionNotConstant,
    IntegerOutOfBounds(UIntType),
    UndefinedVariable(Text),
    UndefinedAlias(Text),
    DuplicateAlias(Text),
    RedefinedAlias(Text),
    RedefinedItem(Text),
    VariableReuseInPattern(Text),
    WitnessReused(Text),
    WitnessTypeMismatch(Text, ResolvedType, ResolvedType),
    WitnessReassigned(Text),
    WitnessOutsideMain,
    ModuleRedefined(Text),
    ModuleNotFound(Text),
    ModuleIsPrivate(Text),
    MissingCrateKeyword,
    ArgumentMissing(Text),
    ArgumentTypeMismatch(Text, ResolvedType, ResolvedType),
    ReservedKeyword(Text),
    DuplicateDependencyAlias(Text, Text),
    DependencyPathNotFound(Path),
    DependencyNotADirectory(Path),
    ReservedDependencyKeyword(Text),
    InvalidDependencyIdentifier(Text),
    ExternalFileNotFound(Text, Path),
    LocalFileImportedAsExternal(Path),
}

/// What a contract says of an error.
pub type ErrorView = Error<Seq<char>, Seq<Seq<char>>, Seq<Seq<char>>>;

/// The characters of an optional string.
pub open spec fn optional_text(text: Option<String>) -> Option<Seq<char>> {
    match text {
        Some(t) => Some(t@),
        None => None,
    }
}

impl View for Error {
    type V = ErrorView;

    open spec fn view(&self) -> ErrorView {
        match self {
            Error::Internal(t) => Error::Internal(t@),
            Error::UnknownLibrary(t) => Error::UnknownLibrary(t@),
            Error::ArraySizeNonZero(n) => Error::ArraySizeNonZero(*n),
            Error::ListBoundPow2(n) => Error::ListBoundPow2(*n),
            Error::BitStringPow2(n) => Error::BitStringPow2(*n),
            Error::CannotParse(t) => Error::CannotParse(t@),
            Error::Grammar(t) => Error::Grammar(t@),
            Error::Syntax { expected, label, found } => Error::Syntax {
                expected: texts(expected@),
                label: optional_text(*label),
                found: optional_text(*found),
            },
            Error::IncompatibleMatchArms(a, b) => Error::IncompatibleMatchArms(*a, *b),
            Error::CannotCompile(t) => Error::CannotCompile(t@),
            Error::JetDoesNotExist(t) => Error::JetDoesNotExist(t@),
            Error::InvalidCast(a, b) => Error::InvalidCast(*a, *b),
            Error::FileNotFound(p) => Error::FileNotFound(p@),
            Error::UnresolvedItem(t) => Error::UnresolvedItem(t@),
            Error::PrivateItem(t) => Error::PrivateItem(t@),
            Error::MainNoInputs => Error::MainNoInputs,
            Error::MainNoOutput => Error::MainNoOutput,
            Error::MainRequired => Error::MainRequired,
            Error::MainCannotBePublic => Error::MainCannotBePublic,
            Error::MainCannotBeAlias => Error::MainCannotBeAlias,
            Error::FunctionRedefined(t) => Error::FunctionRedefined(t@),
            Error::FunctionUndefined(t) => Error::FunctionUndefined(t@),
            Error::InvalidNumberOfArguments(n, m) => Error::InvalidNumberOfArguments(*n, *m),
            Error::FunctionNotFoldable(t) => Error::FunctionNotFoldable(t@),
            Error::FunctionNotLoopable(t) => Error::FunctionNotLoopable(t@),
            Error::ExpressionUnexpectedType(a) => Error::ExpressionUnexpectedType(*a),
            Error::ExpressionTypeMismatch(a, b) => Error::ExpressionTypeMismatch(*a, *b),
            Error::ExpressionNotConstant => Error::ExpressionNotConstant,
            Error::IntegerOutOfBounds(n) => Error::IntegerOutOfBounds(*n),
            Error::UndefinedVariable(t) => Error::UndefinedVariable(t@),
            Error::UndefinedAlias(t) => Error::UndefinedAlias(t@),
            Error::DuplicateAlias(t) => Error::DuplicateAlias(t@),
            Error::RedefinedAlias(t) => Error::RedefinedAlias(t@),
            Error::RedefinedItem(t) => Error::RedefinedItem(t@),
            Error::VariableReuseInPattern(t) => Error::VariableReuseInPattern(t@),
            Error::WitnessReused(t) => Error::WitnessReused(t@),
            Error::WitnessTypeMismatch(t, a, b) => Error::WitnessTypeMismatch(t@, *a, *b),
            Error::WitnessReassigned(t) => Error::WitnessReassigned(t@),
            Error::WitnessOutsideMain => Error::WitnessOutsideMain,
            Error::ModuleRedefined(t) => Error::ModuleRedefined(t@),
            Error::ModuleNotFound(t) => Error::ModuleNotFound(t@),
            Error::ModuleIsPrivate(t) => Error::ModuleIsPrivate(t@),
            Error::MissingCrateKeyword => Error::MissingCrateKeyword,
            Error::ArgumentMissing(t) => Error::ArgumentMissing(t@),
            Error::ArgumentTypeMismatch(t, a, b) => Error::ArgumentTypeMismatch(t@, *a, *b),
            Error::ReservedKeyword(t) => Error::ReservedKeyword(t@),
            Error::DuplicateDependencyAlias(t, u) => Error::DuplicateDependencyAlias(t@, u@),
            Error::DependencyPathNotFound(p) => Error::DependencyPathNotFound(p@),
            Error::DependencyNotADirectory(p) => Error::DependencyNotADirectory(p@),
            Error::ReservedDependencyKeyword(t) => Error::ReservedDependencyKeyword(t@),
            Error::InvalidDependencyIdentifier(t) => Error::InvalidDependencyIdentifier(t@),
            Error::ExternalFileNotFound(t, p) => Error::ExternalFileNotFound(t@, p@),
            Error::LocalFileImportedAsExternal(p) => Error::LocalFileImportedAsExternal(p@),
        }
    }
}

/// An error enriched with context.
///
/// Records _what_ happened and _where_.
#[derive(Debug, PartialEq, Eq, Hash)]
pub struct RichError<What = Error, File = SourceFile> {
    /// The error that occurred.
    pub error: Box<What>,
    /// Area that the error spans inside the file.
    pub span: Span,
    /// File context in which the error occurred.
    ///
    /// Required to print pretty errors.
    pub source: Option<File>,
}

/// What a contract says of an error with context.
pub type RichErrorView = RichError<ErrorView, SourceFileView>;

impl View for RichError {
    type V = RichErrorView;

    open spec fn view(&self) -> RichErrorView {
        RichError {
            error: Box::new(self.error@),
            span: self.span,
            source: match self.source {
                Some(file) => Some(file@),
                None => None,
            },
        }
    }
}

/// Copy an optional string.
fn clone_optional(text: &Option<String>) -> (result: Option<String>)
    ensures
        optional_text(result) == optional_text(*text),
{
    match text {
        Some(t) => Some(t.clone()),
        None => None,
    }
}

impl Clone for Error {
    fn clone(&self) -> (result: Self)
        ensures
            result@ == self@,
    {
        match self {
            Error::Internal(a) => Error::Internal(a.clone()),
            Error::UnknownLibrary(a) => Error::UnknownLibrary(a.clone()),
            Error::ArraySizeNonZero(a) => Error::ArraySizeNonZero(*a),
            Error::ListBoundPow2(a) => Error::ListBoundPow2(*a),
            Error::BitStringPow2(a) => Error::BitStringPow2(*a),
            Error::CannotParse(a) => Error::CannotParse(a.clone()),
            Error::Grammar(a) => Error::Grammar(a.clone()),
            Error::Syntax { expected, label, found } => {
                let list = expected.clone();
                assert(texts(list@) =~= texts(expected@));
                Error::Syntax {
                    expected: list,
                    label: clone_optional(label),
                    found: clone_optional(found),
                }
            },
            Error::IncompatibleMatchArms(a, b) => Error::IncompatibleMatchArms(
                a.clone(),
                b.clone(),
            ),
            Error::CannotCompile(a) => Error::CannotCompile(a.clone()),
            Error::JetDoesNotExist(a) => Error::JetDoesNotExist(a.clone()),
            Error::InvalidCast(a, b) => Error::InvalidCast(a.clone(), b.clone()),
            Error::FileNotFound(a) => Error::FileNotFound(a.clone()),
            Error::UnresolvedItem(a) => Error::UnresolvedItem(a.clone()),
            Error::PrivateItem(a) => Error::PrivateItem(a.clone()),
            Error::MainNoInputs => Error::MainNoInputs,
            Error::MainNoOutput => Error::MainNoOutput,
            Error::MainRequired => Error::MainRequired,
            Error::MainCannotBePublic => Error::MainCannotBePublic,
            Error::MainCannotBeAlias => Error::MainCannotBeAlias,
            Error::FunctionRedefined(a) => Error::FunctionRedefined(a.clone()),
            Error::FunctionUndefined(a) => Error::FunctionUndefined(a.clone()),
            Error::InvalidNumberOfArguments(a, b) => Error::InvalidNumberOfArguments(*a, *b),
            Error::FunctionNotFoldable(a) => Error::FunctionNotFoldable(a.clone()),
            Error::FunctionNotLoopable(a) => Error::FunctionNotLoopable(a.clone()),
            Error::ExpressionUnexpectedType(a) => Error::ExpressionUnexpectedType(a.clone()),
            Error::ExpressionTypeMismatch(a, b) => Error::ExpressionTypeMismatch(
                a.clone(),
                b.clone(),
            ),
            Error::ExpressionNotConstant => Error::ExpressionNotConstant,
            Error::IntegerOutOfBounds(a) => Error::IntegerOutOfBounds(*a),
            Error::UndefinedVariable(a) => Error::UndefinedVariable(a.clone()),
            Error::UndefinedAlias(a) => Error::UndefinedAlias(a.clone()),
            Error::DuplicateAlias(a) => Error::DuplicateAlias(a.clone()),
            Error::RedefinedAlias(a) => Error::RedefinedAlias(a.clone()),
            Error::RedefinedItem(a) => Error::RedefinedItem(a.clone()),
            Error::VariableReuseInPattern(a) => Error::VariableReuseInPattern(a.clone()),
            Error::WitnessReused(a) => Error::WitnessReused(a.clone()),
            Error::WitnessTypeMismatch(a, b, c) => Error::WitnessTypeMismatch(
                a.clone(),
                b.clone(),
                c.clone(),
            ),
            Error::WitnessReassigned(a) => Error::WitnessReassigned(a.clone()),
            Error::WitnessOutsideMain => Error::WitnessOutsideMain,
            Error::ModuleRedefined(a) => Error::ModuleRedefined(a.clone()),
            Error::ModuleNotFound(a) => Error::ModuleNotFound(a.clone()),
            Error::ModuleIsPrivate(a) => Error::ModuleIsPrivate(a.clone()),
            Error::MissingCrateKeyword => Error::MissingCrateKeyword,
            Error::ArgumentMissing(a) => Error::ArgumentMissing(a.clone()),
            Error::ArgumentTypeMismatch(a, b, c) => Error::ArgumentTypeMismatch(
                a.clone(),
                b.clone(),
                c.clone(),
            ),
            Error::ReservedKeyword(a) => Error::ReservedKeyword(a.clone()),
            Error::DuplicateDependencyAlias(a, b) => Error::DuplicateDependencyAlias(
                a.clone(),
                b.clone(),
            ),
            Error::DependencyPathNotFound(a) => Error::DependencyPathNotFound(a.clone()),
            Error::DependencyNotADirectory(a) => Error::DependencyNotADirectory(a.clone()),
            Error::ReservedDependencyKeyword(a) => Error::ReservedDependencyKeyword(a.clone()),
            Error::InvalidDependencyIdentifier(a) => Error::InvalidDependencyIdentifier(a.clone()),
            Error::ExternalFileNotFound(a, b) => Error::ExternalFileNotFound(a.clone(), b.clone()),
            Error::LocalFileImportedAsExternal(a) => Error::LocalFileImportedAsExternal(a.clone()),
        }
    }
}

impl Clone for RichError {
    fn clone(&self) -> (result: Self)
        ensures
            result@ == self@,
    {
        RichError {
            error: Box::new((*self.error).clone()),
            span: self.span,
            source: match &self.source {
                Some(file) => Some(file.clone()),
                None => None,
            },
        }
    }
}

/// The error at the given place of a file that is not known yet.
pub open spec fn rich(error: ErrorView, span: Span) -> RichErrorView {
    RichError { error: Box::new(error), span, source: None }
}

impl RichError {
    /// Create a new error with context.
    pub fn new(error: Error, span: Span) -> (result: RichError)
        ensures
            result@ == rich(error@, span),
            *result.error == error,
            result.span == span,
            result.source is None,
    {
        RichError { error: Box::new(error), span, source: None }
    }
}

impl RichError {
    /// Add the source file where the error occurred.
    ///
    /// Enable pretty errors.
    pub fn with_source(self, source: SourceFile) -> (result: RichError)
        ensures
            result.error == self.error,
            result.span == self.span,
            result.source == Some(source),
    {
        RichError { error: self.error, span: self.span, source: Some(source) }
    }

    /// Constructs an error that is very unlikely to be encountered, but indicates
    /// a problem on the parsing side.
    pub fn parsing_error(reason: &str) -> (result: RichError)
        ensures
            result@ == rich(Error::CannotParse(reason@), Span { start: 0, end: 0 }),
    {
        RichError::new(Error::CannotParse(reason.to_owned()), Span::new(0, 0))
    }

    /// Access the source file where the error occurred.
    pub fn source(&self) -> (source: &Option<SourceFile>)
        ensures
            *source == self.source,
    {
        &self.source
    }

    /// Access the error that occurred.
    pub fn error(&self) -> (error: &Error)
        ensures
            *error == *self.error,
    {
        &self.error
    }

    /// Access the area that the error spans.
    pub fn span(&self) -> (span: &Span)
        ensures
            *span == self.span,
    {
        &self.span
    }

    /// Choose between two errors of the same place. Syntax errors are more precise than grammar
    /// errors. Otherwise, the latter error is chosen.
    pub fn merge(self, other: RichError) -> (result: RichError)
        ensures
            result == (if !(self.error@ is Grammar) && other.error@ is Grammar {
                self
            } else {
                other
            }),
    {
        match (&*self.error, &*other.error) {
            (Error::Grammar(_), Error::Grammar(_)) => other,
            (Error::Grammar(_), _) => other,
            (_, Error::Grammar(_)) => self,
            _ => other,
        }
    }

    /// The error of a parser that found another token than it expected.
    pub fn expected_found(expected: Vec<String>, found: Option<String>, span: Span) -> (result:
        RichError)
        ensures
            result@ == rich(
                Error::Syntax {
                    expected: texts(expected@),
                    label: None,
                    found: optional_text(found),
                },
                span,
            ),
    {
        RichError::new(Error::Syntax { expected, label: None, found }, span)
    }

    /// Name what a parser expected.
    pub fn label_with(&mut self, label: &str)
        ensures
            final(self).span == old(self).span,
            final(self).source == old(self).source,
            match old(self).error@ {
                Error::Syntax { expected, label: _, found } => final(self).error@
                    == (ErrorView::Syntax { expected, label: Some(label@), found }),
                _ => final(self).error == old(self).error,
            },
    {
        let mut error = Box::new(Error::Grammar(String::new()));
        std::mem::swap(&mut self.error, &mut error);
        self.error = match *error {
            Error::Syntax { expected, label: _, found } => Box::new(
                Error::Syntax { expected, label: Some(label.to_owned()), found },
            ),
            other => Box::new(other),
        };
    }
}

/// What a parser expected in place of a token.
#[derive(Debug, PartialEq, Eq)]
pub enum Expected {
    /// A token, given by its text.
    Token(String),
    /// Any token.
    Any,
    /// Something that has no name.
    SomethingElse,
    /// The end of the input.
    EndOfInput,
    /// An expectation of another kind.
    Other,
}

impl Expected {
    /// The text of an expectation.
    pub open spec fn text(self) -> Seq<char> {
        match self {
            Expected::Token(token) => token@,
            Expected::Any => "anything"@,
            Expected::SomethingElse => "something else"@,
            Expected::EndOfInput => "end of input"@,
            Expected::Other => "UNEXPECTED_TOKEN"@,
        }
    }

    /// Write the expectation.
    pub fn to_string(&self) -> (text: String)
        ensures
            text@ == self.text(),
    {
        match self {
            Expected::Token(token) => token.clone(),
            Expected::Any => "anything".to_owned(),
            Expected::SomethingElse => "something else".to_owned(),
            Expected::EndOfInput => "end of input".to_owned(),
            Expected::Other => "UNEXPECTED_TOKEN".to_owned(),
        }
    }
}

impl Error {
    /// Update the error with the affected span.
    pub fn with_span(self, span: Span) -> (result: RichError)
        ensures
            result@ == rich(self@, span),
            *result.error == self,
            result.span == span,
            result.source is None,
    {
        RichError::new(self, span)
    }
}

/// Helper trait to convert `Result<T, E>` into `Result<T, RichError>`.
pub trait WithSpan<T>: Sized {
    /// Update the result with the affected span.
    fn with_span(self, span: Span) -> (result: Result<T, RichError>);
}

impl<T> WithSpan<T> for Result<T, Error> {
    fn with_span(self, span: Span) -> (result: Result<T, RichError>)
        ensures
            match self {
                Ok(value) => result == Ok::<T, RichError>(value),
                Err(error) => result matches Err(e) && e@ == rich(error@, span),
            },
    {
        match self {
            Ok(value) => Ok(value),
            Err(error) => Err(error.with_span(span)),
        }
    }
}

/// Helper trait to update `Result<A, RichError>` with the affected source file.
pub trait WithSource<T>: Sized {
    /// Update the result with the affected source file.
    ///
    /// Enable pretty errors.
    fn with_source(self, source: SourceFile) -> (result: Result<T, RichError>);
}

impl<T> WithSource<T> for Result<T, RichError> {
    fn with_source(self, source: SourceFile) -> (result: Result<T, RichError>)
        ensures
            match self {
                Ok(value) => result == Ok::<T, RichError>(value),
                Err(error) => {
                    &&& result matches Err(e)
                    &&& e.error == error.error
                    &&& e.span == error.span
                    &&& e.source == Some(source)
                },
            },
    {
        match self {
            Ok(value) => Ok(value),
            Err(error) => Err(error.with_source(source)),
        }
    }
}

impl From<RichError> for Error {
    fn from(error: RichError) -> (result: Self) {
        *error.error
    }
}

impl vstd::std_specs::convert::FromSpecImpl<RichError> for Error {
    open spec fn obeys_from_spec() -> bool {
        true
    }

    open spec fn from_spec(error: RichError) -> Self {
        *error.error
    }
}

impl Span {
    /// Return a slice from the given `file` that corresponds to the span.
    pub fn to_slice<'a>(&self, file: &'a str) -> (result: Option<&'a str>)
        ensures
            match result {
                Some(part) => slice(file@, self.start as nat, self.end as nat) == Some(part@),
                None => slice(file@, self.start as nat, self.end as nat) is None,
            },
    {
        get_slice(file, self.start, self.end)
    }
}

impl<'a> From<&'a str> for Span {
    fn from(text: &'a str) -> (result: Self) {
        Span { start: 0, end: text_len(text) }
    }
}

impl<'a> vstd::std_specs::convert::FromSpecImpl<&'a str> for Span {
    open spec fn obeys_from_spec() -> bool {
        true
    }

    open spec fn from_spec(text: &'a str) -> Self {
        Span { start: 0, end: utf8_len(text@) as usize }
    }
}

/// Collected errors.
#[derive(Debug)]
pub struct ErrorCollector {
    /// The errors, in the order in which they were collected.
    pub errors: Vec<RichError>,
}

impl View for ErrorCollector {
    type V = Seq<RichErrorView>;

    open spec fn view(&self) -> Seq<RichErrorView> {
        Seq::new(self.errors@.len(), |i: int| self.errors@[i]@)
    }
}

impl Clone for ErrorCollector {
    fn clone(&self) -> (result: Self)
        ensures
            result@ == self@,
    {
        let result = ErrorCollector { errors: self.errors.clone() };
        assert(result@ =~= self@);
        result
    }
}

impl Default for ErrorCollector {
    fn default() -> (result: Self)
        ensures
            result@ == Seq::<RichErrorView>::empty(),
    {
        ErrorCollector::new()
    }
}

/// An error with its source file.
pub open spec fn with_file(error: RichErrorView, file: SourceFileView) -> RichErrorView {
    RichError { source: Some(file), ..error }
}

impl ErrorCollector {
    /// Create a collector without errors.
    pub fn new() -> (result: ErrorCollector)
        ensures
            result@ == Seq::<RichErrorView>::empty(),
    {
        let result = ErrorCollector { errors: Vec::new() };
        assert(result@ =~= Seq::<RichErrorView>::empty());
        result
    }

    /// Extend existing errors with concrete `RichError`.
    /// We assume that `RichError` contains `SourceFile`.
    pub fn push(&mut self, error: RichError)
        ensures
            final(self)@ == old(self)@.push(error@),
    {
        self.errors.push(error);
        assert(self@ =~= old(self)@.push(error@));
    }

    /// Extend existing errors with new errors and enrich them with source.
    pub fn update_with_source_enrichment(&mut self, source: SourceFile, errors: Vec<RichError>)
        ensures
            final(self)@ == old(self)@ + Seq::new(
                errors@.len(),
                |i: int| with_file(errors@[i]@, source@),
            ),
    {
        let ghost start = self@;
        let ghost new = Seq::new(errors@.len(), |i: int| with_file(errors@[i]@, source@));
        assert(start + new.take(0) =~= start);
        for error in it: errors
            invariant
                it.seq() == errors@,
                new == Seq::new(errors@.len(), |i: int| with_file(errors@[i]@, source@)),
                self@ == start + new.take(it.index() as int),
        {
            let ghost before = self@;
            self.push(error.with_source(source.clone()));
            assert(self@ =~= start + new.take(it.index() + 1));
        }
        assert(new.take(new.len() as int) =~= new);
    }

    /// Extend existing errors with those of another collector.
    pub fn extend(&mut self, other: ErrorCollector)
        ensures
            final(self)@ == old(self)@ + other@,
    {
        let mut errors = other.errors;
        self.errors.append(&mut errors);
        assert(self@ =~= old(self)@ + other@);
    }

    /// Access the errors.
    pub fn get(&self) -> (errors: &[RichError])
        ensures
            errors@ == self.errors@,
    {
        self.errors.as_slice()
    }

    /// Check whether there are errors.
    pub fn has_errors(&self) -> (result: bool)
        ensures
            result == (self@.len() > 0),
    {
        self.errors.len() > 0
    }
}

} // verus!
