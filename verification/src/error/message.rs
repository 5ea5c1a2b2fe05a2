//! Texts of errors.
use crate::display::{concat3, concat5, match_pattern_text, type_text, uint_text};
use crate::error::{
    optional_text, Error, ErrorCollector, ErrorView, RichError, RichErrorView, Span,
};
use crate::path::path_text;
use crate::position::{
    chars_before, get_line_col, get_lines, lemma_chars_before, lemma_monotone, lemma_newlines,
    line_col, lines, text_len, utf8_len,
};
use crate::source::{source_name_text, SourceFile, SourceFileView};
use crate::text::{
    append_repeated, decimal, decimal_text, join, joined, repeated, texts,
};
use vstd::prelude::*;

verus! {

/// Each text in single quotes.
pub open spec fn quoted(parts: Seq<Seq<char>>) -> Seq<Seq<char>> {
    Seq::new(parts.len(), |i: int| "'"@ + parts[i] + "'"@)
}

/// The text of a syntax error.
pub open spec fn syntax_text(
    expected: Seq<Seq<char>>,
    label: Option<Seq<char>>,
    found: Option<Seq<char>>,
) -> Seq<char> {
    let found_text = match found {
        Some(text) => text,
        None => "end of input"@,
    };
    match label {
        Some(text) => "Expected "@ + text + ", found "@ + found_text,
        None => if expected.len() == 0 {
            "Unexpected "@ + found_text
        } else if expected.len() == 1 {
            "Expected '"@ + expected[0] + "', found '"@ + found_text + "'"@
        } else {
            "Expected one of "@ + joined(quoted(expected), ", "@) + ", found '"@ + found_text + "'"@
        },
    }
}

/// The text of an error.
pub open spec fn error_text(error: ErrorView) -> Seq<char> {
    match error {
        Error::Internal(t) => "INTERNAL ERROR: "@ + t,
        Error::UnknownLibrary(t) => "Unknown module or library '"@ + t + "'"@,
        Error::ArraySizeNonZero(n) => "Expected a non-negative integer as array size, found "@
            + decimal(n as nat),
        Error::ListBoundPow2(n) => "Expected a power of two greater than one (2, 4, 8, 16, 32, ...) as list bound, found "@
            + decimal(n as nat),
        Error::BitStringPow2(n) => "Expected a valid bit string length (1, 2, 4, 8, 16, 32, 64, 128, 256), found "@
            + decimal(n as nat),
        Error::CannotParse(t) => "Cannot parse: "@ + t,
        Error::Grammar(t) => "Grammar error: "@ + t,
        Error::Syntax { expected, label, found } => syntax_text(expected, label, found),
        Error::IncompatibleMatchArms(a, b) => "Match arm `"@
            + match_pattern_text(a)
            + "` is incompatible with arm `"@
            + match_pattern_text(b)
            + "`"@,
        Error::CannotCompile(t) => "Failed to compile to Simplicity: "@ + t,
        Error::JetDoesNotExist(t) => "Jet `"@ + t + "` does not exist"@,
        Error::InvalidCast(a, b) => "Cannot cast values of type `"@
            + type_text(a)
            + "` as values of type `"@
            + type_text(b)
            + "`"@,
        Error::FileNotFound(p) => "File `"@ + path_text(p) + "` not found"@,
        Error::UnresolvedItem(t) => "Unknown item `"@ + t + "`"@,
        Error::PrivateItem(t) => "Item `"@ + t + "` is private"@,
        Error::MainNoInputs => "Main function takes no input parameters"@,
        Error::MainNoOutput => "Main function produces no output"@,
        Error::MainRequired => "Main function is required"@,
        Error::MainCannotBePublic => "Main function cannot be public"@,
        Error::MainCannotBeAlias => "Main cannot be used as an alias"@,
        Error::FunctionRedefined(t) => "Function `"@ + t + "` was defined multiple times"@,
        Error::FunctionUndefined(t) => "Function `"@ + t + "` was called but not defined"@,
        Error::InvalidNumberOfArguments(n, m) => "Expected "@
            + decimal(n as nat)
            + " arguments, found "@
            + decimal(m as nat)
            + " arguments"@,
        Error::FunctionNotFoldable(t) => "Expected a signature like `fn "@
            + t
            + "(element: E, accumulator: A) -> A` for a fold"@,
        Error::FunctionNotLoopable(t) => "Expected a signature like `fn "@
            + t
            + "(accumulator: A, context: C, counter u{1,2,4,8,16}) -> Either<B, A>` for a for-while loop"@,
        Error::ExpressionUnexpectedType(a) => "Expected expression of type `"@
            + type_text(a)
            + "`; found something else"@,
        Error::ExpressionTypeMismatch(a, b) => "Expected expression of type `"@
            + type_text(a)
            + "`, found type `"@
            + type_text(b)
            + "`"@,
        Error::ExpressionNotConstant => "Expression cannot be evaluated at compile time"@,
        Error::IntegerOutOfBounds(u) => "Value is out of bounds for type `"@ + uint_text(u) + "`"@,
        Error::UndefinedVariable(t) => "Variable `"@ + t + "` is not defined"@,
        Error::UndefinedAlias(t) => "Type alias `"@ + t + "` is not defined"@,
        Error::DuplicateAlias(t) => "The alias `"@ + t + "` was defined multiple times"@,
        Error::RedefinedAlias(t) => "Type alias `"@ + t + "` was defined multiple times"@,
        Error::RedefinedItem(t) => "Item `"@ + t + "` was defined multiple times"@,
        Error::VariableReuseInPattern(t) => "Variable `"@ + t + "` is used twice in the pattern"@,
        Error::WitnessReused(t) => "Witness `"@
            + t
            + "` has been used before somewhere in the program"@,
        Error::WitnessTypeMismatch(t, a, b) => "Witness `"@
            + t
            + "` was declared with type `"@
            + type_text(a)
            + "` but its assigned value is of type `"@
            + type_text(b)
            + "`"@,
        Error::WitnessReassigned(t) => "Witness `"@ + t + "` has already been assigned a value"@,
        Error::WitnessOutsideMain => "Witness expressions are not allowed outside the `main` function"@,
        Error::ModuleRedefined(t) => "Module `"@ + t + "` was defined multiple times"@,
        Error::ModuleNotFound(t) => "Module `"@ + t + "` not found"@,
        Error::ModuleIsPrivate(t) => "Module `"@ + t + "` is private"@,
        Error::MissingCrateKeyword => "Import path must start with the `crate` keyword"@,
        Error::ArgumentMissing(t) => "Parameter `"@ + t + "` is missing an argument"@,
        Error::ArgumentTypeMismatch(t, a, b) => "Parameter `"@
            + t
            + "` was declared with type `"@
            + type_text(a)
            + "` but its assigned argument is of type `"@
            + type_text(b)
            + "`"@,
        Error::ReservedKeyword(t) => "expected identifier, found reserved keyword `"@
            + t
            + "`\n  help: escape it using `r#"@
            + t
            + "` to use it as an identifier"@,
        Error::DuplicateDependencyAlias(t, u) => "Dependency alias `"@
            + t
            + "` was defined multiple times in the context `"@
            + u
            + "`"@,
        Error::DependencyPathNotFound(p) => "Dependency path `"@ + path_text(p) + "` not found"@,
        Error::DependencyNotADirectory(p) => "Dependency path `"@
            + path_text(p)
            + "` is not a directory"@,
        Error::ReservedDependencyKeyword(t) => "Dependency alias `"@
            + t
            + "` is a reserved keyword"@,
        Error::InvalidDependencyIdentifier(t) => "Dependency alias `"@
            + t
            + "` is not a valid identifier"@,
        Error::ExternalFileNotFound(t, p) => "File `"@
            + path_text(p)
            + "` not found in library `"@
            + t
            + "`"@,
        Error::LocalFileImportedAsExternal(p) => "File `"@
            + path_text(p)
            + "` belongs to the local package and must be imported through `crate`"@,
    }
}

/// Put two texts together.
fn concat2(a: &str, b: &str) -> (text: String)
    ensures
        text@ == a@ + b@,
{
    let mut text: String = a.to_owned();
    text.append(b);
    text
}

/// Write each text in single quotes.
fn quote(parts: &Vec<String>) -> (result: Vec<String>)
    ensures
        texts(result@) == quoted(texts(parts@)),
{
    let mut result: Vec<String> = Vec::new();
    let mut i: usize = 0;
    while i < parts.len()
        invariant
            i <= parts.len(),
            result.len() == i,
            forall|j: int|
                0 <= j < i ==> #[trigger] result@[j]@ == quoted(texts(parts@))[j],
        decreases parts.len() - i,
    {
        result.push(concat3("'", parts[i].as_str(), "'"));
        i = i + 1;
    }
    assert(texts(result@) =~= quoted(texts(parts@)));
    result
}

/// Write a syntax error.
fn write_syntax(expected: &Vec<String>, label: &Option<String>, found: &Option<String>) -> (text:
    String)
    ensures
        text@ == syntax_text(texts(expected@), optional_text(*label), optional_text(*found)),
{
    let found_text: &str = match found {
        Some(text) => text.as_str(),
        None => "end of input",
    };
    match label {
        Some(text) => concat2(
            concat3("Expected ", text.as_str(), ", found ").as_str(),
            found_text,
        ),
        None => {
            if expected.len() == 0 {
                concat2("Unexpected ", found_text)
            } else if expected.len() == 1 {
                concat5("Expected '", expected[0].as_str(), "', found '", found_text, "'")
            } else {
                let list = join(&quote(expected), ", ");
                concat5("Expected one of ", list.as_str(), ", found '", found_text, "'")
            }
        },
    }
}

impl Error {
    /// Write the error.
    pub fn to_string(&self) -> (text: String)
        ensures
            text@ == error_text(self@),
    {
        match self {
            Error::Internal(t) => concat2("INTERNAL ERROR: ", t.as_str()),
            Error::UnknownLibrary(t) => concat3("Unknown module or library '", t.as_str(), "'"),
            Error::ArraySizeNonZero(n) => concat2(
                "Expected a non-negative integer as array size, found ",
                decimal_text(*n).as_str(),
            ),
            Error::ListBoundPow2(n) => concat2(
                "Expected a power of two greater than one (2, 4, 8, 16, 32, ...) as list bound, found ",
                decimal_text(*n).as_str(),
            ),
            Error::BitStringPow2(n) => concat2(
                "Expected a valid bit string length (1, 2, 4, 8, 16, 32, 64, 128, 256), found ",
                decimal_text(*n).as_str(),
            ),
            Error::CannotParse(t) => concat2("Cannot parse: ", t.as_str()),
            Error::Grammar(t) => concat2("Grammar error: ", t.as_str()),
            Error::Syntax { expected, label, found } => write_syntax(expected, label, found),
            Error::IncompatibleMatchArms(a, b) => concat5(
                "Match arm `",
                a.to_string().as_str(),
                "` is incompatible with arm `",
                b.to_string().as_str(),
                "`",
            ),
            Error::CannotCompile(t) => concat2("Failed to compile to Simplicity: ", t.as_str()),
            Error::JetDoesNotExist(t) => concat3("Jet `", t.as_str(), "` does not exist"),
            Error::InvalidCast(a, b) => concat5(
                "Cannot cast values of type `",
                a.to_string().as_str(),
                "` as values of type `",
                b.to_string().as_str(),
                "`",
            ),
            Error::FileNotFound(p) => concat3("File `", p.to_text().as_str(), "` not found"),
            Error::UnresolvedItem(t) => concat3("Unknown item `", t.as_str(), "`"),
            Error::PrivateItem(t) => concat3("Item `", t.as_str(), "` is private"),
            Error::MainNoInputs => "Main function takes no input parameters".to_owned(),
            Error::MainNoOutput => "Main function produces no output".to_owned(),
            Error::MainRequired => "Main function is required".to_owned(),
            Error::MainCannotBePublic => "Main function cannot be public".to_owned(),
            Error::MainCannotBeAlias => "Main cannot be used as an alias".to_owned(),
            Error::FunctionRedefined(t) => concat3(
                "Function `",
                t.as_str(),
                "` was defined multiple times",
            ),
            Error::FunctionUndefined(t) => concat3(
                "Function `",
                t.as_str(),
                "` was called but not defined",
            ),
            Error::InvalidNumberOfArguments(n, m) => concat5(
                "Expected ",
                decimal_text(*n).as_str(),
                " arguments, found ",
                decimal_text(*m).as_str(),
                " arguments",
            ),
            Error::FunctionNotFoldable(t) => concat3(
                "Expected a signature like `fn ",
                t.as_str(),
                "(element: E, accumulator: A) -> A` for a fold",
            ),
            Error::FunctionNotLoopable(t) => concat3(
                "Expected a signature like `fn ",
                t.as_str(),
                "(accumulator: A, context: C, counter u{1,2,4,8,16}) -> Either<B, A>` for a for-while loop",
            ),
            Error::ExpressionUnexpectedType(a) => concat3(
                "Expected expression of type `",
                a.to_string().as_str(),
                "`; found something else",
            ),
            Error::ExpressionTypeMismatch(a, b) => concat5(
                "Expected expression of type `",
                a.to_string().as_str(),
                "`, found type `",
                b.to_string().as_str(),
                "`",
            ),
            Error::ExpressionNotConstant => "Expression cannot be evaluated at compile time".to_owned(),
            Error::IntegerOutOfBounds(u) => concat3(
                "Value is out of bounds for type `",
                u.to_string().as_str(),
                "`",
            ),
            Error::UndefinedVariable(t) => concat3("Variable `", t.as_str(), "` is not defined"),
            Error::UndefinedAlias(t) => concat3("Type alias `", t.as_str(), "` is not defined"),
            Error::DuplicateAlias(t) => concat3(
                "The alias `",
                t.as_str(),
                "` was defined multiple times",
            ),
            Error::RedefinedAlias(t) => concat3(
                "Type alias `",
                t.as_str(),
                "` was defined multiple times",
            ),
            Error::RedefinedItem(t) => concat3(
                "Item `",
                t.as_str(),
                "` was defined multiple times",
            ),
            Error::VariableReuseInPattern(t) => concat3(
                "Variable `",
                t.as_str(),
                "` is used twice in the pattern",
            ),
            Error::WitnessReused(t) => concat3(
                "Witness `",
                t.as_str(),
                "` has been used before somewhere in the program",
            ),
            Error::WitnessTypeMismatch(t, a, b) => concat3(
                concat5(
                    "Witness `",
                    t.as_str(),
                    "` was declared with type `",
                    a.to_string().as_str(),
                    "` but its assigned value is of type `",
                ).as_str(),
                b.to_string().as_str(),
                "`",
            ),
            Error::WitnessReassigned(t) => concat3(
                "Witness `",
                t.as_str(),
                "` has already been assigned a value",
            ),
            Error::WitnessOutsideMain => "Witness expressions are not allowed outside the `main` function".to_owned(),
            Error::ModuleRedefined(t) => concat3(
                "Module `",
                t.as_str(),
                "` was defined multiple times",
            ),
            Error::ModuleNotFound(t) => concat3("Module `", t.as_str(), "` not found"),
            Error::ModuleIsPrivate(t) => concat3("Module `", t.as_str(), "` is private"),
            Error::MissingCrateKeyword => "Import path must start with the `crate` keyword".to_owned(),
            Error::ArgumentMissing(t) => concat3(
                "Parameter `",
                t.as_str(),
                "` is missing an argument",
            ),
            Error::ArgumentTypeMismatch(t, a, b) => concat3(
                concat5(
                    "Parameter `",
                    t.as_str(),
                    "` was declared with type `",
                    a.to_string().as_str(),
                    "` but its assigned argument is of type `",
                ).as_str(),
                b.to_string().as_str(),
                "`",
            ),
            Error::ReservedKeyword(t) => concat5(
                "expected identifier, found reserved keyword `",
                t.as_str(),
                "`\n  help: escape it using `r#",
                t.as_str(),
                "` to use it as an identifier",
            ),
            Error::DuplicateDependencyAlias(t, u) => concat5(
                "Dependency alias `",
                t.as_str(),
                "` was defined multiple times in the context `",
                u.as_str(),
                "`",
            ),
            Error::DependencyPathNotFound(p) => concat3(
                "Dependency path `",
                p.to_text().as_str(),
                "` not found",
            ),
            Error::DependencyNotADirectory(p) => concat3(
                "Dependency path `",
                p.to_text().as_str(),
                "` is not a directory",
            ),
            Error::ReservedDependencyKeyword(t) => concat3(
                "Dependency alias `",
                t.as_str(),
                "` is a reserved keyword",
            ),
            Error::InvalidDependencyIdentifier(t) => concat3(
                "Dependency alias `",
                t.as_str(),
                "` is not a valid identifier",
            ),
            Error::ExternalFileNotFound(t, p) => concat5(
                "File `",
                p.to_text().as_str(),
                "` not found in library `",
                t.as_str(),
                "`",
            ),
            Error::LocalFileImportedAsExternal(p) => concat3(
                "File `",
                p.to_text().as_str(),
                "` belongs to the local package and must be imported through `crate`",
            ),
        }
    }
}

/// A number of spaces.
pub open spec fn spaces(n: nat) -> Seq<char> {
    repeated(" "@, n)
}

/// A text with spaces in front of it so that it has at least the given width.
pub open spec fn right_aligned(text: Seq<char>, width: nat) -> Seq<char> {
    if text.len() < width {
        spaces((width - text.len()) as nat) + text
    } else {
        text
    }
}

/// The lines with numbers from `first` to `last`, as far as there are such lines.
/// The numbers have at least the given width.
pub open spec fn numbered_lines(
    all: Seq<Seq<char>>,
    first: nat,
    last: nat,
    width: nat,
) -> Seq<char>
    decreases last,
{
    if last == 0 || last < first {
        Seq::empty()
    } else {
        let before = numbered_lines(all, first, (last - 1) as nat, width);
        if last <= all.len() {
            before + right_aligned(decimal(last), width) + " | "@ + all[last - 1] + "\n"@
        } else {
            before
        }
    }
}

/// The marks below the lines that an area spans. An area of several lines is marked below its
/// first line.
pub open spec fn underline(content: Seq<char>, span: Span) -> Seq<char> {
    let (start_line, start_col) = line_col(content, span.start as nat);
    let (end_line, end_col) = line_col(content, span.end as nat);
    let all = lines(content);
    if end_line > start_line {
        " "@ + repeated(
            "^"@,
            if start_line <= all.len() {
                utf8_len(all[start_line - 1])
            } else {
                0
            },
        )
    } else {
        spaces(start_col as nat) + repeated("^"@, (end_col - start_col) as nat)
    }
}

/// The text of a message about an area of a file.
pub open spec fn located_text(file: SourceFileView, span: Span, message: Seq<char>) -> Seq<char> {
    let (start_line, start_col) = line_col(file.content, span.start as nat);
    let (end_line, end_col) = line_col(file.content, span.end as nat);
    let width = decimal(end_line).len();
    spaces(width) + "--> "@ + source_name_text(file.name) + ":"@ + decimal(start_line) + ":"@
        + decimal(start_col as nat) + "\n"@ + spaces(width) + " |\n"@ + numbered_lines(
        lines(file.content),
        start_line,
        end_line,
        width,
    ) + spaces(width) + " |"@ + underline(file.content, span) + " "@ + message
}

/// The text of an error with context.
pub open spec fn rich_text(error: RichErrorView) -> Seq<char> {
    match error.source {
        Some(file) => if file.content.len() > 0 {
            located_text(file, error.span, error_text(*error.error))
        } else {
            error_text(*error.error)
        },
        None => error_text(*error.error),
    }
}

/// Whether an area of a file can be displayed: it does not end before it starts.
pub open spec fn is_displayable_in(content: Seq<char>, span: Span) -> bool {
    let (start_line, start_col) = line_col(content, span.start as nat);
    let (end_line, end_col) = line_col(content, span.end as nat);
    &&& span.start < usize::MAX
    &&& span.end < usize::MAX
    &&& start_line <= end_line + 1
    &&& start_line < end_line || start_col <= end_col
}

/// Whether an error can be displayed.
pub open spec fn is_displayable(error: RichErrorView) -> bool {
    match error.source {
        Some(file) => file.content.len() > 0 ==> is_displayable_in(file.content, error.span),
        None => true,
    }
}

/// Append a text with spaces in front of it so that it has at least the given width.
fn append_right_aligned(out: &mut String, text: &str, width: usize)
    ensures
        final(out)@ == old(out)@ + right_aligned(text@, width as nat),
{
    let n: usize = text.unicode_len();
    if n < width {
        append_repeated(out, " ", width - n);
        out.append(text);
        assert(out@ =~= old(out)@ + right_aligned(text@, width as nat));
    } else {
        out.append(text);
    }
}

/// Append the lines with numbers from `first` to `last`, as far as there are such lines.
fn append_numbered_lines(
    out: &mut String,
    all: &Vec<String>,
    first: usize,
    last: usize,
    width: usize,
)
    requires
        1 <= first <= last + 1,
    ensures
        final(out)@ == old(out)@ + numbered_lines(
            texts(all@),
            first as nat,
            last as nat,
            width as nat,
        ),
{
    let ghost start = out@;
    let ghost view = texts(all@);
    let mut n: usize = first - 1;
    assert(out@ =~= start + numbered_lines(view, first as nat, n as nat, width as nat));
    while n < last
        invariant
            1 <= first,
            first - 1 <= n <= last,
            view == texts(all@),
            out@ == start + numbered_lines(view, first as nat, n as nat, width as nat),
        decreases last - n,
    {
        n = n + 1;
        if n <= all.len() {
            let ghost before = out@;
            append_right_aligned(out, decimal_text(n).as_str(), width);
            out.append(" | ");
            out.append(all[n - 1].as_str());
            out.append("\n");
            assert(out@ =~= start + numbered_lines(view, first as nat, n as nat, width as nat));
        }
    }
}

/// Write a message about an area of a file.
fn write_located(file: &SourceFile, span: Span, message: &str) -> (text: String)
    requires
        is_displayable_in(file.content@, span),
    ensures
        text@ == located_text(file@, span, message@),
{
    let content: &str = file.content.as_str();
    let (start_line, start_col) = get_line_col(content, span.start);
    let (end_line, end_col) = get_line_col(content, span.end);
    let width: usize = decimal_text(end_line).as_str().unicode_len();
    let all: Vec<String> = get_lines(content);
    let mut text: String = String::new();
    append_repeated(&mut text, " ", width);
    assert(text@ =~= spaces(width as nat));
    text.append("--> ");
    text.append(file.name.to_text().as_str());
    text.append(":");
    text.append(decimal_text(start_line).as_str());
    text.append(":");
    text.append(decimal_text(start_col).as_str());
    text.append("\n");
    append_repeated(&mut text, " ", width);
    text.append(" |\n");
    append_numbered_lines(&mut text, &all, start_line, end_line, width);
    append_repeated(&mut text, " ", width);
    text.append(" |");
    let ghost before = text@;
    if end_line > start_line {
        let length: usize = if start_line <= all.len() {
            text_len(all[start_line - 1].as_str())
        } else {
            0
        };
        text.append(" ");
        append_repeated(&mut text, "^", length);
    } else {
        append_repeated(&mut text, " ", start_col);
        append_repeated(&mut text, "^", end_col - start_col);
    }
    assert(text@ =~= before + underline(content@, span));
    text.append(" ");
    text.append(message);
    text
}

/// Check whether an area can be displayed with the lines of a file.
fn can_display_in(content: &str, span: Span) -> (result: bool)
    ensures
        result == is_displayable_in(content@, span),
{
    if span.start == usize::MAX || span.end == usize::MAX {
        return false;
    }
    let (start_line, start_col) = get_line_col(content, span.start);
    let (end_line, end_col) = get_line_col(content, span.end);
    (start_line <= end_line || start_line - 1 <= end_line) && (start_line < end_line || start_col
        <= end_col)
}

impl RichError {
    /// Check whether the error can be written: whether its area does not start after its end.
    pub fn can_be_displayed(&self) -> (result: bool)
        ensures
            result == is_displayable(self@),
    {
        match &self.source {
            Some(file) => file.content.as_str().is_empty() || can_display_in(
                file.content.as_str(),
                self.span,
            ),
            None => true,
        }
    }

    /// Write the error, together with the lines of the file that it spans.
    pub fn to_string(&self) -> (text: String)
        requires
            is_displayable(self@),
        ensures
            text@ == rich_text(self@),
    {
        let message = self.error.to_string();
        match &self.source {
            Some(file) => {
                if file.content.as_str().is_empty() {
                    message
                } else {
                    write_located(file, self.span, message.as_str())
                }
            },
            None => message,
        }
    }
}

/// The texts of errors, each followed by an empty line.
pub open spec fn errors_text(errors: Seq<RichErrorView>) -> Seq<char>
    decreases errors.len(),
{
    if errors.len() == 0 {
        Seq::empty()
    } else {
        errors_text(errors.drop_last()) + rich_text(errors.last()) + "\n\n"@
    }
}

impl ErrorCollector {
    /// Write the errors, each followed by an empty line.
    pub fn to_string(&self) -> (text: String)
        requires
            forall|i: int| 0 <= i < self@.len() ==> is_displayable(#[trigger] self@[i]),
        ensures
            text@ == errors_text(self@),
    {
        let mut text: String = String::new();
        let mut i: usize = 0;
        assert(self@.take(0) =~= Seq::empty());
        while i < self.errors.len()
            invariant
                i <= self.errors.len(),
                forall|j: int| 0 <= j < self@.len() ==> is_displayable(#[trigger] self@[j]),
                text@ == errors_text(self@.take(i as int)),
            decreases self.errors.len() - i,
        {
            assert(self@.take(i + 1).drop_last() =~= self@.take(i as int));
            assert(self@[i as int] == self.errors@[i as int]@);
            text.append(self.errors[i].to_string().as_str());
            text.append("\n\n");
            i = i + 1;
        }
        assert(self@.take(i as int) =~= self@);
        text
    }
}

/// The text of an area.
pub open spec fn span_text(span: Span) -> Seq<char> {
    decimal(span.start as nat) + ".."@ + decimal(span.end as nat)
}

impl Span {
    /// Write the area.
    pub fn to_string(&self) -> (text: String)
        ensures
            text@ == span_text(*self),
    {
        concat3(decimal_text(self.start).as_str(), "..", decimal_text(self.end).as_str())
    }
}

/// An area between two characters of a file, or one that reaches to an end of the file, can be
/// displayed.
pub proof fn areas_of_files_are_displayable(content: Seq<char>, span: Span)
    requires
        span.start <= span.end < usize::MAX,
        chars_before(content, span.start as nat) is Some,
        chars_before(content, span.end as nat) is Some,
    ensures
        is_displayable_in(content, span),
{
    let a = chars_before(content, span.start as nat)->0 as int;
    let b = chars_before(content, span.end as nat)->0 as int;
    lemma_chars_before(content, span.start as nat);
    lemma_chars_before(content, span.end as nat);
    if b < a {
        lemma_monotone(content.take(a), b);
        assert(content.take(a).take(b) =~= content.take(b));
    }
    lemma_newlines(content, a, b);
}

} // verus!
