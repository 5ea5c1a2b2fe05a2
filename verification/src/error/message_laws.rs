//! What messages about errors show.
use super::message::{
    errors_text, located_text, numbered_lines, rich_text, right_aligned, spaces, underline,
};
use super::{Error, RichErrorView, Span};
use crate::display::type_text;
use crate::error::message::error_text;
use crate::position::laws::columns_count_bytes;
use crate::position::{chars_before, line_col, lines, utf8_len};
use crate::source::{source_name_text, SourceFileView};
use crate::text::laws::repeated_character;
use crate::text::decimal;
use crate::types::ResolvedType;
use vstd::prelude::*;

verus! {

/// A number of spaces.
proof fn lemma_spaces(n: nat)
    ensures
        spaces(n).len() == n,
        forall|i: int| 0 <= i < n ==> #[trigger] spaces(n)[i] == ' ',
{
    reveal_strlit(" ");
    assert(" "@ =~= seq![' ']);
    repeated_character(' ', n);
}

/// A text that is aligned to the right ends with the text, has spaces in front of it, and is as
/// wide as asked for unless the text is wider.
pub proof fn aligned_texts(text: Seq<char>, width: nat)
    ensures
        right_aligned(text, width).len() == if text.len() < width {
            width
        } else {
            text.len()
        },
        text.is_suffix_of(right_aligned(text, width)),
        forall|i: int|
            0 <= i < right_aligned(text, width).len() - text.len() ==> #[trigger] right_aligned(
                text,
                width,
            )[i] == ' ',
{
    let aligned = right_aligned(text, width);
    if text.len() < width {
        lemma_spaces((width - text.len()) as nat);
    }
    assert(text =~= aligned.subrange(aligned.len() - text.len(), aligned.len() as int));
}

/// A single line is shown with its number.
pub proof fn line_is_shown_with_number(all: Seq<Seq<char>>, n: nat, width: nat)
    requires
        1 <= n <= all.len(),
    ensures
        numbered_lines(all, n, n, width) == right_aligned(decimal(n), width) + " | "@ + all[n - 1]
            + "\n"@,
{
    reveal_with_fuel(numbered_lines, 2);
    assert(numbered_lines(all, n, (n - 1) as nat, width) == Seq::<char>::empty());
    assert(Seq::<char>::empty() + right_aligned(decimal(n), width) =~= right_aligned(
        decimal(n),
        width,
    ));
}

/// Lines that are shown in two groups are shown one after the other.
pub proof fn lines_are_shown_in_order(
    all: Seq<Seq<char>>,
    first: nat,
    middle: nat,
    last: nat,
    width: nat,
)
    requires
        1 <= first <= middle <= last,
    ensures
        numbered_lines(all, first, last, width) == numbered_lines(all, first, middle, width)
            + numbered_lines(all, middle + 1, last, width),
    decreases last - middle,
{
    let a = numbered_lines(all, first, middle, width);
    if middle == last {
        assert(numbered_lines(all, middle + 1, last, width) == Seq::<char>::empty());
        assert(a + Seq::<char>::empty() =~= a);
    } else {
        let shorter = (last - 1) as nat;
        lines_are_shown_in_order(all, first, middle, shorter, width);
        let b = numbered_lines(all, middle + 1, shorter, width);
        if last <= all.len() {
            let tail = right_aligned(decimal(last), width);
            assert((a + b) + tail + " | "@ + all[last - 1] + "\n"@ =~= a + (b + tail + " | "@
                + all[last - 1] + "\n"@));
        }
    }
}

/// An area inside one line is marked below it: as many spaces as the column of its start says, and
/// then a mark for each byte of the area.
pub proof fn area_in_line_is_marked(content: Seq<char>, span: Span)
    requires
        span.start <= span.end,
        chars_before(content, span.start as nat) is Some,
        chars_before(content, span.end as nat) is Some,
        line_col(content, span.start as nat).0 == line_col(content, span.end as nat).0,
        line_col(content, span.start as nat).1 >= 0,
    ensures
        ({
            let marks = underline(content, span);
            let column = line_col(content, span.start as nat).1;
            &&& marks.len() == column + span.end - span.start
            &&& forall|i: int| 0 <= i < column ==> #[trigger] marks[i] == ' '
            &&& forall|i: int| column <= i < marks.len() ==> #[trigger] marks[i] == '^'
        }),
{
    columns_count_bytes(content, span.start as nat, span.end as nat);
    reveal_strlit("^");
    assert("^"@ =~= seq!['^']);
    repeated_character('^', (span.end - span.start) as nat);
    lemma_spaces(line_col(content, span.start as nat).1 as nat);
}

/// An area of several lines is marked below, with a mark for each byte of its first line.
pub proof fn area_of_lines_is_marked(content: Seq<char>, span: Span)
    requires
        line_col(content, span.start as nat).0 < line_col(content, span.end as nat).0,
        line_col(content, span.start as nat).0 <= lines(content).len(),
    ensures
        ({
            let marks = underline(content, span);
            let line = lines(content)[line_col(content, span.start as nat).0 - 1];
            &&& marks.len() == 1 + utf8_len(line)
            &&& marks[0] == ' '
            &&& forall|i: int| 1 <= i < marks.len() ==> #[trigger] marks[i] == '^'
        }),
{
    let line = lines(content)[line_col(content, span.start as nat).0 - 1];
    reveal_strlit(" ");
    reveal_strlit("^");
    assert("^"@ =~= seq!['^']);
    repeated_character('^', utf8_len(line));
}

/// A message about an area inside one line of a file names the file with the line and the column,
/// shows the line with its number, and has the marks and the message below it.
pub proof fn message_shows_line(file: SourceFileView, span: Span, message: Seq<char>)
    requires
        line_col(file.content, span.start as nat).0 == line_col(file.content, span.end as nat).0,
        line_col(file.content, span.start as nat).0 <= lines(file.content).len(),
        line_col(file.content, span.start as nat).1 >= 0,
    ensures
        ({
            let (line, column) = line_col(file.content, span.start as nat);
            let margin = spaces(decimal(line).len());
            located_text(file, span, message) == margin + "--> "@ + source_name_text(file.name)
                + ":"@ + decimal(line) + ":"@ + decimal(column as nat) + "\n"@ + margin + " |\n"@ + (
            decimal(line) + " | "@ + lines(file.content)[line - 1] + "\n"@) + margin + " |"@
                + underline(file.content, span) + " "@ + message
        }),
{
    let line = line_col(file.content, span.start as nat).0;
    assert(line >= 1);
    line_is_shown_with_number(lines(file.content), line, decimal(line).len());
}

/// Errors about two types name the expected or declared type first, and the type that was found
/// behind it. Errors about numbers of arguments name the expected number first.
pub proof fn expected_comes_before_found(
    name: Seq<char>,
    expected: ResolvedType,
    found: ResolvedType,
    n: usize,
    m: usize,
)
    ensures
        error_text(Error::ExpressionTypeMismatch(expected, found)) == "Expected expression of type `"@
            + type_text(expected) + "`, found type `"@ + type_text(found) + "`"@,
        error_text(Error::InvalidCast(expected, found)) == "Cannot cast values of type `"@
            + type_text(expected) + "` as values of type `"@ + type_text(found) + "`"@,
        error_text(Error::InvalidNumberOfArguments(n, m)) == "Expected "@ + decimal(n as nat)
            + " arguments, found "@ + decimal(m as nat) + " arguments"@,
        error_text(Error::WitnessTypeMismatch(name, expected, found)) == "Witness `"@ + name
            + "` was declared with type `"@ + type_text(expected)
            + "` but its assigned value is of type `"@ + type_text(found) + "`"@,
        error_text(Error::ArgumentTypeMismatch(name, expected, found)) == "Parameter `"@ + name
            + "` was declared with type `"@ + type_text(expected)
            + "` but its assigned argument is of type `"@ + type_text(found) + "`"@,
{
}

/// An error without a file, or of an empty file, is shown by its message alone.
pub proof fn message_without_file(error: RichErrorView)
    requires
        error.source matches Some(file) ==> file.content.len() == 0,
    ensures
        rich_text(error) == error_text(*error.error),
{
}

/// An error of a file that is not empty is shown with its place.
pub proof fn message_with_file(error: RichErrorView, file: SourceFileView)
    requires
        error.source == Some(file),
        file.content.len() > 0,
    ensures
        rich_text(error) == located_text(file, error.span, error_text(*error.error)),
{
}

/// Errors are shown one after the other, each followed by an empty line.
pub proof fn errors_are_shown_in_order(a: Seq<RichErrorView>, b: Seq<RichErrorView>)
    ensures
        errors_text(a + b) == errors_text(a) + errors_text(b),
        forall|e: RichErrorView| #[trigger] errors_text(seq![e]) == rich_text(e) + "\n\n"@,
    decreases b.len(),
{
    assert forall|e: RichErrorView| #[trigger] errors_text(seq![e]) == rich_text(e) + "\n\n"@ by {
        assert(seq![e].drop_last() =~= Seq::empty());
        assert(errors_text(Seq::empty()) == Seq::<char>::empty());
        assert(Seq::<char>::empty() + rich_text(e) =~= rich_text(e));
    }
    if b.len() == 0 {
        assert(a + b =~= a);
        assert(errors_text(a) + errors_text(b) =~= errors_text(a));
    } else {
        errors_are_shown_in_order(a, b.drop_last());
        assert((a + b).drop_last() =~= a + b.drop_last());
        assert((a + b).last() == b.last());
        assert(errors_text(a + b) =~= errors_text(a) + errors_text(b));
    }
}

} // verus!
