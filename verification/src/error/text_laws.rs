//! What messages of errors mention.
use super::message::{error_text, quoted, span_text};
use super::{ErrorView, Span};
use crate::display::{match_pattern_text, type_text, uint_text};
use crate::path::path_text;
use crate::text::laws::{lemma_appended, lemma_continued, lemma_joined, lemma_transitive, occurs};
use crate::text::{decimal, joined};
use vstd::prelude::*;

verus! {

/// A message mentions the name, the path, the number or the types that the error is about.
#[verifier::rlimit(40)]
pub proof fn messages_mention_subject(error: ErrorView)
    ensures
        ({
            let text = error_text(error);
            match error {
                ErrorView::Internal(t) => occurs(text, t),
                ErrorView::UnknownLibrary(t) => occurs(text, t),
                ErrorView::ArraySizeNonZero(n) => occurs(text, decimal(n as nat)),
                ErrorView::ListBoundPow2(n) => occurs(text, decimal(n as nat)),
                ErrorView::BitStringPow2(n) => occurs(text, decimal(n as nat)),
                ErrorView::CannotParse(t) => occurs(text, t),
                ErrorView::Grammar(t) => occurs(text, t),
                ErrorView::Syntax { expected, label, found } => {
                    &&& label matches Some(t) ==> occurs(text, t)
                    &&& found matches Some(t) ==> occurs(text, t)
                    &&& label is None ==> forall|i: int|
                        0 <= i < expected.len() ==> occurs(text, #[trigger] expected[i])
                },
                ErrorView::IncompatibleMatchArms(a, b) => occurs(text, match_pattern_text(a))
                    && occurs(text, match_pattern_text(b)),
                ErrorView::CannotCompile(t) => occurs(text, t),
                ErrorView::JetDoesNotExist(t) => occurs(text, t),
                ErrorView::InvalidCast(a, b) => occurs(text, type_text(a)) && occurs(
                    text,
                    type_text(b),
                ),
                ErrorView::FileNotFound(p) => occurs(text, path_text(p)),
                ErrorView::UnresolvedItem(t) => occurs(text, t),
                ErrorView::PrivateItem(t) => occurs(text, t),
                ErrorView::FunctionRedefined(t) => occurs(text, t),
                ErrorView::FunctionUndefined(t) => occurs(text, t),
                ErrorView::InvalidNumberOfArguments(n, m) => occurs(text, decimal(n as nat))
                    && occurs(text, decimal(m as nat)),
                ErrorView::FunctionNotFoldable(t) => occurs(text, t),
                ErrorView::FunctionNotLoopable(t) => occurs(text, t),
                ErrorView::ExpressionUnexpectedType(a) => occurs(text, type_text(a)),
                ErrorView::ExpressionTypeMismatch(a, b) => occurs(text, type_text(a)) && occurs(
                    text,
                    type_text(b),
                ),
                ErrorView::IntegerOutOfBounds(u) => occurs(text, uint_text(u)),
                ErrorView::UndefinedVariable(t) => occurs(text, t),
                ErrorView::UndefinedAlias(t) => occurs(text, t),
                ErrorView::DuplicateAlias(t) => occurs(text, t),
                ErrorView::RedefinedAlias(t) => occurs(text, t),
                ErrorView::RedefinedItem(t) => occurs(text, t),
                ErrorView::VariableReuseInPattern(t) => occurs(text, t),
                ErrorView::WitnessReused(t) => occurs(text, t),
                ErrorView::WitnessTypeMismatch(t, a, b) => occurs(text, t) && occurs(
                    text,
                    type_text(a),
                ) && occurs(text, type_text(b)),
                ErrorView::WitnessReassigned(t) => occurs(text, t),
                ErrorView::ModuleRedefined(t) => occurs(text, t),
                ErrorView::ModuleNotFound(t) => occurs(text, t),
                ErrorView::ModuleIsPrivate(t) => occurs(text, t),
                ErrorView::ArgumentMissing(t) => occurs(text, t),
                ErrorView::ArgumentTypeMismatch(t, a, b) => occurs(text, t) && occurs(
                    text,
                    type_text(a),
                ) && occurs(text, type_text(b)),
                ErrorView::ReservedKeyword(t) => occurs(text, t),
                ErrorView::DuplicateDependencyAlias(t, u) => occurs(text, t) && occurs(text, u),
                ErrorView::DependencyPathNotFound(p) => occurs(text, path_text(p)),
                ErrorView::DependencyNotADirectory(p) => occurs(text, path_text(p)),
                ErrorView::ReservedDependencyKeyword(t) => occurs(text, t),
                ErrorView::InvalidDependencyIdentifier(t) => occurs(text, t),
                ErrorView::ExternalFileNotFound(t, p) => occurs(text, t) && occurs(
                    text,
                    path_text(p),
                ),
                ErrorView::LocalFileImportedAsExternal(p) => occurs(text, path_text(p)),
                _ => true,
            }
        }),
{
    assert forall|a: Seq<char>, part: Seq<char>| occurs(#[trigger] (a + part), part) by {
        lemma_appended(a, part);
    }
    assert forall|a: Seq<char>, b: Seq<char>, part: Seq<char>| #[trigger]
        occurs(a, part) implies occurs(#[trigger] (a + b), part) by {
        lemma_continued(a, b, part);
    }
    if let ErrorView::Syntax { expected, label: None, found } = error {
        assert forall|i: int| 0 <= i < expected.len() implies occurs(
            error_text(error),
            #[trigger] expected[i],
        ) by {
            if expected.len() > 1 {
                let list = joined(quoted(expected), ", "@);
                lemma_joined(quoted(expected), ", "@, i);
                lemma_transitive(list, quoted(expected)[i], expected[i]);
                lemma_transitive(error_text(error), list, expected[i]);
            }
        }
    }
}

/// An area is written as the places where it starts and where it ends.
pub proof fn areas_are_written_by_ends(span: Span)
    ensures
        occurs(span_text(span), decimal(span.start as nat)),
        occurs(span_text(span), decimal(span.end as nat)),
        decimal(span.start as nat).is_prefix_of(span_text(span)),
        decimal(span.end as nat).is_suffix_of(span_text(span)),
{
    let text = span_text(span);
    let start = decimal(span.start as nat);
    let end = decimal(span.end as nat);
    lemma_appended(Seq::empty(), start);
    assert(Seq::<char>::empty() + start =~= start);
    lemma_continued(start, ".."@, start);
    lemma_continued(start + ".."@, end, start);
    lemma_appended(start + ".."@, end);
    assert(start =~= text.subrange(0, start.len() as int));
    assert(end =~= text.subrange(text.len() - end.len(), text.len() as int));
}

} // verus!
