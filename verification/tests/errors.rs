//! How errors are rendered.
use simplicityhl::error::{Error, ErrorCollector, Expected, RichError, Span, WithSource, WithSpan};
use simplicityhl::source::{SourceFile, SourceName};

const FILE: &str = r#"let a1: List<u32, 5> = None;
let x: u32 = Left(
    Right(0)
);"#;
const EMPTY_FILE: &str = "";
const FILENAME: &str = "<test>";

fn source(name: &str, content: &str) -> SourceFile {
    SourceFile::new(SourceName::Virtual(name.to_string()), content.to_string())
}

#[test]
fn display_single_line() {
    let error = Error::ListBoundPow2(5)
        .with_span(Span::new(13, 19))
        .with_source(source(FILENAME, FILE));
    let expected = format!(
        r#"
 --> {FILENAME}:1:14
  |
1 | let a1: List<u32, 5> = None;
  |              ^^^^^^ Expected a power of two greater than one (2, 4, 8, 16, 32, ...) as list bound, found 5"#
    );
    assert_eq!(&expected[1..], &error.to_string());
}

#[test]
fn display_multi_line() {
    let error = Error::CannotParse(
        "Expected value of type `u32`, got `Either<Either<_, u32>, _>`".to_string(),
    )
    .with_span(Span::new(41, FILE.len()))
    .with_source(source(FILENAME, FILE));
    let expected = format!(
        r#"
 --> {FILENAME}:2:14
  |
2 | let x: u32 = Left(
3 |     Right(0)
4 | );
  | ^^^^^^^^^^^^^^^^^^ Cannot parse: Expected value of type `u32`, got `Either<Either<_, u32>, _>`"#
    );
    assert_eq!(&expected[1..], &error.to_string());
}

#[test]
fn display_entire_file() {
    let error = Error::CannotParse("This span covers the entire file".to_string())
        .with_span(Span::from(FILE))
        .with_source(source(FILENAME, FILE));
    let expected = format!(
        r#"
 --> {FILENAME}:1:1
  |
1 | let a1: List<u32, 5> = None;
2 | let x: u32 = Left(
3 |     Right(0)
4 | );
  | ^^^^^^^^^^^^^^^^^^^^^^^^^^^^ Cannot parse: This span covers the entire file"#
    );
    assert_eq!(&expected[1..], &error.to_string());
}

#[test]
fn display_no_file() {
    let error = Error::CannotParse("This error has no file".to_string())
        .with_span(Span::from(EMPTY_FILE));
    let expected = "Cannot parse: This error has no file";
    assert_eq!(&expected, &error.to_string());

    let error =
        Error::CannotParse("This error has no file".to_string()).with_span(Span::new(5, 10));
    assert_eq!(&expected, &error.to_string());
}

#[test]
fn display_empty_file() {
    let error = Error::CannotParse("This error has an empty file".to_string())
        .with_span(Span::from(EMPTY_FILE))
        .with_source(source(FILENAME, EMPTY_FILE));
    let expected = "Cannot parse: This error has an empty file";
    assert_eq!(&expected, &error.to_string());
}

#[test]
fn display_error_inside_imported_module() {
    let module_name = "libs/math.simf";
    let module_content = "pub fn add(a: u32, b: u32) -> u64 {\n    a + b\n}";

    let error = Error::InvalidNumberOfArguments(2, 1)
        .with_span(Span::new(40, 45))
        .with_source(source(module_name, module_content));

    let expected = r#"
 --> libs/math.simf:2:6
  |
2 |     a + b
  |      ^^^^^ Expected 2 arguments, found 1 arguments"#
        .to_string();
    assert_eq!(&expected[1..], &error.to_string());
}

#[test]
fn display_unresolved_import_in_main_file() {
    let main_name = "main.simf";
    let main_content = "use libs::math::multiply;\n\nfn main() {}";

    let error = Error::UnresolvedItem("multiply".into())
        .with_span(Span::new(16, 24))
        .with_source(source(main_name, main_content));

    let expected = r#"
 --> main.simf:1:17
  |
1 | use libs::math::multiply;
  |                 ^^^^^^^^ Unknown item `multiply`"#
        .to_string();
    assert_eq!(&expected[1..], &error.to_string());
}

#[test]
fn display_private_item_import_across_modules() {
    let main_name = "src/auth_test.simf";
    let main_content = "use libs::auth::SecretToken;\n\nfn main() {}";

    let error = Error::PrivateItem("SecretToken".into())
        .with_span(Span::new(16, 27))
        .with_source(source(main_name, main_content));

    let expected = r#"
 --> src/auth_test.simf:1:17
  |
1 | use libs::auth::SecretToken;
  |                 ^^^^^^^^^^^ Item `SecretToken` is private"#
        .to_string();
    assert_eq!(&expected[1..], &error.to_string());
}

#[test]
fn display_counts_bytes() {
    let content = "let ä: ü32 = 0;";
    let error = Error::CannotParse("type".to_string())
        .with_span(Span::new(8, 12))
        .with_source(source(FILENAME, content));
    let expected = format!(
        r#"
 --> {FILENAME}:1:9
  |
1 | let ä: ü32 = 0;
  |         ^^^^ Cannot parse: type"#
    );
    assert_eq!(&expected[1..], &error.to_string());
}

#[test]
fn display_aligns_line_numbers() {
    let content = "\n\n\n\n\n\n\n\nfirst\nsecond";
    let error = Error::CannotParse("two lines".to_string())
        .with_span(Span::new(8, 20))
        .with_source(source(FILENAME, content));
    let text = error.to_string();
    assert!(text.contains(" 9 | first\n"));
    assert!(text.contains("10 | second\n"));
}

#[test]
fn span_covers_text() {
    assert_eq!(Span::from("héllo"), Span::new(0, 6));
    assert_eq!(Span::new(4, 7).to_slice("let abc = 0;"), Some("abc"));
    assert_eq!(Span::new(4, 70).to_slice("let abc = 0;"), None);
    assert_eq!(Span::new(1, 2).to_slice("é"), None);
    assert_eq!(Span::new(3, 5).to_string(), "3..5");
}

#[test]
fn syntax_errors_win_over_grammar_errors() {
    let syntax = || RichError::expected_found(vec!["a".to_string()], None, Span::new(1, 2));
    let grammar = |text: &str| RichError::new(Error::Grammar(text.to_string()), Span::new(3, 4));

    assert!(matches!(syntax().merge(grammar("g")).error(), Error::Syntax { .. }));
    assert!(matches!(grammar("g").merge(syntax()).error(), Error::Syntax { .. }));
    let later = grammar("first").merge(grammar("second"));
    assert!(matches!(later.error(), Error::Grammar(text) if text == "second"));
    let later = syntax().merge(RichError::new(Error::MainRequired, Span::new(5, 6)));
    assert!(matches!(later.error(), Error::MainRequired));
}

#[test]
fn expectations_have_names() {
    let names: Vec<String> = vec![
        Expected::Token("fn".to_string()),
        Expected::Any,
        Expected::SomethingElse,
        Expected::EndOfInput,
        Expected::Other,
    ]
    .iter()
    .map(|e| e.to_string())
    .collect();
    assert_eq!(
        names,
        vec!["fn", "anything", "something else", "end of input", "UNEXPECTED_TOKEN"]
    );
}

#[test]
fn label_is_added_to_syntax_errors_only() {
    let mut syntax = RichError::expected_found(vec![], Some("x".to_string()), Span::new(0, 1));
    syntax.label_with("expression");
    assert!(matches!(syntax.error(), Error::Syntax { label: Some(label), .. } if label == "expression"));

    let mut other = RichError::new(Error::MainRequired, Span::new(0, 1));
    other.label_with("expression");
    assert!(matches!(other.error(), Error::MainRequired));
}

#[test]
fn collector_keeps_errors_in_order() {
    let mut collector = ErrorCollector::new();
    assert!(!collector.has_errors());
    collector.push(RichError::new(Error::MainRequired, Span::new(0, 0)));
    collector.update_with_source_enrichment(
        source("main.simf", "fn"),
        vec![RichError::parsing_error("first"), RichError::parsing_error("second")],
    );
    assert!(collector.has_errors());
    let errors = collector.get();
    assert_eq!(errors.len(), 3);
    assert!(matches!(errors[0].error(), Error::MainRequired));
    assert!(errors[0].source().is_none());
    assert!(matches!(errors[1].error(), Error::CannotParse(reason) if reason == "first"));
    assert!(errors[1].source().is_some());
    assert!(matches!(errors[2].error(), Error::CannotParse(reason) if reason == "second"));
}

#[test]
fn results_are_enriched_with_place_and_file() {
    let result: Result<(), Error> = Err(Error::MainRequired);
    let error = result.with_span(Span::new(2, 3)).with_source(source("main.simf", "fn x")).unwrap_err();
    assert_eq!(*error.span(), Span::new(2, 3));
    assert!(error.source().is_some());
    let fine: Result<u32, Error> = Ok(7);
    assert_eq!(fine.with_span(Span::new(2, 3)).ok(), Some(7));
}
