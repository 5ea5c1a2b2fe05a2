//! Programs of one or more files, from their text to the syntax tree.
use simplicityhl::ast::{
    Call, CallName, Expression, ExpressionInner, Program, SingleExpression, SingleExpressionInner,
};
use simplicityhl::debug::TrackedCallName;
use simplicityhl::disk::{Disk, DiskEntry};
use simplicityhl::driver::dependency::{
    cycle_message, DependencyGraph, LinearizationError, SourceModule,
};
use simplicityhl::driver::linearize::C3Error;
use simplicityhl::driver::merge::merge;
use simplicityhl::driver::project::{FileContent, FileTable, LibTable, ProjectGraph};
use simplicityhl::error::{Error, ErrorCollector, RichError, Span};
use simplicityhl::jet::{ElementsJetHinter, Jet, JetHinter, TypedJets};
use simplicityhl::list::List;
use simplicityhl::name::Identifier;
use simplicityhl::order_check::{OrderError, OrderValidator};
use simplicityhl::parse;
use simplicityhl::parse::SingleExpressionInner as Parsed;
use simplicityhl::parse::{Either, UseDecl, UseItem, UseItems, Visibility};
use simplicityhl::path::{CanonPath, FilePath};
use simplicityhl::pattern::{MatchPattern, Pattern};
use simplicityhl::resolution::{DependencyMap, DependencyMapBuilder, ResolvedUse};
use simplicityhl::source::{SourceFile, SourceName};
use simplicityhl::types::{AliasedType, ResolvedType, UIntType};
use simplicityhl::value::Value;
use std::collections::{BTreeMap, HashMap};
use std::sync::Arc;

const CRATE_STR: &str = "crate";

// A parser for the programs of the tests.

#[derive(Clone, Debug, PartialEq)]
struct Token {
    text: String,
    start: usize,
    end: usize,
}

fn is_word(c: char) -> bool {
    c.is_ascii_alphanumeric() || c == '_'
}

fn tokenize(source: &str) -> Vec<Token> {
    let bytes = source.as_bytes();
    let mut tokens = Vec::new();
    let mut i = 0;
    while i < bytes.len() {
        let c = bytes[i] as char;
        let start = i;
        if c.is_ascii_whitespace() {
            i += 1;
            continue;
        }
        if source[i..].starts_with("//") {
            while i < bytes.len() && bytes[i] != b'\n' {
                i += 1;
            }
            continue;
        }
        if is_word(c) {
            while i < bytes.len() && is_word(bytes[i] as char) {
                i += 1;
            }
        } else if ["::", "->", "=>"].iter().any(|s| source[i..].starts_with(s)) {
            i += 2;
        } else {
            i += 1;
        }
        tokens.push(Token {
            text: source[start..i].to_string(),
            start,
            end: i,
        });
    }
    tokens
}

struct Parser {
    tokens: Vec<Token>,
    at: usize,
    len: usize,
}

fn name(text: &str) -> Identifier {
    Identifier::from_str_unchecked(text)
}

fn arc_list<T>(elements: Vec<T>) -> Arc<List<T>> {
    Arc::new(List::from_vec(elements))
}

impl Parser {
    fn new(source: &str) -> Parser {
        Parser {
            tokens: tokenize(source),
            at: 0,
            len: source.len(),
        }
    }

    fn peek(&self) -> &str {
        self.look(0)
    }

    fn look(&self, n: usize) -> &str {
        self.tokens
            .get(self.at + n)
            .map(|t| t.text.as_str())
            .unwrap_or("")
    }

    fn start(&self) -> usize {
        self.tokens
            .get(self.at)
            .map(|t| t.start)
            .unwrap_or(self.len)
    }

    fn span_from(&self, start: usize) -> Span {
        Span::new(start, self.tokens[self.at - 1].end)
    }

    fn next(&mut self) -> String {
        let text = self.peek().to_string();
        self.at += 1;
        text
    }

    fn eat(&mut self, text: &str) -> bool {
        if self.peek() == text {
            self.at += 1;
            true
        } else {
            false
        }
    }

    fn expect(&mut self, text: &str) {
        let found = self.next();
        assert_eq!(found, text, "unexpected token");
    }

    fn program(&mut self) -> parse::Program {
        let items = self.items("");
        parse::Program {
            items: arc_list(items),
            span: Span::new(0, self.len),
        }
    }

    fn items(&mut self, end: &str) -> Vec<parse::Item> {
        let mut items = Vec::new();
        while self.peek() != end {
            items.push(self.item());
        }
        items
    }

    fn item(&mut self) -> parse::Item {
        let start = self.start();
        let visibility = if self.eat("pub") {
            Visibility::Public
        } else {
            Visibility::Private
        };
        match self.next().as_str() {
            "fn" => {
                let fn_name = name(&self.next());
                self.expect("(");
                let mut params = Vec::new();
                while !self.eat(")") {
                    let identifier = name(&self.next());
                    self.expect(":");
                    params.push(parse::FunctionParam {
                        identifier,
                        ty: self.ty(),
                    });
                    self.eat(",");
                }
                let ret = if self.eat("->") { Some(self.ty()) } else { None };
                let body = self.expression();
                parse::Item::Function(parse::Function {
                    file_id: 0,
                    visibility,
                    name: fn_name,
                    params: arc_list(params),
                    ret,
                    body: Arc::new(body),
                    span: self.span_from(start),
                })
            }
            "type" => {
                let alias = name(&self.next());
                self.expect("=");
                let ty = self.ty();
                self.expect(";");
                parse::Item::TypeAlias(parse::TypeAlias {
                    file_id: 0,
                    visibility,
                    name: alias,
                    ty,
                    span: self.span_from(start),
                })
            }
            "mod" => {
                let mod_name = name(&self.next());
                self.expect("{");
                let items = self.items("}");
                self.expect("}");
                parse::Item::Module(parse::Module {
                    file_id: 0,
                    visibility,
                    name: mod_name,
                    items: arc_list(items),
                    span: self.span_from(start),
                })
            }
            "use" => {
                let mut path = Vec::new();
                let items = loop {
                    if self.eat("{") {
                        let mut list = Vec::new();
                        while !self.eat("}") {
                            list.push(self.use_item());
                            self.eat(",");
                        }
                        break UseItems::List(list);
                    }
                    if self.look(1) == "::" {
                        path.push(name(&self.next()));
                        self.expect("::");
                    } else {
                        break UseItems::Single(self.use_item());
                    }
                };
                self.expect(";");
                parse::Item::Use(UseDecl {
                    visibility,
                    path,
                    items,
                    span: self.span_from(start),
                })
            }
            other => panic!("unexpected item {other}"),
        }
    }

    fn use_item(&mut self) -> UseItem {
        let item = name(&self.next());
        let alias = if self.eat("as") {
            Some(name(&self.next()))
        } else {
            None
        };
        UseItem { name: item, alias }
    }

    fn ty(&mut self) -> AliasedType {
        match self.next().as_str() {
            "(" => {
                let mut parts = Vec::new();
                while !self.eat(")") {
                    parts.push(self.ty());
                    self.eat(",");
                }
                AliasedType::Tuple(arc_list(parts))
            }
            "[" => {
                let element = self.ty();
                self.expect(";");
                let size = self.next().parse().unwrap();
                self.expect("]");
                AliasedType::Array(Arc::new(element), size)
            }
            "Either" => {
                self.expect("<");
                let left = self.ty();
                self.expect(",");
                let right = self.ty();
                self.expect(">");
                AliasedType::Either(Arc::new(left), Arc::new(right))
            }
            "Option" => {
                self.expect("<");
                let some = self.ty();
                self.expect(">");
                AliasedType::Option(Arc::new(some))
            }
            "List" => {
                self.expect("<");
                let element = self.ty();
                self.expect(",");
                let bound = self.next().parse().unwrap();
                self.expect(">");
                AliasedType::List(Arc::new(element), bound)
            }
            "bool" => AliasedType::Boolean,
            "u1" => AliasedType::UInt(UIntType::U1),
            "u2" => AliasedType::UInt(UIntType::U2),
            "u4" => AliasedType::UInt(UIntType::U4),
            "u8" => AliasedType::UInt(UIntType::U8),
            "u16" => AliasedType::UInt(UIntType::U16),
            "u32" => AliasedType::UInt(UIntType::U32),
            "u64" => AliasedType::UInt(UIntType::U64),
            "u128" => AliasedType::UInt(UIntType::U128),
            "u256" => AliasedType::UInt(UIntType::U256),
            alias => AliasedType::Alias(name(alias)),
        }
    }

    fn pattern(&mut self) -> Pattern {
        match self.next().as_str() {
            "_" => Pattern::Ignore,
            "(" => {
                let mut parts = Vec::new();
                while !self.eat(")") {
                    parts.push(self.pattern());
                    self.eat(",");
                }
                Pattern::Tuple(arc_list(parts))
            }
            "[" => {
                let mut parts = Vec::new();
                while !self.eat("]") {
                    parts.push(self.pattern());
                    self.eat(",");
                }
                Pattern::Array(arc_list(parts))
            }
            variable => Pattern::Identifier(name(variable)),
        }
    }

    fn expression(&mut self) -> parse::Expression {
        let start = self.start();
        let inner = if self.eat("{") {
            let mut statements = Vec::new();
            let mut last = None;
            while !self.eat("}") {
                let start = self.start();
                if self.eat("let") {
                    let pattern = self.pattern();
                    self.expect(":");
                    let ty = self.ty();
                    self.expect("=");
                    let expression = self.expression();
                    self.expect(";");
                    statements.push(parse::Statement::Assignment(parse::Assignment {
                        pattern,
                        ty,
                        expression,
                        span: self.span_from(start),
                    }));
                } else {
                    let expression = self.expression();
                    if self.eat(";") {
                        statements.push(parse::Statement::Expression(expression));
                    } else {
                        last = Some(Arc::new(expression));
                        self.expect("}");
                        break;
                    }
                }
            }
            parse::ExpressionInner::Block(arc_list(statements), last)
        } else {
            parse::ExpressionInner::Single(self.single())
        };
        parse::Expression {
            inner,
            span: self.span_from(start),
        }
    }

    fn expressions(&mut self, end: &str) -> Vec<parse::Expression> {
        let mut list = Vec::new();
        while !self.eat(end) {
            list.push(self.expression());
            self.eat(",");
        }
        list
    }

    fn argument(&mut self) -> Arc<parse::Expression> {
        self.expect("(");
        let argument = self.expression();
        self.expect(")");
        Arc::new(argument)
    }

    fn call(&mut self, start: usize, call_name: parse::CallName) -> parse::SingleExpressionInner {
        self.expect("(");
        let args = self.expressions(")");
        parse::SingleExpressionInner::Call(parse::Call {
            name: call_name,
            args: arc_list(args),
            span: self.span_from(start),
        })
    }

    fn type_argument(&mut self) -> AliasedType {
        self.expect("::");
        self.expect("<");
        let ty = self.ty();
        self.expect(">");
        ty
    }

    fn arm(&mut self) -> parse::MatchArm {
        let pattern = match self.next().as_str() {
            "false" => MatchPattern::False,
            "true" => MatchPattern::True,
            "None" => MatchPattern::Nothing,
            constructor => {
                self.expect("(");
                let pattern = self.pattern();
                self.expect(":");
                let ty = self.ty();
                self.expect(")");
                match constructor {
                    "Left" => MatchPattern::Left(pattern, ty),
                    "Right" => MatchPattern::Right(pattern, ty),
                    _ => MatchPattern::Something(pattern, ty),
                }
            }
        };
        self.expect("=>");
        let expression = self.expression();
        self.eat(",");
        parse::MatchArm {
            pattern,
            expression: Arc::new(expression),
        }
    }

    fn single(&mut self) -> parse::SingleExpression {
        let start = self.start();
        let inner = self.single_inner(start);
        parse::SingleExpression {
            inner,
            span: self.span_from(start),
        }
    }

    fn single_inner(&mut self, start: usize) -> parse::SingleExpressionInner {
        let word = self.next();
        match word.as_str() {
            "match" => {
                let scrutinee = Arc::new(self.expression());
                self.expect("{");
                let left = self.arm();
                let right = self.arm();
                self.expect("}");
                Parsed::Match(parse::Match {
                    scrutinee,
                    left,
                    right,
                    span: self.span_from(start),
                })
            }
            "Left" => Parsed::Either(Either::Left(self.argument())),
            "Right" => Parsed::Either(Either::Right(self.argument())),
            "Some" => Parsed::Option(Some(self.argument())),
            "None" => Parsed::Option(None),
            "true" => Parsed::Boolean(true),
            "false" => Parsed::Boolean(false),
            "(" => {
                let mut list = Vec::new();
                let mut commas = 0;
                while !self.eat(")") {
                    list.push(self.expression());
                    if self.eat(",") {
                        commas += 1;
                    }
                }
                if list.len() == 1 && commas == 0 {
                    Parsed::Expression(Arc::new(list.remove(0)))
                } else {
                    Parsed::Tuple(arc_list(list))
                }
            }
            "[" => Parsed::Array(arc_list(self.expressions("]"))),
            "list" => {
                self.expect("!");
                self.expect("[");
                Parsed::List(arc_list(self.expressions("]")))
            }
            "witness" => {
                self.expect("::");
                Parsed::Witness(name(&self.next()))
            }
            "param" => {
                self.expect("::");
                Parsed::Parameter(name(&self.next()))
            }
            "jet" => {
                self.expect("::");
                let jet = name(&self.next());
                self.call(start, parse::CallName::Jet(jet))
            }
            "assert" => {
                self.expect("!");
                self.call(start, parse::CallName::Assert)
            }
            "panic" => {
                self.expect("!");
                self.call(start, parse::CallName::Panic)
            }
            "dbg" => {
                self.expect("!");
                self.call(start, parse::CallName::Debug)
            }
            "unwrap" => self.call(start, parse::CallName::Unwrap),
            "unwrap_left" => {
                let ty = self.type_argument();
                self.call(start, parse::CallName::UnwrapLeft(ty))
            }
            "unwrap_right" => {
                let ty = self.type_argument();
                self.call(start, parse::CallName::UnwrapRight(ty))
            }
            "is_none" => {
                let ty = self.type_argument();
                self.call(start, parse::CallName::IsNone(ty))
            }
            "<" => {
                let ty = self.ty();
                self.expect(">");
                self.expect("::");
                self.expect("into");
                self.call(start, parse::CallName::TypeCast(ty))
            }
            "fold" | "array_fold" => {
                self.expect("::");
                self.expect("<");
                let function = name(&self.next());
                self.expect(",");
                let bound: usize = self.next().parse().unwrap();
                self.expect(">");
                if word == "fold" {
                    self.call(start, parse::CallName::Fold(function, bound))
                } else {
                    self.call(start, parse::CallName::ArrayFold(function, bound))
                }
            }
            "for_while" => {
                self.expect("::");
                self.expect("<");
                let function = name(&self.next());
                self.expect(">");
                self.call(start, parse::CallName::ForWhile(function))
            }
            literal if literal.starts_with("0x") => Parsed::Hexadecimal(literal[2..].to_string()),
            literal if literal.starts_with("0b") => Parsed::Binary(literal[2..].to_string()),
            literal if literal.starts_with(|c: char| c.is_ascii_digit()) => {
                Parsed::Decimal(literal.to_string())
            }
            word if self.peek() == "(" => self.call(start, parse::CallName::Custom(name(word))),
            variable => Parsed::Variable(name(variable)),
        }
    }
}

fn parse_program(source: &str) -> parse::Program {
    Parser::new(source).program()
}

// A workspace in memory.

fn split(path: &str) -> Vec<String> {
    path.split('/')
        .filter(|part| !part.is_empty())
        .map(|part| part.to_string())
        .collect()
}

fn in_workspace(path: &str) -> FilePath {
    let mut components = vec!["".to_string(), "ws".to_string()];
    components.extend(split(path));
    FilePath { components }
}

fn canon(path: &FilePath) -> CanonPath {
    CanonPath { path: path.clone() }
}

struct Workspace {
    files: BTreeMap<Vec<String>, String>,
}

impl Workspace {
    fn new(files: &[(&str, &str)]) -> Workspace {
        Workspace {
            files: files
                .iter()
                .map(|(path, content)| (in_workspace(path).components, content.to_string()))
                .collect(),
        }
    }

    fn look_at(&self, paths: Vec<FilePath>) -> Disk {
        let mut entries = Vec::new();
        for path in paths {
            let names = &path.components;
            let is_file = self.files.contains_key(names);
            let is_dir = !is_file
                && (names.len() <= 1
                    || *names == in_workspace("libs/lib").components
                    || self.files.keys().any(|file| file.starts_with(names)));
            if is_file || is_dir {
                let canonical = canon(&path);
                entries.push(DiskEntry {
                    path,
                    is_dir,
                    canonical,
                });
            }
        }
        Disk { entries }
    }
}

fn all_uses<'a>(items: &'a List<parse::Item>, uses: &mut Vec<&'a UseDecl>) {
    for item in items.to_vec() {
        match item {
            parse::Item::Use(decl) => uses.push(decl),
            parse::Item::Module(module) => all_uses(&module.items, uses),
            _ => {}
        }
    }
}

fn copy_use(decl: &UseDecl) -> UseDecl {
    UseDecl {
        visibility: decl.visibility,
        path: decl.path.clone(),
        items: match &decl.items {
            UseItems::Single(item) => UseItems::Single(item.clone()),
            UseItems::List(list) => UseItems::List(list.clone()),
        },
        span: decl.span,
    }
}

/// Sets up a graph with "lib" mapped to "libs/lib".
/// Files format: vec![("main.simf", "content"), ("libs/lib/A.simf", "content")]
fn setup_graph(files: Vec<(&str, &str)>) -> (DependencyGraph, HashMap<String, usize>) {
    let ws = Workspace::new(&files);
    let root = canon(&in_workspace(""));
    let lib = canon(&in_workspace("libs/lib"));
    let mut builder = DependencyMapBuilder::new();
    builder.add_dependency(root.clone(), "lib".to_string(), lib.clone());
    let disk = ws.look_at(vec![root.path.clone(), lib.path.clone()]);
    let map: DependencyMap = builder.build(root, &disk).unwrap();

    let load = |path: &FilePath| SourceModule {
        source: SourceFile::new(
            SourceName::Real(path.clone()),
            ws.files[&path.components].clone(),
        ),
        program: parse_program(&ws.files[&path.components]),
    };
    let main = in_workspace("main.simf");
    let mut modules = vec![load(&main)];
    let mut paths = vec![canon(&main)];
    let mut dependencies: HashMap<usize, Vec<usize>> = HashMap::new();
    let mut use_cache: Vec<(UseDecl, ResolvedUse)> = Vec::new();
    let mut id = 0;
    while id < modules.len() {
        let mut uses = Vec::new();
        let program = modules[id].program.clone();
        all_uses(&program.items, &mut uses);
        let mut found = Vec::new();
        for decl in uses {
            let disk = ws.look_at(map.probes(&paths[id], decl));
            let resolved = map
                .resolve_path_internal(&paths[id], decl, &disk)
                .expect("setup_graph expects imports that can be resolved");
            let target = match paths.iter().position(|path| *path == resolved.path) {
                Some(target) => target,
                None => {
                    modules.push(load(&resolved.path.path));
                    paths.push(resolved.path.clone());
                    modules.len() - 1
                }
            };
            if !found.contains(&target) {
                found.push(target);
            }
            use_cache.push((copy_use(decl), resolved));
        }
        dependencies.insert(id, found);
        id += 1;
    }
    let mut ids = HashMap::new();
    for (id, path) in paths.iter().enumerate() {
        let file = path.path.components.last().unwrap();
        ids.insert(file.trim_end_matches(".simf").to_string(), id);
    }
    let graph = DependencyGraph {
        modules,
        paths,
        dependencies,
        use_cache,
    };
    (graph, ids)
}

fn jet(jet_name: &str, source_type: Vec<AliasedType>, target_type: AliasedType) -> Jet {
    Jet {
        name: name(jet_name),
        source_type: arc_list(source_type),
        target_type: Arc::new(target_type),
        disabled: false,
    }
}

fn elements() -> TypedJets {
    ElementsJetHinter::new().with_signatures(vec![
        jet(
            "is_zero_32",
            vec![AliasedType::UInt(UIntType::U32)],
            AliasedType::Boolean,
        ),
        jet(
            "add_8",
            vec![
                AliasedType::UInt(UIntType::U8),
                AliasedType::UInt(UIntType::U8),
            ],
            AliasedType::Tuple(arc_list(vec![
                AliasedType::Boolean,
                AliasedType::UInt(UIntType::U8),
            ])),
        ),
        jet("no_such_jet", vec![], AliasedType::Boolean),
    ])
}

fn analyze_multifile(files: Vec<(&str, &str)>) -> Result<(), String> {
    let (graph, _ids) = setup_graph(files);

    let mut error_handler = ErrorCollector::new();
    let driver_program = graph
        .linearize_and_build(&mut error_handler)
        .unwrap()
        .expect("driver build should succeed");

    Program::analyze(&driver_program, elements())
        .map(|_| ())
        .map_err(|e| e.to_string())
}

fn analyze(source: &str) -> Result<Program, RichError> {
    Program::analyze(&parse_program(source), elements())
}

// Names and visibility.

#[test]
fn private_type_alias_from_dependency_does_not_leak() {
    let result = analyze_multifile(vec![
        (
            "main.simf",
            "use lib::A::helper; fn main() { helper(); let x: Secret = 0; }",
        ),
        ("libs/lib/A.simf", "type Secret = u32; pub fn helper() {}"),
    ]);

    assert!(
        result.is_err(),
        "private alias from another file leaked into root scope: {result:?}"
    );
}

#[test]
fn same_alias_name_in_different_modules_does_not_conflict_if_only_one_is_imported() {
    let result = analyze_multifile(vec![
        (
            "main.simf",
            "use lib::A::Word; use lib::B::id; fn main() { let x: Word = 0; assert!(jet::is_zero_32(id(x))); }",
        ),
        ("libs/lib/A.simf", "pub type Word = u32;"),
        ("libs/lib/B.simf", "pub type Word = u16; pub fn id(x: u32) -> u32 { x }"),
    ]);

    assert!(
        result.is_ok(),
        "unimported alias from another module should not collide: {result:?}"
    );
}

#[test]
fn main_must_be_defined_once_per_project() {
    let result = analyze_multifile(vec![
        ("main.simf", "use lib::A::helper; fn main() { helper(); }"),
        ("libs/lib/A.simf", "fn main() {} pub fn helper() {}"),
    ]);

    assert!(
        result.is_err(),
        "Main function must be inside an entry file: {result:?}"
    );
}

#[test]
fn ast_test_local_definitions_visibility() {
    // main.simf defines a private function and a public function.
    // Expected: Both should be usable locally in main.
    let result = analyze_multifile(vec![(
        "main.simf",
        "fn private_fn() {} pub fn public_fn() {} fn main() { private_fn(); public_fn(); }",
    )]);

    assert!(
        result.is_ok(),
        "Local definitions should be visible: {result:?}"
    );
}

#[test]
fn ast_test_pub_use_propagation() {
    // Scenario: Re-exporting.
    let result = analyze_multifile(vec![
        ("libs/lib/A.simf", "pub fn foo() {}"),
        ("libs/lib/B.simf", "pub use crate::A::foo;"),
        ("main.simf", "use lib::B::foo; fn main() { foo(); }"),
    ]);

    assert!(
        result.is_ok(),
        "Public re-exports must be visible: {result:?}"
    );
}

#[test]
fn ast_test_private_import_encapsulation_error() {
    // Scenario: A private import cannot be re-exported.
    let result = analyze_multifile(vec![
        ("libs/lib/A.simf", "pub fn foo() {}"),
        ("libs/lib/B.simf", "use crate::A::foo;"), // <--- Private binding!
        ("main.simf", "use lib::B::foo; fn main() {}"),
    ]);

    let err = result.expect_err("Private imports should not be accessible");
    assert!(err.contains("private") || err.contains("foo"));
}

#[test]
fn test_separated_type_aliases_and_functions() {
    let result = analyze_multifile(vec![
        ("libs/lib/A.simf", "pub type bar = u32; pub fn bar() {}"),
        (
            "main.simf",
            "use lib::A::bar; fn main() { bar(); let x: bar = 0; }",
        ),
    ]);

    assert!(
        result.is_ok(),
        "AST should support separate namespaces for types and functions: {result:?}"
    );
}

#[test]
fn test_public_main_is_forbidden() {
    let result = analyze_multifile(vec![("main.simf", "pub fn main() {}")]);

    let err = result.expect_err("Public main should be rejected");
    assert!(err.contains("Main") && err.contains("public"));
}

#[test]
fn test_aliasing_to_main_is_forbidden() {
    let result = analyze_multifile(vec![
        ("libs/lib/A.simf", "pub type bar = u32;"),
        ("main.simf", "use lib::A::bar as main; fn main() {}"),
    ]);

    let err = result.expect_err("Aliasing to main should be rejected");
    assert!(err.contains("Main") && err.contains("alias"));
}

#[test]
fn test_renaming_with_use() {
    // Expected: "bar" is usable, "foo" is not.
    let result = analyze_multifile(vec![
        ("libs/lib/A.simf", "pub fn foo() {}"),
        (
            "main.simf",
            "use lib::A::foo as bar; fn main() { bar(); foo(); }",
        ),
    ]);

    let err = result.expect_err("Using the original unaliased name 'foo' should fail");
    assert!(err.contains("foo") && (err.contains("not defined") || err.contains("unresolved")));
}

#[test]
fn test_multiple_aliases_in_list() {
    let result = analyze_multifile(vec![
        ("libs/lib/A.simf", "pub fn foo() {} pub fn baz() {}"),
        (
            "main.simf",
            "use lib::A::{foo as bar, baz as qux}; fn main() { bar(); qux(); }",
        ),
    ]);

    assert!(
        result.is_ok(),
        "List aliases should be resolvable: {result:?}"
    );
}

#[test]
fn test_alias_private_item_fails() {
    let result = analyze_multifile(vec![
        ("libs/lib/A.simf", "fn secret() {}"),
        ("main.simf", "use lib::A::secret as my_secret; fn main() {}"),
    ]);

    let err = result.expect_err("Aliasing a private item should fail");
    assert!(err.contains("secret") && err.contains("private"));
}

#[test]
fn test_deep_reexport_with_aliases() {
    let result = analyze_multifile(vec![
        ("libs/lib/A.simf", "pub fn original() {}"),
        ("libs/lib/B.simf", "pub use crate::A::original as middle;"),
        (
            "main.simf",
            "use lib::B::middle as final_name; fn main() { final_name(); }",
        ),
    ]);

    assert!(
        result.is_ok(),
        "Deep alias re-exports should work: {result:?}"
    );
}

#[test]
fn test_deep_reexport_private_link_fails() {
    let result = analyze_multifile(vec![
        ("libs/lib/A.simf", "pub fn target() {}"),
        ("libs/lib/B.simf", "use crate::A::target as hidden_alias;"),
        ("main.simf", "use lib::B::hidden_alias; fn main() {}"),
    ]);

    let err = result.expect_err("Private intermediate aliases should block resolution");
    assert!(err.contains("hidden_alias") && err.contains("private"));
}

#[test]
fn test_plain_import_and_alias_to_same_name_is_rejected() {
    let result = analyze_multifile(vec![
        ("libs/lib/A.simf", "pub fn foo() {}"),
        ("libs/lib/B.simf", "pub fn foo() {}"),
        (
            "main.simf",
            "use lib::A::foo; use lib::B::foo as foo; fn main() {}",
        ),
    ]);

    let err = result.expect_err("Duplicate names in scope should fail");
    assert!(err.contains("foo") && err.contains("multiple times"));
}

#[test]
fn test_alias_cannot_reuse_local_definition_name() {
    let result = analyze_multifile(vec![
        ("libs/lib/A.simf", "pub fn bar() {}"),
        (
            "main.simf",
            "pub fn foo() {} use lib::A::bar as foo; fn main() {}",
        ),
    ]);

    let err = result.expect_err("Alias reusing a local name should fail");
    assert!(err.contains("foo") && err.contains("multiple times"));
}

#[test]
fn test_failed_alias_import_does_not_poison_following_imports() {
    let result = analyze_multifile(vec![
        ("libs/lib/A.simf", "pub fn nope() {}"),
        ("libs/lib/B.simf", "pub fn bar() {}"),
        (
            "main.simf",
            "use lib::A::missing as foo; use lib::B::bar as foo; fn main() {}",
        ),
    ]);

    let err = result.expect_err("Build should fail on the unresolved import");

    // It should complain about `missing`, but NOT about `foo` being duplicated,
    // because the first import failed and never actually reserved the name `foo`.
    assert!(err.contains("missing") || err.contains("not found"));
    assert!(!err.contains("multiple times"));
}

#[test]
fn test_local_function_cannot_reuse_alias_name() {
    let result = analyze_multifile(vec![
        ("libs/lib/A.simf", "pub fn bar() {}"),
        (
            "main.simf",
            "use lib::A::bar as foo; pub fn foo() {} fn main() {}",
        ),
    ]);

    let err = result.expect_err("Build should fail when a local definition reuses an alias name");
    assert!(err.contains("foo") && err.contains("multiple times"));
}

#[test]
fn test_local_type_alias_cannot_reuse_alias_name() {
    let result = analyze_multifile(vec![
        ("libs/lib/A.simf", "pub type bar = u32;"),
        (
            "main.simf",
            "use lib::A::bar as foo; type foo = u64; fn main() {}",
        ),
    ]);

    let err = result.expect_err("Build should fail when a local definition reuses an alias name");
    assert!(err.contains("foo") && err.contains("multiple times"));
}

// Modules.

#[test]
fn test_public_nested_modules_are_accessible() {
    let result = analyze_multifile(vec![
        (
            "libs/lib/A.simf",
            "pub mod outer { pub mod inner { pub fn target() {} } }",
        ),
        (
            "main.simf",
            "use lib::A::outer::inner::target; fn main() {}",
        ),
    ]);

    assert!(
        result.is_ok(),
        "Deeply nested public modules should be accessible: {result:?}"
    );
}

#[test]
fn test_private_inner_module_blocks_external_access() {
    let result = analyze_multifile(vec![
        // `outer` is public, but `inner` is private
        // Even though `target` is public, the private wall at `inner` blocks it.
        (
            "libs/lib/A.simf",
            "pub mod outer { mod inner { pub fn target() {} } }",
        ),
        (
            "main.simf",
            "use lib::A::outer::inner::target; fn main() {}",
        ),
    ]);

    let err = result.expect_err("Private inner module must block access");
    assert!(err.contains("inner") && err.contains("private"));
}

#[test]
fn test_duplicate_module_blocks_are_rejected() {
    let result = analyze_multifile(vec![(
        "main.simf",
        "mod inner {} mod inner {} fn main() {}",
    )]);

    let err = result.expect_err("Duplicate mod blocks must fail");
    assert!(err.contains("inner") && err.contains("multiple times"));
}

#[test]
fn test_sibling_modules_can_access_each_others_public_items() {
    // In Rust, sibling modules share the same parent, so they are allowed to see
    // each other (even if they are private to the outside world).
    let result = analyze_multifile(vec![(
        "main.simf",
        "
                mod brother { pub fn toy() {} }
                mod sister { use crate::brother::toy; }
                fn main() {}
            ",
    )]);

    assert!(
        result.is_ok(),
        "Sibling modules should be able to import from each other: {result:?}"
    );
}

#[test]
fn test_inline_module_can_import_global_item() {
    // Scenario: A nested module needs to access a function defined at the very top of the file.
    // This proves `crate::` correctly points to the un-wrapped root of the entry file.
    let result = analyze_multifile(vec![(
        "main.simf",
        "
                pub fn global_func() {}
                mod inner { 
                    use crate::global_func; 
                    pub fn call_it() { global_func(); } 
                }
                fn main() {}
            ",
    )]);

    assert!(
        result.is_ok(),
        "Nested modules must be able to import global items: {result:?}"
    );
}

#[test]
fn test_deeply_nested_inline_modules() {
    // Scenario: Traversing multiple inline module boundaries.
    let result = analyze_multifile(vec![(
        "main.simf",
        "
                mod level1 {
                    pub mod level2 {
                        pub fn treasure() {}
                    }
                }
                mod explorer {
                    use crate::level1::level2::treasure;
                }
                fn main() {}
            ",
    )]);

    assert!(
        result.is_ok(),
        "Deeply nested inline modules must resolve correctly: {result:?}"
    );
}

#[test]
fn test_inline_module_privacy_is_enforced_between_siblings() {
    // Scenario: Sibling modules can see each other, but they CANNOT see each other's PRIVATE items.
    let result = analyze_multifile(vec![(
        "main.simf",
        "
                mod brother { 
                    fn secret_toy() {} // Missing 'pub'
                }
                mod sister { 
                    use crate::brother::secret_toy; 
                }
                fn main() {}
            ",
    )]);

    let err = result.expect_err("Private inline items must remain hidden from siblings");
    assert!(err.contains("secret_toy") && err.contains("private"));
}

#[test]
fn test_main_scope_cannot_access_private_inline_items() {
    // Scenario: The root of the file tries to import a private item from its own child module.
    let result = analyze_multifile(vec![(
        "main.simf",
        "
                mod child { 
                    fn hidden() {} 
                }
                use crate::child::hidden;
                fn main() {}
            ",
    )]);

    let err = result.expect_err("The root file scope must respect inline module privacy");
    assert!(err.contains("hidden") && err.contains("private"));
}

#[test]
fn test_inline_module_alias_import() {
    // Scenario: Importing an item from a sibling inline module and renaming it locally.
    let result = analyze_multifile(vec![(
        "main.simf",
        "
                mod supplier {
                    pub fn raw_material() {}
                }
                mod factory {
                    use crate::supplier::raw_material as finished_product;
                    pub fn produce() { finished_product(); }
                }
                fn main() {}
            ",
    )]);

    assert!(
        result.is_ok(),
        "Inline imports must support aliasing: {result:?}"
    );
}

// The load order of files.

#[test]
fn test_linearize_simple_import() {
    let (graph, ids) = setup_graph(vec![
        ("main.simf", "use lib::math::some_func;"),
        ("libs/lib/math.simf", ""),
    ]);

    let order = graph.linearize().unwrap();

    let root_id = ids["main"];
    let math_id = ids["math"];

    assert_eq!(order, vec![math_id, root_id]);
}

#[test]
fn test_linearize_diamond_dependency_deduplication() {
    // Setup:
    // root -> imports A, B
    // A -> imports Common
    // B -> imports Common
    // Expected: Common loaded ONLY ONCE.

    let (graph, ids) = setup_graph(vec![
        ("main.simf", "use lib::A::foo; use lib::B::bar;"),
        ("libs/lib/A.simf", "use crate::Common::dummy1;"),
        ("libs/lib/B.simf", "use crate::Common::dummy2;"),
        ("libs/lib/Common.simf", ""),
    ]);

    let order = graph.linearize().unwrap();

    // Verify order using IDs from the helper map
    let main_id = ids["main"];
    let a_id = ids["A"];
    let b_id = ids["B"];
    let common_id = ids["Common"];

    assert!(
        order == vec![common_id, b_id, a_id, main_id]
            || order == vec![common_id, a_id, b_id, main_id]
    );
}

#[test]
fn test_linearize_detects_cycle() {
    let (graph, _) = setup_graph(vec![
        ("main.simf", "use lib::A::entry;"),
        ("libs/lib/A.simf", "use crate::B::func;"),
        ("libs/lib/B.simf", "use crate::A::func;"),
    ]);

    let order = graph.linearize();
    assert!(matches!(
        order,
        Err(LinearizationError::CycleDetected { .. })
    ));
}

#[test]
fn test_linearize_allows_conflicting_nested_import_order() {
    // A imports X then Y, while B imports Y then X.
    // This DAG is still valid because neither X nor Y depends on the other.
    let (graph, ids) = setup_graph(vec![
        ("main.simf", "use lib::A::foo; use lib::B::bar;"),
        ("libs/lib/A.simf", "use crate::X::foo; use crate::Y::bar;"),
        ("libs/lib/B.simf", "use crate::Y::baz; use crate::X::qux;"),
        ("libs/lib/X.simf", ""),
        ("libs/lib/Y.simf", ""),
    ]);

    let order = graph
        .linearize()
        .expect("valid dependency DAG should linearize successfully");

    let main_id = ids["main"];
    let a_id = ids["A"];
    let b_id = ids["B"];
    let x_id = ids["X"];
    let y_id = ids["Y"];

    assert!(
        order == vec![x_id, y_id, a_id, b_id, main_id]
            || order == vec![y_id, x_id, a_id, b_id, main_id]
            || order == vec![x_id, y_id, b_id, a_id, main_id]
            || order == vec![y_id, x_id, b_id, a_id, main_id]
    );
}

#[test]
fn cycle_is_reported_with_the_names_of_its_files() {
    let (graph, _) = setup_graph(vec![
        ("main.simf", "use lib::A::entry;"),
        ("libs/lib/A.simf", "use crate::B::func;"),
        ("libs/lib/B.simf", "use crate::A::func;"),
    ]);
    let error = graph.linearize().unwrap_err();
    assert_eq!(
        error,
        LinearizationError::CycleDetected(vec![
            "/ws/libs/lib/A.simf".to_string(),
            "/ws/libs/lib/B.simf".to_string(),
        ])
    );
    let message =
        "Circular dependency detected: \"/ws/libs/lib/A.simf -> /ws/libs/lib/B.simf\"";
    assert_eq!(error.to_string(), message);
    let mut handler = ErrorCollector::new();
    assert_eq!(
        graph.linearize_and_build(&mut handler).map(|_| ()),
        Err(message.to_string())
    );
    assert!(!handler.has_errors());
}

#[test]
fn names_in_messages_are_quoted() {
    let error = LinearizationError::CycleDetected(vec!["a\"b".to_string(), "c\n".to_string()]);
    assert_eq!(
        error.to_string(),
        "Circular dependency detected: \"a\\\"b -> c\\n\""
    );
    assert_eq!(
        cycle_message("\"x\""),
        "Circular dependency detected: \"x\""
    );
}

#[test]
fn file_may_import_itself() {
    let (graph, _) = setup_graph(vec![(
        "main.simf",
        "mod inner { pub fn f() {} } use crate::inner::f; fn main() {}",
    )]);
    assert_eq!(graph.dependencies[&0], vec![0]);
    assert_eq!(graph.linearize().unwrap(), vec![0]);
}

// The flattened program.

/// Helper to get the built program
fn build_flattened_program(files: Vec<(&str, &str)>) -> (parse::Program, HashMap<String, usize>) {
    let (graph, ids) = setup_graph(files);
    let mut error_handler = ErrorCollector::new();

    let program = graph
        .linearize_and_build(&mut error_handler)
        .expect("Linearize should not fail in this test")
        .expect("Build should succeed and return Some(Program)");

    (program, ids)
}

#[test]
fn test_main_module_is_not_wrapped() {
    // Scenario: The entry file should have its items injected directly into
    // the root of the AST, NOT wrapped in a `mod file_0` block.
    let (program, _) = build_flattened_program(vec![(
        "main.simf",
        "pub fn root_func() {} type root_type = u32;",
    )]);

    let items = program.items.to_vec();

    // Ensure there are no Module wrappers at the root level
    let has_modules = items
        .iter()
        .any(|item| matches!(item, parse::Item::Module(_)));
    assert!(
        !has_modules,
        "Main module items should not be wrapped in a mod block"
    );

    // Ensure the items are directly present
    let has_func = items
        .iter()
        .any(|item| matches!(item, parse::Item::Function(f) if f.name.as_inner() == "root_func"));
    assert!(
        has_func,
        "root_func must be injected directly into the root"
    );
}

#[test]
fn test_dependency_is_wrapped_in_file_module() {
    // Scenario: A dependency file MUST be wrapped in a `mod file_N` block,
    // and its visibility must be Private to prevent leaking.
    let (program, ids) = build_flattened_program(vec![
        ("libs/lib/A.simf", "pub fn dep_func() {}"),
        ("main.simf", "use lib::A::dep_func;"),
    ]);

    let file_a_id = ids["A"];
    let expected_mod_name = format!("file_{}", file_a_id);

    let items = program.items.to_vec();
    let wrapped_module = items
        .iter()
        .find_map(|item| {
            if let parse::Item::Module(m) = item {
                if m.name.as_inner() == expected_mod_name.as_str() {
                    return Some(m);
                }
            }
            None
        })
        .expect("Dependency should be wrapped in a file_N module");

    assert!(
        matches!(wrapped_module.visibility, Visibility::Private),
        "The file wrapper module must be strictly private"
    );

    let has_dep_func = wrapped_module
        .items
        .to_vec()
        .iter()
        .any(|item| matches!(item, parse::Item::Function(f) if f.name.as_inner() == "dep_func"));
    assert!(
        has_dep_func,
        "The file_N module must contain the dependency's items"
    );
}

#[test]
fn test_use_paths_are_rewritten_to_canonical_files() {
    // Scenario: When main.simf says `use lib::A::foo`, the AST flattener
    // must rewrite this path to `use crate::file_N::foo`.
    let (program, ids) = build_flattened_program(vec![
        ("libs/lib/A.simf", "pub fn foo() {}"),
        ("main.simf", "use lib::A::foo;"),
    ]);

    let file_a_id = ids["A"];
    let expected_file_segment = format!("file_{}", file_a_id);

    let items = program.items.to_vec();
    let use_decl = items
        .iter()
        .find_map(|item| {
            if let parse::Item::Use(u) = item {
                Some(u)
            } else {
                None
            }
        })
        .expect("Main module should contain a use declaration");

    // Get the segments of the rewritten path
    let path = use_decl.path();

    assert!(
        path.len() >= 2,
        "Rewritten path must have at least 2 segments"
    );
    assert_eq!(
        path[0].as_inner(),
        CRATE_STR,
        "Path must start with `crate`"
    );
    assert_eq!(
        path[1].as_inner(),
        expected_file_segment.as_str(),
        "Path must route through the canonical `file_N`"
    );
}

#[test]
fn items_know_their_file_after_flattening() {
    let (program, ids) = build_flattened_program(vec![
        (
            "libs/lib/A.simf",
            "pub mod m { pub fn deep() {} } type T = u8;",
        ),
        ("main.simf", "use lib::A::m::deep; fn main() {}"),
    ]);
    let items = program.items.to_vec();
    assert_eq!(items.len(), 3);
    let file = match items[0] {
        parse::Item::Module(module) => module,
        other => panic!("expected a module, got {other:?}"),
    };
    assert_eq!(file.file_id, ids["A"]);
    let inner = file.items.to_vec();
    match (inner[0], inner[1]) {
        (parse::Item::Module(m), parse::Item::TypeAlias(alias)) => {
            assert_eq!(m.file_id, ids["A"]);
            assert_eq!(m.visibility, Visibility::Public);
            assert_eq!(alias.file_id, ids["A"]);
        }
        other => panic!("unexpected items {other:?}"),
    }
    match items[1] {
        parse::Item::Use(decl) => {
            let path: Vec<&str> = decl.path.iter().map(|n| n.as_inner()).collect();
            assert_eq!(path, vec!["crate", "file_1", "m"]);
        }
        other => panic!("expected an import, got {other:?}"),
    }
    assert_eq!(DependencyGraph::get_module_name(12).as_inner(), "file_12");
}

#[test]
fn placeholders_are_left_out() {
    let (mut graph, _) = setup_graph(vec![("main.simf", "fn main() {}")]);
    graph.modules[0].program = parse::Program {
        items: arc_list(vec![parse::Item::Ignored, parse::Item::Ignored]),
        span: Span::new(4, 7),
    };
    let mut handler = ErrorCollector::new();
    let program = graph.linearize_and_build(&mut handler).unwrap().unwrap();
    assert!(program.items.is_empty());
    assert_eq!(program.span, Span::new(4, 7));
}

#[test]
fn there_is_no_program_after_errors() {
    let (graph, _) = setup_graph(vec![("main.simf", "fn main() {}")]);
    let mut handler = ErrorCollector::new();
    handler.push(RichError::parsing_error("broken"));
    assert!(graph.linearize_and_build(&mut handler).unwrap().is_none());
    assert_eq!(handler.get().len(), 1);
}

/// Helper to run the driver and return the error collector so we can inspect it.
fn run_driver(files: Vec<(&str, &str)>) -> ErrorCollector {
    let (graph, _ids) = setup_graph(files);
    let mut error_handler = ErrorCollector::new();
    let _ = graph.linearize_and_build(&mut error_handler).unwrap();
    error_handler
}

#[test]
fn test_crate_path_resolves_to_physical_file() {
    // Scenario: `crate::utils::math` should map to the physical `utils/math.simf` file.
    let errors = run_driver(vec![
        ("utils/math.simf", "pub fn add() {}"),
        ("main.simf", "use crate::utils::math::add; fn main() {}"),
    ]);

    assert!(
        !errors.has_errors(),
        "Driver should successfully find the physical file 'utils/math.simf'. Errors: {}",
        errors.to_string()
    );
}

#[test]
fn test_crate_path_fallback_to_inline_module() {
    // Scenario: `brother.simf` does NOT exist. `crate::brother` must fallback
    // to `main.simf` and treat `brother` as an inline mod_path.
    let errors = run_driver(vec![(
        "main.simf",
        "
                mod brother { pub fn toy() {} }
                use crate::brother::toy; 
                fn main() {}
            ",
    )]);

    assert!(!errors.has_errors(), "Driver must fallback to main.simf for inline modules without throwing FileNotFound. Errors: {}", errors.to_string());
}

#[test]
fn test_crate_path_deeply_nested_inline_fallback() {
    // Scenario: A physical file exists (`utils.simf`), but the REST of the path is inline modules!
    let errors = run_driver(vec![
        (
            "utils.simf",
            "pub mod deeply { pub mod nested { pub fn func() {} } }",
        ),
        (
            "main.simf",
            "use crate::utils::deeply::nested::func; fn main() {}",
        ),
    ]);

    assert!(
        !errors.has_errors(),
        "Driver must split the path at the file boundary correctly. Errors: {}",
        errors.to_string()
    );
}

#[test]
fn test_external_dependency_resolution() {
    // Scenario: Resolving `use lib::A::foo` across the remapping boundary.
    let errors = run_driver(vec![
        ("libs/lib/A.simf", "pub fn foo() {}"),
        ("main.simf", "use lib::A::foo; fn main() {}"),
    ]);

    assert!(
        !errors.has_errors(),
        "External dependency resolution via drp_name failed. Errors: {}",
        errors.to_string()
    );
}

// Projects with libraries.

fn libraries() -> LibTable {
    let mut table = LibTable::new();
    table.insert("lib", in_workspace("libs/lib"));
    table
}

fn read_files(ws: &Workspace, root: &parse::Program, libraries: &LibTable) -> FileTable {
    let mut table = FileTable::new();
    loop {
        let unread = ProjectGraph::unread_files(root, libraries, &table);
        if unread.is_empty() {
            return table;
        }
        for path in unread {
            let content = match ws.files.get(&path.components) {
                Some(text) => FileContent::Parsed(text.clone(), parse_program(text)),
                None => FileContent::NotFound,
            };
            table.push(path, content);
        }
    }
}

fn try_project(files: &[(&str, &str)], handler: &mut ErrorCollector) -> Option<ProjectGraph> {
    let ws = Workspace::new(files);
    let main = in_workspace("main.simf");
    let content = ws.files[&main.components].clone();
    let program = parse_program(&content);
    let table = read_files(&ws, &program, &libraries());
    let source = SourceFile::new(SourceName::Real(main), content);
    ProjectGraph::new(source, libraries(), &program, &table, handler)
}

/// Sets up a project with the library "lib" in "libs/lib".
fn setup_project(files: Vec<(&str, &str)>) -> (ProjectGraph, HashMap<String, usize>) {
    let mut handler = ErrorCollector::new();
    let graph = try_project(&files, &mut handler).expect(
        "setup_project expects a valid graph construction. Use manual setup for error tests.",
    );
    let mut file_ids = HashMap::new();
    for source_name in &graph.paths {
        let simple_name = match source_name {
            SourceName::Real(path) => path.components.last().unwrap().clone(),
            SourceName::Virtual(text) => text.clone(),
        };
        file_ids.insert(simple_name, graph.lookup(source_name).unwrap());
    }
    (graph, file_ids)
}

#[test]
fn driver_test_local_definitions_visibility() {
    // Scenario:
    // main.simf defines a private function and a public function.
    // Expected: Both should appear in the scope with correct visibility.

    let (graph, ids) = setup_project(vec![(
        "main.simf",
        "fn private_fn() {} pub fn public_fn() {}",
    )]);

    let root_id = *ids.get("main").unwrap();
    let order = vec![root_id]; // Only one file

    let mut error_handler = ErrorCollector::new();
    let program = graph
        .build_program(&order, &mut error_handler)
        .expect("Failed to build program");
    let scope = &program.resolutions()[root_id];

    // Check private function
    let private_res = scope
        .get(&name("private_fn"))
        .expect("private_fn missing");
    assert_eq!(private_res.visibility, Visibility::Private);

    // Check public function
    let public_res = scope
        .get(&name("public_fn"))
        .expect("public_fn missing");
    assert_eq!(public_res.visibility, Visibility::Public);
}

#[test]
fn driver_test_pub_use_propagation() {
    // Scenario: Re-exporting.
    // 1. A.simf defines `pub fn foo`.
    // 2. B.simf imports it and re-exports it via `pub use`.
    // 3. main.simf imports it from B.
    // Expected: B's scope must contain `foo` marked as Public.

    let (graph, ids) = setup_project(vec![
        ("libs/lib/A.simf", "pub fn foo() {}"),
        ("libs/lib/B.simf", "pub use lib::A::foo;"),
        ("main.simf", "use lib::B::foo;"),
    ]);

    let id_a = *ids.get("A").unwrap();
    let id_b = *ids.get("B").unwrap();
    let id_root = *ids.get("main").unwrap();

    // Manual topological order: A -> B -> Root
    let order = vec![id_a, id_b, id_root];

    let mut error_handler = ErrorCollector::new();
    let program = graph
        .build_program(&order, &mut error_handler)
        .expect("Failed to build program");

    // Check B's scope
    let scope_b = &program.resolutions()[id_b];
    let foo_in_b = scope_b.get(&name("foo")).expect("foo missing in B");

    // This is the critical check: Did `pub use` make it Public in B?
    assert_eq!(
        foo_in_b.visibility,
        Visibility::Public,
        "B should re-export foo as Public"
    );

    // Check Root's scope
    let scope_root = &program.resolutions()[id_root];
    let foo_in_root = scope_root.get(&name("foo")).expect("foo missing in Root");

    // Root imported it via `use` (not pub use), so it should be Private in Root
    assert_eq!(
        foo_in_root.visibility,
        Visibility::Private,
        "Root should have foo as Private"
    );
}

#[test]
fn driver_test_private_import_encapsulation_error() {
    // Scenario: Access violation.
    // 1. A.simf defines `pub fn foo`.
    // 2. B.simf imports it via `use` (Private import).
    // 3. main.simf tries to import `foo` from B.
    // Expected: Error, because B did not re-export foo.

    let (graph, ids) = setup_project(vec![
        ("libs/lib/A.simf", "pub fn foo() {}"),
        ("libs/lib/B.simf", "use lib::A::foo;"), // <--- Private binding!
        ("main.simf", "use lib::B::foo;"),       // <--- Should fail
    ]);

    let id_a = *ids.get("A").unwrap();
    let id_b = *ids.get("B").unwrap();
    let id_root = *ids.get("main").unwrap();

    // Order: A -> B -> Root
    let order = vec![id_a, id_b, id_root];

    let mut error_handler = ErrorCollector::new();
    let result = graph.build_program(&order, &mut error_handler);

    assert!(
        result.is_none(),
        "Build should fail when importing a private binding"
    );

    assert!(
        error_handler.has_errors(),
        "Error handler should contain errors"
    );

    let err_msg = error_handler.to_string();
    assert!(
        err_msg.contains("private"),
        "Error message should mention 'private', but got: \n{}",
        err_msg
    );
}

#[test]
fn test_simple_import() {
    // Setup:
    // main.simf -> "use lib::math;"
    // libs/lib/math.simf -> ""

    let (graph, ids) = setup_project(vec![
        ("main.simf", "use lib::math::some_func;"),
        ("libs/lib/math.simf", ""),
    ]);

    assert_eq!(graph.modules.len(), 2, "Should have Root and Math module");

    // Check dependency: Root depends on Math
    let root_id = ids["main"];
    let math_id = ids["math"];

    assert!(
        graph.dependencies[&root_id].contains(&math_id),
        "Root (main.simf) should depend on Math (math.simf)"
    );
}

#[test]
fn test_c3_simple_import() {
    // Setup similar to above
    let (graph, ids) = setup_project(vec![
        ("main.simf", "use lib::math::some_func;"),
        ("libs/lib/math.simf", ""),
    ]);

    let order = graph.c3_linearize().expect("C3 failed");

    let root_id = ids["main"];
    let math_id = ids["math"];

    assert_eq!(order, vec![root_id, math_id]);
}

#[test]
fn test_diamond_dependency_deduplication() {
    // Setup:
    // root -> imports A, B
    // A -> imports Common
    // B -> imports Common
    // Expected: Common loaded ONLY ONCE (total 4 modules).

    let (graph, ids) = setup_project(vec![
        ("main.simf", "use lib::A::foo; use lib::B::bar;"),
        ("libs/lib/A.simf", "use lib::Common::dummy1;"),
        ("libs/lib/B.simf", "use lib::Common::dummy2;"),
        ("libs/lib/Common.simf", ""),
    ]);

    // 1. Check strict deduplication (Unique modules count)
    assert_eq!(
        graph.modules.len(),
        4,
        "Should resolve exactly 4 unique modules (Main, A, B, Common)"
    );

    // 2. Verify Graph Topology via IDs
    let a_id = ids["A"];
    let b_id = ids["B"];
    let common_id = ids["Common"];

    // Check A -> Common
    assert!(
        graph.dependencies[&a_id].contains(&common_id),
        "A should depend on Common"
    );

    // Check B -> Common (Crucial: Must be the SAME common_id)
    assert!(
        graph.dependencies[&b_id].contains(&common_id),
        "B should depend on Common"
    );
}

#[test]
fn test_c3_diamond_dependency_deduplication() {
    // Setup:
    // root (main) -> imports A, B
    // A -> imports Common
    // B -> imports Common
    // Expected: Common loaded ONLY ONCE.

    let (graph, ids) = setup_project(vec![
        ("main.simf", "use lib::A::foo; use lib::B::bar;"),
        ("libs/lib/A.simf", "use lib::Common::dummy1;"),
        ("libs/lib/B.simf", "use lib::Common::dummy2;"),
        ("libs/lib/Common.simf", ""),
    ]);

    let order = graph.c3_linearize().expect("C3 failed");

    // Verify order using IDs from the helper map
    let main_id = ids["main"];
    let a_id = ids["A"];
    let b_id = ids["B"];
    let common_id = ids["Common"];

    assert_eq!(order, vec![main_id, a_id, b_id, common_id]);
}

#[test]
fn test_cyclic_dependency_graph_structure() {
    // Setup: A <-> B cycle
    // main -> imports A
    // A -> imports B
    // B -> imports A

    let (graph, ids) = setup_project(vec![
        ("main.simf", "use lib::A::entry;"),
        ("libs/lib/A.simf", "use lib::B::func;"),
        ("libs/lib/B.simf", "use lib::A::func;"),
    ]);

    let a_id = ids["A"];
    let b_id = ids["B"];

    // Check if graph correctly recorded the cycle
    assert!(
        graph.dependencies[&a_id].contains(&b_id),
        "A should depend on B"
    );
    assert!(
        graph.dependencies[&b_id].contains(&a_id),
        "B should depend on A"
    );
}

#[test]
fn test_c3_detects_cycle() {
    // Uses the same logic as above but verifies linearization fails
    let (graph, _) = setup_project(vec![
        ("main.simf", "use lib::A::entry;"),
        ("libs/lib/A.simf", "use lib::B::func;"),
        ("libs/lib/B.simf", "use lib::A::func;"),
    ]);

    let result = graph.c3_linearize();
    assert!(matches!(result, Err(C3Error::CycleDetected(_))));
}

#[test]
fn test_ignores_unmapped_imports() {
    // Setup: root imports from "unknown", which is not in our lib_map
    let (graph, ids) = setup_project(vec![("main.simf", "use unknown::library;")]);

    assert_eq!(graph.modules.len(), 1, "Should only contain root");
    assert!(graph.dependencies[&ids["main"]].is_empty());
}

#[test]
fn test_missing_file_error() {
    // We cannot use `setup_project` here because we expect `ProjectGraph::new` to return None.
    // We purposefully DO NOT create ghost.simf
    let mut handler = ErrorCollector::new();
    let result = try_project(&[("main.simf", "use lib::ghost::Phantom;")], &mut handler);

    assert!(result.is_none(), "Graph construction should fail");
    assert!(!handler.get().is_empty());

    let error_msg = handler.to_string();
    assert!(
        error_msg.contains("File not found") || error_msg.contains("ghost.simf"),
        "Error message should mention 'ghost.simf' or 'File not found'. Got: {}",
        error_msg
    );
}

#[test]
fn errors_of_imported_files_are_collected() {
    let source = "use lib::bad::x;";
    let program = parse_program(source);
    let mut table = FileTable::new();
    table.push(
        in_workspace("libs/lib/bad.simf"),
        FileContent::Invalid(vec![RichError::parsing_error("first"), RichError::parsing_error("second")]),
    );
    let mut handler = ErrorCollector::new();
    let main = SourceFile::new(SourceName::Real(in_workspace("main.simf")), source.to_string());
    assert!(ProjectGraph::new(main, libraries(), &program, &table, &mut handler).is_none());
    assert_eq!(handler.get().len(), 2);
}

#[test]
fn contradictory_orders_have_no_linearization() {
    let (graph, _) = setup_project(vec![
        ("main.simf", "use lib::A::foo; use lib::B::bar;"),
        ("libs/lib/A.simf", "use lib::X::foo; use lib::Y::bar;"),
        ("libs/lib/B.simf", "use lib::Y::baz; use lib::X::qux;"),
        ("libs/lib/X.simf", ""),
        ("libs/lib/Y.simf", ""),
    ]);
    assert!(matches!(
        graph.c3_linearize(),
        Err(C3Error::InconsistentLinearization { module: 0 })
    ));
}

#[test]
fn sequences_are_merged_in_order() {
    assert_eq!(
        merge(vec![vec![1, 3], vec![2, 3], vec![1, 2]]),
        Some(vec![1, 2, 3])
    );
    assert_eq!(merge(vec![vec![1, 2], vec![2, 1]]), None);
    assert_eq!(merge(vec![]), Some(vec![]));
}

#[test]
fn projects_are_linked_bottom_up() {
    let (graph, ids) = setup_project(vec![
        ("libs/lib/A.simf", "pub type T = u8; fn hidden() {}"),
        ("main.simf", "use lib::A::T; fn main() {}"),
    ]);
    let mut handler = ErrorCollector::new();
    let program = graph.resolve_complication_order(&mut handler).unwrap();
    let bodies: Vec<String> = program
        .items()
        .iter()
        .map(|_| "{\n}".to_string())
        .collect();
    assert_eq!(ids["A"], 1);
    assert_eq!(
        program.to_string_with_bodies(&bodies),
        "type T [file_id: 1]  = u8;\n\
         fn hidden [file_id: 1] () {\n}\n\
         fn main [file_id: 0] () {\n}\n\
         \n/* --- RESOLUTION TABLE ---\n   \
         File ID 0:\n     T: Private\n     main: Private\n   \
         File ID 1:\n     T: Public\n     hidden: Private\n*/\n"
    );
}

#[test]
fn unknown_item_and_library_are_reported() {
    let (graph, _) = setup_project(vec![
        ("libs/lib/A.simf", ""),
        ("main.simf", "use lib::A::missing; use other::B::c; fn main() {}"),
    ]);
    let mut handler = ErrorCollector::new();
    assert!(graph.resolve_complication_order(&mut handler).is_none());
    let errors = handler.get();
    assert_eq!(errors.len(), 2);
    assert!(matches!(errors[0].error(), Error::UnresolvedItem(item) if item == "missing"));
    assert!(matches!(errors[1].error(), Error::UnknownLibrary(library) if library == "other"));
}

#[test]
fn single_file_is_turned_into_a_program() {
    let source = "pub type T = u8; fn f(x: T, y: (u8, bool)) -> T { x } mod m {}";
    let file = SourceFile::new(SourceName::Real(in_workspace("main.simf")), source.to_string());
    let mut handler = ErrorCollector::new();
    let program = simplicityhl::driver::Program::from_parse(
        &parse_program(source),
        file,
        &mut handler,
    )
    .unwrap();
    assert_eq!(program.items().len(), 2);
    match &program.items()[1] {
        simplicityhl::driver::Item::Function(f) => assert_eq!(
            f.to_string_with_body("{ x }"),
            "fn f [file_id: 0] (x: T, y: (u8, bool)) -> T { x }"
        ),
        other => panic!("unexpected item {other:?}"),
    }
    assert_eq!(
        program.resolutions()[0].get(&name("f")).unwrap().visibility,
        Visibility::Public
    );

    let source = "use lib::A::b;";
    let file = SourceFile::new(SourceName::Real(in_workspace("main.simf")), source.to_string());
    let mut handler = ErrorCollector::new();
    assert!(simplicityhl::driver::Program::from_parse(
        &parse_program(source),
        file,
        &mut handler
    )
    .is_none());
    assert!(matches!(handler.get()[0].error(), Error::UnknownLibrary(_)));
}

// The order of definitions.

fn check_code(code: &str) -> Result<(), OrderError> {
    let program = parse_program(code);
    let mut validator = OrderValidator::new();
    validator.check_stream(&program.items)
}

#[test]
fn test_valid_definition_before_use() {
    let code = r#"
            fn helper() { unit }
            fn main() { helper() }
        "#;
    assert!(check_code(code).is_ok());
}

#[test]
fn test_fail_forward_reference() {
    let code = r#"
            fn main() { helper() }
            fn helper() { unit }
        "#;

    let result = check_code(code);
    match result {
        Err(OrderError::ForwardReference { user, used }) => {
            assert_eq!(user.as_inner(), "main");
            assert_eq!(used.as_inner(), "helper");
        }
        _ => panic!("Expected ForwardReference error, got: {:?}", result),
    }
}

#[test]
fn test_fail_recursion() {
    let code = r#"
            fn recursive() { recursive() }
        "#;

    let result = check_code(code);
    match result {
        Err(OrderError::ForwardReference { user, used }) => {
            assert_eq!(user.as_inner(), "recursive");
            assert_eq!(used.as_inner(), "recursive");
        }
        _ => panic!("Recursion should be detected as forward ref, got: {:?}", result),
    }
}

#[test]
fn test_nested_blocks_and_calls() {
    let code = r#"
            fn deep_helper() { unit }

            fn main() {
                {
                    let x: u1 = 0;
                    deep_helper()
                }
            }
        "#;
    assert!(check_code(code).is_ok());
}

#[test]
fn test_fail_nested_forward_ref() {
    let code = r#"
            fn main() {
                {
                    missing_func()
                }
            }
        "#;
    assert!(matches!(
        check_code(code),
        Err(OrderError::ForwardReference { .. })
    ));
}

#[test]
fn test_match_arm_calls() {
    let code = r#"
            fn handle_left() { unit }
            fn handle_right() { unit }

            fn main() {
                let s: Either<u1, u1> = Left(0);
                match s {
                    Left(l: u1) => handle_left(),
                    Right(r: u1) => handle_right(),
                }
            }
        "#;
    assert!(check_code(code).is_ok());
}

#[test]
fn test_fail_match_arm_forward_ref() {
    let code = r#"
            fn main() {
                let s: Either<u1, u1> = Left(0);
                match s {
                    Left(l: u1) => unit,
                    Right(r: u1) => not_defined_yet(),
                }
            }

            fn not_defined_yet() { unit }
        "#;

    let result = check_code(code);
    match result {
        Err(OrderError::ForwardReference { used, .. }) => {
            assert_eq!(used.as_inner(), "not_defined_yet");
        }
        _ => panic!("Should catch forward ref in match arm, got: {:?}", result),
    }
}

#[test]
fn test_multiple_failures_stop_at_first() {
    let code = r#"
            fn a() { missing1() }
            fn b() { missing2() }
        "#;

    match check_code(code) {
        Err(OrderError::ForwardReference { used, .. }) => {
            assert_eq!(used.as_inner(), "missing1");
        }
        _ => panic!("Should stop at first error"),
    }
}

#[test]
fn arguments_are_checked_before_the_called_function() {
    match check_code("fn main() { outer(inner()) }") {
        Err(OrderError::ForwardReference { used, .. }) => assert_eq!(used.as_inner(), "inner"),
        other => panic!("unexpected result {other:?}"),
    }
    assert!(check_code("fn f() {} fn g() { fold::<f, 4>(x, y); array_fold::<f, 3>(x, y); for_while::<f>(x, y) }").is_ok());
    for code in [
        "fn g() { fold::<f, 4>(x, y) }",
        "fn g() { array_fold::<f, 3>(x, y) }",
        "fn g() { for_while::<f>(x, y) }",
    ] {
        assert!(check_code(code).is_err());
    }
}

#[test]
fn imported_functions_are_defined() {
    assert!(check_code("use lib::A::{f, g as h}; fn main() { f(); g(); }").is_ok());
    assert!(check_code("use lib::A::g as h; fn main() { h() }").is_err());
}

#[test]
fn functions_before_an_error_stay_defined() {
    let program = parse_program("fn a() {} fn b() { c() } fn c() {}");
    let mut validator = OrderValidator::new();
    assert!(validator.check_stream(&program.items).is_err());
    let defined: Vec<&str> = validator
        .defined_functions
        .iter()
        .map(|f| f.as_inner())
        .collect();
    assert_eq!(defined, vec!["a"]);
}

// Types and expressions.

#[test]
fn expressions_are_typed() {
    let program = analyze(
        "fn pair(a: u8, b: bool) -> (u8, bool) { (a, b) }
         fn main() {
             let (x, y): (u8, bool) = pair(7, true);
             let z: [u8; 3] = [x, x, 0xff];
             let l: List<u8, 4> = list![1, 2, 3];
             let e: Either<u8, ()> = Left(x);
             let o: Option<u16> = Some(0b1010101010101010);
             let n: u16 = unwrap(o);
             let b: [u8; 2] = 0xabcd;
             match e {
                 Left(v: u8) => { let (c, sum): (bool, u8) = jet::add_8(v, x); assert!(c) },
                 Right(u: ()) => panic!(),
             }
         }",
    )
    .unwrap();
    assert_eq!(*program.main().ty(), ResolvedType::unit());
    let calls: Vec<String> = program
        .call_tracker()
        .calls
        .iter()
        .map(|(_, call)| format!("{call:?}"))
        .collect();
    assert_eq!(calls, vec!["Unwrap", "Jet", "Assert", "Panic"]);
}

fn main_error(body: &str) -> Error {
    let source = format!("fn main() {{ {body} }}");
    let error = analyze(&source).unwrap_err();
    let copy = error.error().clone();
    copy
}

#[test]
fn ill_typed_expressions_are_rejected() {
    assert!(matches!(main_error("let x: u8 = true;"), Error::ExpressionTypeMismatch(..)));
    assert!(matches!(main_error("let x: bool = 1;"), Error::ExpressionUnexpectedType(..)));
    assert!(matches!(main_error("let x: u8 = 256;"), Error::IntegerOutOfBounds(..)));
    assert!(matches!(main_error("let x: u8 = 0b101;"), Error::BitStringPow2(3)));
    assert!(matches!(main_error("let x: u8 = y;"), Error::UndefinedVariable(..)));
    assert!(matches!(main_error("let x: Word = 0;"), Error::UndefinedAlias(..)));
    assert!(matches!(main_error("let (x, x): (u8, u8) = (1, 2);"), Error::VariableReuseInPattern(..)));
    assert!(matches!(main_error("f();"), Error::FunctionUndefined(..)));
    assert!(matches!(main_error("jet::bogus();"), Error::JetDoesNotExist(..)));
    assert!(matches!(main_error("assert!(true, false);"), Error::InvalidNumberOfArguments(1, 2)));
    assert!(matches!(main_error("let x: u8 = <u16>::into(1);"), Error::InvalidCast(..)));
    assert!(matches!(main_error("1"), Error::ExpressionUnexpectedType(..)));
    assert!(matches!(main_error("let x: [u8; 2] = [1];"), Error::ExpressionUnexpectedType(..)));
    assert!(matches!(main_error("let x: List<u8, 2> = list![1, 2];"), Error::ExpressionUnexpectedType(..)));
    assert!(matches!(main_error("{ let x: u8 = 1; }; let y: u8 = x;"), Error::UndefinedVariable(..)));
    assert!(matches!(main_error("let x: u8 = { };"), Error::ExpressionTypeMismatch(..)));
}

#[test]
fn items_are_checked() {
    let error = |source: &str| analyze(source).unwrap_err().error().clone();
    assert!(matches!(error("fn f() {}"), Error::MainRequired));
    assert!(matches!(error("fn main(x: u8) {}"), Error::MainNoInputs));
    assert!(matches!(error("fn main() -> u8 { 1 }"), Error::MainNoOutput));
    assert!(matches!(error("pub fn main() {}"), Error::MainCannotBePublic));
    assert!(matches!(error("fn f() {} fn f() {} fn main() {}"), Error::FunctionRedefined(..)));
    assert!(matches!(error("fn main() {} fn main() {}"), Error::FunctionRedefined(..)));
    assert!(matches!(error("type A = u8; type A = u8; fn main() {}"), Error::RedefinedAlias(..)));
    assert!(matches!(error("fn f() { let x: u8 = witness::W; } fn main() {}"), Error::WitnessOutsideMain));
    assert!(matches!(error("fn main() { let x: u8 = witness::W; let y: u8 = witness::W; }"), Error::WitnessReused(..)));
    assert!(matches!(error("fn main() { let x: u8 = param::P; let y: u16 = param::P; }"), Error::ExpressionTypeMismatch(..)));
    assert!(matches!(error("use lib::A::b; fn main() {}"), Error::MissingCrateKeyword));
    assert!(matches!(error("use crate::m::b; fn main() {}"), Error::ModuleNotFound(..)));
}

#[test]
fn folds_and_loops_need_functions_of_the_right_shape() {
    assert!(analyze(
        "fn add(e: u8, acc: u8) -> u8 { acc }
         fn step(acc: u8, ctx: (), i: u4) -> Either<u8, u8> { Right(acc) }
         fn main() {
             let a: u8 = fold::<add, 4>(list![1, 2], 0);
             let b: u8 = array_fold::<add, 2>([1, 2], 0);
             let c: Either<u8, u8> = for_while::<step>(0, ());
         }"
    )
    .is_ok());
    let error = |source: &str| analyze(source).unwrap_err().error().clone();
    assert!(matches!(
        error("fn f(a: u8) -> u8 { a } fn main() { let x: u8 = fold::<f, 4>(list![], 0); }"),
        Error::FunctionNotFoldable(..)
    ));
    assert!(matches!(
        error("fn f(a: u8, c: (), i: u32) -> Either<u8, u8> { Right(a) } fn main() { let x: Either<u8, u8> = for_while::<f>(0, ()); }"),
        Error::FunctionNotLoopable(..)
    ));
}

#[test]
fn parameters_and_witnesses_are_recorded() {
    let program = analyze(
        "fn f() -> u8 { param::P }
         fn main() { let x: u8 = f(); let y: u8 = param::P; let z: u32 = witness::W; }",
    )
    .unwrap();
    assert_eq!(
        program.parameters().get(&name("P")),
        Some(&ResolvedType::UInt(UIntType::U8))
    );
    assert_eq!(
        program.witness_types().get(&name("W")),
        Some(&ResolvedType::UInt(UIntType::U32))
    );
    assert_eq!(program.parameters().get(&name("W")), None);
}

#[test]
fn constant_expressions_are_analyzed_without_a_program() {
    let mut parser = Parser::new("(1, true)");
    let from = parser.expression();
    let ty = ResolvedType::Tuple(arc_list(vec![
        ResolvedType::UInt(UIntType::U8),
        ResolvedType::Boolean,
    ]));
    let expression = Expression::analyze_const(&from, &ty, elements()).unwrap();
    assert_eq!(*expression.ty(), ty);
    match expression.inner() {
        ExpressionInner::Single(single) => match single.inner() {
            SingleExpressionInner::Tuple(parts) => assert_eq!(parts.to_vec().len(), 2),
            other => panic!("unexpected expression {other:?}"),
        },
        other => panic!("unexpected expression {other:?}"),
    }
    let wrong = Expression::analyze_const(&from, &ResolvedType::Boolean, elements());
    assert!(wrong.is_err());
}

fn main_call(source: &str) -> Call {
    let program = analyze(source).unwrap();
    match program.main().inner() {
        ExpressionInner::Block(_, Some(last)) => match last.inner() {
            ExpressionInner::Single(single) => match single.inner() {
                SingleExpressionInner::Call(call) => Call {
                    name: call.name.clone(),
                    args: call.args.clone(),
                    span: call.span,
                },
                other => panic!("unexpected expression {other:?}"),
            },
            other => panic!("unexpected expression {other:?}"),
        },
        other => panic!("unexpected expression {other:?}"),
    }
}

#[test]
fn equality_ignores_places_in_the_file() {
    let a = main_call("fn f(x: u8) {} fn main() { f(1) }");
    let b = main_call("fn f ( x : u8 ) { }   fn main() { f( 1 ) }");
    let c = main_call("fn f(y: u8) {} fn main() { f(1) }");
    let d = main_call("fn f(x: u8) {} fn main() { f(2) }");
    assert!(a.span != b.span);
    assert!(a == b && b == a && a == a);
    assert!(a != c && a.name != c.name);
    assert!(a != d && a.name == d.name);
    assert!(CallName::Unwrap == CallName::Unwrap);
    assert!(CallName::Unwrap != CallName::Assert);
    assert!(CallName::IsNone(ResolvedType::Boolean) != CallName::UnwrapLeft(ResolvedType::Boolean));
    assert!(CallName::Jet(jet("a", vec![], AliasedType::Boolean)) == CallName::Jet(jet("a", vec![], AliasedType::Boolean)));
    assert!(CallName::Jet(jet("a", vec![], AliasedType::Boolean)) != CallName::Jet(jet("b", vec![], AliasedType::Boolean)));
}

#[test]
fn tuples_are_built_from_values() {
    let unit = SingleExpression::tuple(arc_list(vec![]), Span::new(1, 2));
    assert_eq!(*unit.ty(), ResolvedType::unit());
    assert_eq!(*unit.span(), Span::new(1, 2));
}

#[test]
fn elements_jets_are_known_by_name() {
    let hinter = ElementsJetHinter::new();
    for jet_name in ["is_zero_32", "is_zero_64", "add_8", "verify", "sig_all_hash"] {
        let found = hinter.parse_jet(jet_name).unwrap();
        assert_eq!(found.name.as_inner(), jet_name);
    }
    assert!(hinter.parse_jet("no_such_jet").is_none());
    assert!(hinter.parse_jet("").is_none());
    assert!(hinter.known_jet("no_such_jet", true).is_some());
    assert!(hinter.known_jet("is_zero_32", false).is_none());
    assert_eq!(hinter.construct_verify().name.as_inner(), "verify");
    assert!(hinter.clone_box().parse_jet("is_zero_32").is_some());
}

#[test]
fn jets_are_called_by_their_signatures() {
    let jets = elements();
    let found = jets.parse_jet("is_zero_32").unwrap();
    assert_eq!(found.name.as_inner(), "is_zero_32");
    // The signature is given, but there is no such jet.
    assert!(jets.parse_jet("no_such_jet").is_none());
    assert!(jets.typed_jet("no_such_jet", true).is_some());
    assert!(jets.typed_jet("is_zero_32", false).is_none());
    // There is such a jet, but its signature is not given.
    assert!(jets.parse_jet("is_zero_64").is_none());
    assert_eq!(jets.construct_verify().name.as_inner(), "verify");
    let copy = jets.clone_box();
    assert!(copy.parse_jet("is_zero_32").is_some() && copy.parse_jet("is_zero_64").is_none());
}

#[test]
fn literals_denote_values() {
    let program = analyze("fn main() { let x: [u8; 2] = 0xabCD; }").unwrap();
    let statements = match program.main().inner() {
        ExpressionInner::Block(statements, None) => statements.clone(),
        other => panic!("unexpected expression {other:?}"),
    };
    let value = match statements.to_vec()[0] {
        simplicityhl::ast::Statement::Assignment(a) => match a.expression().inner() {
            ExpressionInner::Single(single) => match single.inner() {
                SingleExpressionInner::Constant(value) => value.clone(),
                other => panic!("unexpected expression {other:?}"),
            },
            other => panic!("unexpected expression {other:?}"),
        },
        other => panic!("unexpected statement {other:?}"),
    };
    match value {
        Value::Bytes(bytes) => assert_eq!(bytes.to_vec(), vec![&0xabu8, &0xcdu8]),
        other => panic!("unexpected value {other:?}"),
    }
}

#[test]
fn tracked_calls_name_their_types() {
    let program = analyze(
        "fn main() {
             let e: Either<u8, bool> = Left(1);
             let x: u8 = unwrap_left::<bool>(e);
             let y: u8 = dbg!(x);
         }",
    )
    .unwrap();
    let calls = &program.call_tracker().calls;
    assert_eq!(calls.len(), 2);
    assert_eq!(
        calls[0].1,
        TrackedCallName::UnwrapLeft(ResolvedType::Either(
            Arc::new(ResolvedType::UInt(UIntType::U8)),
            Arc::new(ResolvedType::Boolean),
        ))
    );
    assert_eq!(
        calls[1].1,
        TrackedCallName::Debug(ResolvedType::UInt(UIntType::U8))
    );
}

fn single_file_program(source: &str) -> simplicityhl::driver::Program {
    let file = SourceFile::new(SourceName::Real(in_workspace("main.simf")), source.to_string());
    let mut handler = ErrorCollector::new();
    simplicityhl::driver::Program::from_parse(&parse_program(source), file, &mut handler).unwrap()
}

#[test]
fn parsed_programs_are_equal_at_whatever_places() {
    let a = parse_program("use lib::A::b; fn f(x: u8) -> u8 { let y: u8 = x; add(y, 1) }");
    let b = parse_program("use lib::A::b;  fn f(x: u8)  ->  u8 { let y: u8 = x; add( y, 1 ) }");
    let c = parse_program("use lib::A::b; fn f(x: u8) -> u8 { let y: u8 = x; add(y, 2) }");
    let d = parse_program("pub use lib::A::b; fn f(x: u8) -> u8 { let y: u8 = x; add(y, 1) }");
    assert!(a.span != b.span);
    assert!(a == b && b == a && a == a.clone());
    assert!(a != c && a != d && c != d);
}

#[test]
fn linked_programs_are_equal_at_whatever_places() {
    let a = single_file_program("type T = u8; fn main() { assert!(true) }");
    let b = single_file_program("type T  =  u8;  fn main() { assert!( true ) }");
    let c = single_file_program("type T = u8; fn main() { assert!(false) }");
    let d = single_file_program("type T = u16; fn main() { assert!(true) }");
    assert!(a.span != b.span);
    assert!(a == b && b == a && a == a.clone());
    assert!(a != c && a != d);
    assert!(a.items()[0] == c.items()[0] && a.items()[1] != c.items()[1]);
    assert!(a.items()[0] != a.items()[1]);
    assert!(a.resolutions()[0] == c.resolutions()[0]);
    assert!(a.resolutions()[0] != single_file_program("fn main() {}").resolutions()[0]);
}

#[test]
fn analyzed_programs_can_be_copied_and_compared() {
    let source = "fn main() { let x: u8 = witness::A; let y: u8 = param::B; assert!(true) }";
    let program = analyze(source).unwrap();
    assert!(program == program.clone());
    assert!(program == analyze(source).unwrap());
    let other = "fn main() { let x: u8 = witness::C; let y: u8 = param::B; assert!(true) }";
    assert!(program != analyze(other).unwrap());
    assert!(*program.witness_types() != *analyze(other).unwrap().witness_types());
    assert!(*program.parameters() == *analyze(other).unwrap().parameters());
}

#[test]
fn parameters_form_a_tuple_pattern() {
    let call = main_call("fn f(x: u8, y: bool) {} fn main() { f(1, true) }");
    match call.name() {
        CallName::Custom(function) => match function.params_pattern() {
            Pattern::Tuple(parts) => {
                let parts = parts.to_vec();
                assert_eq!(parts.len(), 2);
                assert!(matches!(parts[0], Pattern::Identifier(x) if x.as_inner() == "x"));
                assert!(matches!(parts[1], Pattern::Identifier(y) if y.as_inner() == "y"));
            }
            other => panic!("unexpected pattern {other:?}"),
        },
        other => panic!("unexpected name {other:?}"),
    }
}

#[test]
fn merge_fails_only_if_no_order_is_left() {
    assert_eq!(
        merge(vec![vec![4, 1], vec![1, 2], vec![2, 3], vec![4, 3]]),
        Some(vec![4, 1, 2, 3])
    );
    assert_eq!(merge(vec![vec![1, 2], vec![2, 3], vec![3, 1]]), None);
    assert_eq!(merge(vec![vec![1, 1]]), None);
}

#[test]
fn load_order_depends_on_the_dependencies_alone() {
    let (mut graph, ids) = setup_graph(vec![
        ("main.simf", "use lib::A::foo;"),
        ("libs/lib/A.simf", "use crate::B::bar;"),
        ("libs/lib/B.simf", ""),
    ]);
    graph.use_cache = vec![];
    assert_eq!(
        graph.linearize().unwrap(),
        vec![ids["B"], ids["A"], ids["main"]]
    );
}

#[test]
fn only_the_files_of_the_order_are_flattened() {
    let (graph, ids) = setup_graph(vec![
        ("main.simf", "use lib::A::foo;"),
        ("libs/lib/A.simf", "pub fn foo() {}"),
    ]);
    let handler = ErrorCollector::new();
    let program = graph.build_program(&vec![ids["A"]], &handler).unwrap();
    assert_eq!(program.items.to_vec().len(), 1);
    let nothing = graph.build_program(&vec![], &handler).unwrap();
    assert!(nothing.items.is_empty());
}

#[test]
fn relative_files_are_named_as_they_are() {
    let file = SourceFile::new(
        SourceName::Real(FilePath {
            components: vec!["src".to_string(), "main.simf".to_string()],
        }),
        "abc".to_string(),
    );
    let error = RichError::new(Error::MainRequired, Span::new(0, 3)).with_source(file);
    assert!(error.to_string().starts_with(" --> src/main.simf:1:1\n"));
}

#[test]
fn graph_numbers_files_by_name_and_reaches_them_all() {
    let (graph, ids) = setup_project(vec![
        ("main.simf", "use lib::A::foo; use lib::A::bar;"),
        ("libs/lib/A.simf", "use lib::B::baz; use lib::C::qux;"),
        ("libs/lib/B.simf", "use lib::C::qux;"),
        ("libs/lib/C.simf", ""),
    ]);
    assert_eq!(graph.paths.len(), graph.modules.len());
    assert_eq!(ids["main"], 0);
    for (id, file) in graph.paths.iter().enumerate() {
        assert_eq!(graph.lookup(file), Some(id));
    }
    assert_eq!(graph.dependencies[&0], vec![ids["A"]]);
    let mut reached = vec![0];
    let mut next = 0;
    while next < reached.len() {
        for target in graph.dependencies.get(&reached[next]).into_iter().flatten() {
            if !reached.contains(target) {
                reached.push(*target);
            }
        }
        next += 1;
    }
    assert_eq!(reached.len(), graph.modules.len());
}

#[test]
fn reported_cycles_leave_out_the_files_before_them() {
    let (graph, ids) = setup_project(vec![
        ("main.simf", "use lib::A::foo;"),
        ("libs/lib/A.simf", "use lib::B::foo;"),
        ("libs/lib/B.simf", "use lib::C::foo;"),
        ("libs/lib/C.simf", "use lib::B::foo;"),
    ]);
    match graph.c3_linearize() {
        Err(C3Error::CycleDetected(files)) => assert_eq!(files, vec![ids["B"], ids["C"]]),
        other => panic!("unexpected result {other:?}"),
    }
}
