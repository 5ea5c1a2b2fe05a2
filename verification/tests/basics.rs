//! Values, types, names, paths and texts.
use simplicityhl::error::Error;
use simplicityhl::list::List;
use simplicityhl::name::Identifier;
use simplicityhl::name_map::NameMap;
use simplicityhl::order::{relate, relate_paths, Relation};
use simplicityhl::path::FilePath;
use simplicityhl::pattern::Pattern;
use simplicityhl::resolution::is_valid_dependency_identifier;
use simplicityhl::source::SourceName;
use simplicityhl::structure::StructuralType;
use simplicityhl::text::{decimal_text, join};
use simplicityhl::types::{AliasedType, ResolvedType, UIntType};
use simplicityhl::value::{UIntValue, Value};
use std::sync::Arc;

fn path(text: &str) -> FilePath {
    let components = match text {
        "" => vec![],
        "/" => vec!["".to_string()],
        _ => text.split('/').map(|name| name.to_string()).collect(),
    };
    FilePath { components }
}

fn tuple(types: Vec<ResolvedType>) -> ResolvedType {
    ResolvedType::Tuple(Arc::new(List::from_vec(types)))
}

#[test]
fn paths_are_taken_apart() {
    assert_eq!(path("/a/b").to_text(), "/a/b");
    assert_eq!(path("/").to_text(), "/");
    assert_eq!(path("/a").join("b.c"), path("/a/b.c"));
    assert!(path("/a/b").starts_with(&path("/a")));
    assert!(!path("/ab").starts_with(&path("/a")));
    assert!(path("/a/b").is_directly_in(&path("/a")));
    assert!(!path("/a/b/c").is_directly_in(&path("/a")));
    assert_eq!(path("/a/b").byte_len(), 4);
    assert_eq!(path("/").byte_len(), 1);
    assert_eq!(path("/é").byte_len(), 3);
}

#[test]
fn relative_paths_have_no_leading_slash() {
    assert_eq!(path("a/b.simf").to_text(), "a/b.simf");
    assert_eq!(path("main.simf").to_text(), "main.simf");
    assert_eq!(path("").to_text(), "");
    assert_eq!(path("a").join("b").to_text(), "a/b");
    assert_eq!(path("a/b").byte_len(), 3);
    assert_eq!(path("").byte_len(), 0);
    assert!(path("a") != path("/a"));
    assert!(!path("/a/b").starts_with(&path("a")));
    assert!(path("/a/b").starts_with(&path("/")));
    assert!(path("a").is_directly_in(&path("")));
    assert!(path("/a").is_directly_in(&path("/")));
    assert!(!path("/").is_directly_in(&path("")));
    assert_eq!(path("main.simf").with_extension(""), path("main"));
    assert_eq!(path(".").with_extension("simf"), path("."));
    assert_eq!(path("").with_extension("simf"), path(""));
    assert_eq!(
        Error::FileNotFound(path("lib/a.simf")).to_string(),
        "File `lib/a.simf` not found"
    );
    assert_eq!(
        Error::FileNotFound(path("/lib/a.simf")).to_string(),
        "File `/lib/a.simf` not found"
    );
}

#[test]
fn extensions_are_replaced() {
    assert_eq!(path("/a/b").with_extension("simf"), path("/a/b.simf"));
    assert_eq!(path("/a/b.txt").with_extension("simf"), path("/a/b.simf"));
    assert_eq!(path("/a/b.tar.gz").with_extension(""), path("/a/b.tar"));
    assert_eq!(path("/a/.hidden").with_extension(""), path("/a/.hidden"));
    assert_eq!(path("/a/..").with_extension("simf"), path("/a/.."));
    assert_eq!(path("/").with_extension("simf"), path("/"));
    let name = SourceName::Real(path("/a/main.simf"));
    assert_eq!(name.without_extension(), SourceName::Real(path("/a/main")));
}

#[test]
fn texts_and_paths_are_ordered() {
    assert_eq!(relate("a", "b"), Relation::Before);
    assert_eq!(relate("ab", "a"), Relation::After);
    assert_eq!(relate("", ""), Relation::Same);
    assert_eq!(relate("Z", "a"), Relation::Before);
    assert_eq!(relate_paths(&path("/a/b"), &path("/a.b")), Relation::Before);
    assert_eq!(relate_paths(&path("/b"), &path("/a/z")), Relation::After);
}

#[test]
fn texts_are_put_together() {
    assert_eq!(decimal_text(0), "0");
    assert_eq!(decimal_text(1234567890), "1234567890");
    assert_eq!(decimal_text(usize::MAX), usize::MAX.to_string());
    let parts = vec!["a".to_string(), "b".to_string(), "c".to_string()];
    assert_eq!(join(&parts, ", "), "a, b, c");
    assert_eq!(join(&vec![], ", "), "");
}

#[test]
fn latest_entry_of_a_map_counts() {
    let mut map: NameMap<u8> = NameMap::new();
    let key = Identifier::from_str_unchecked("x");
    assert_eq!(map.get(&key), None);
    map.insert(key.clone(), 1);
    map.insert(Identifier::from_str_unchecked("y"), 2);
    map.insert(key.clone(), 3);
    assert_eq!(map.get(&key), Some(&3));
}

#[test]
fn dependency_names_are_identifiers() {
    for name in ["a", "_", "_1", "math2", "Crate"] {
        assert!(is_valid_dependency_identifier(name), "{name}");
    }
    for name in ["", "1a", "a-b", "é", "crate", "use", "true"] {
        assert!(!is_valid_dependency_identifier(name), "{name}");
    }
}

#[test]
fn types_are_written() {
    let byte = ResolvedType::UInt(UIntType::U8);
    assert_eq!(tuple(vec![]).to_string(), "()");
    assert_eq!(tuple(vec![byte.clone()]).to_string(), "(u8,)");
    assert_eq!(
        tuple(vec![byte.clone(), ResolvedType::Boolean]).to_string(),
        "(u8, bool)"
    );
    assert_eq!(
        ResolvedType::List(Arc::new(byte.clone()), 4).to_string(),
        "List<u8, 4>"
    );
    assert_eq!(
        ResolvedType::Either(
            Arc::new(ResolvedType::Array(Arc::new(byte.clone()), 3)),
            Arc::new(ResolvedType::Option(Arc::new(byte))),
        )
        .to_string(),
        "Either<[u8; 3], Option<u8>>"
    );
    assert_eq!(
        AliasedType::Alias(Identifier::from_str_unchecked("Word")).to_string(),
        "Word"
    );
    let pattern = Pattern::Tuple(Arc::new(List::from_vec(vec![
        Pattern::Identifier(Identifier::from_str_unchecked("x")),
        Pattern::Ignore,
    ])));
    assert_eq!(pattern.to_string(), "(x, _)");
}

#[test]
fn casts_go_by_structure() {
    let word = |ty: UIntType| StructuralType::of(&ResolvedType::UInt(ty));
    let pair = tuple(vec![
        ResolvedType::UInt(UIntType::U8),
        ResolvedType::UInt(UIntType::U8),
    ]);
    assert!(StructuralType::of(&pair).same(&word(UIntType::U16)));
    assert!(!StructuralType::of(&pair).same(&word(UIntType::U8)));
    let bit = ResolvedType::UInt(UIntType::U1);
    assert!(StructuralType::of(&bit)
        .same(&StructuralType::of(&ResolvedType::Boolean)));
    let array = ResolvedType::Array(Arc::new(ResolvedType::UInt(UIntType::U8)), 4);
    assert!(StructuralType::of(&array).same(&word(UIntType::U32)));
}

#[test]
fn integers_are_read() {
    let max = "115792089237316195423570985008687907853269984665640564039457584007913129639935";
    let value = UIntValue::parse_decimal(max, UIntType::U256).unwrap();
    assert_eq!(value.number.d0, u64::MAX);
    assert_eq!(value.number.d3, u64::MAX);
    let next = "115792089237316195423570985008687907853269984665640564039457584007913129639936";
    assert!(UIntValue::parse_decimal(next, UIntType::U256).is_err());
    assert_eq!(
        UIntValue::parse_decimal("18446744073709551616", UIntType::U128)
            .unwrap()
            .number
            .d1,
        1
    );
    assert!(UIntValue::parse_decimal("", UIntType::U8).is_err());
    assert!(UIntValue::parse_decimal("12a", UIntType::U8).is_err());
    assert_eq!(
        UIntValue::parse_binary("10", UIntType::U2).unwrap().number.d0,
        2
    );
    assert!(matches!(
        Value::parse_hexadecimal("ff", &ResolvedType::UInt(UIntType::U8)),
        Ok(Value::UInt(_))
    ));
    assert!(Value::parse_hexadecimal("fff", &ResolvedType::UInt(UIntType::U8)).is_err());
    assert!(Value::parse_hexadecimal("f", &ResolvedType::UInt(UIntType::U4)).is_err());
}
