//! Resolution of imports in a workspace that exists in memory only.
use simplicityhl::disk::{Disk, DiskEntry};
use simplicityhl::error::{Error, Span};
use simplicityhl::lexer::keywords;
use simplicityhl::name::Identifier;
use simplicityhl::parse::{UseDecl, UseItem, UseItems, Visibility};
use simplicityhl::path::{CanonPath, FilePath};
use simplicityhl::resolution::{DependencyMap, DependencyMapBuilder, ResolvedUse};
use std::collections::BTreeMap;

const CRATE_STR: &str = "crate";

/// A file system in memory: for each path whether there is a directory, and the path without
/// symbolic links.
struct TempWorkspace {
    root: Vec<String>,
    entries: BTreeMap<Vec<String>, (bool, Vec<String>)>,
}

fn file_path(names: &[String]) -> FilePath {
    let mut components = vec!["".to_string()];
    components.extend(names.iter().cloned());
    FilePath { components }
}

fn canon_path(names: &[String]) -> CanonPath {
    CanonPath {
        path: file_path(names),
    }
}

fn split(path: &str) -> Vec<String> {
    path.split('/')
        .filter(|name| !name.is_empty())
        .map(|name| name.to_string())
        .collect()
}

/// Go through `.` and `..`.
fn normalize(names: &[String]) -> Vec<String> {
    let mut result: Vec<String> = Vec::new();
    for name in names {
        if name == ".." {
            result.pop();
        } else if name != "." {
            result.push(name.clone());
        }
    }
    result
}

impl TempWorkspace {
    fn new(name: &str) -> TempWorkspace {
        let mut workspace = TempWorkspace {
            root: vec!["tmp".to_string(), name.to_string()],
            entries: BTreeMap::new(),
        };
        workspace.create_dir("");
        workspace
    }

    fn names(&self, path: &str) -> Vec<String> {
        let mut names = self.root.clone();
        names.extend(split(path));
        names
    }

    fn create_dir(&mut self, path: &str) -> CanonPath {
        let names = self.names(path);
        for n in 0..=names.len() {
            let prefix = names[..n].to_vec();
            self.entries
                .insert(prefix.clone(), (true, prefix));
        }
        canon_path(&names)
    }

    fn create_file(&mut self, path: &str) -> CanonPath {
        let names = self.names(path);
        for n in 0..names.len() {
            let prefix = names[..n].to_vec();
            self.entries
                .insert(prefix.clone(), (true, prefix));
        }
        self.entries
            .insert(names.clone(), (false, names.clone()));
        canon_path(&names)
    }

    fn create_link(&mut self, path: &str, target: &CanonPath) {
        let names = self.names(path);
        self.entries
            .insert(names, (false, target.path.components[1..].to_vec()));
    }

    /// What there is at the given paths.
    fn look_at(&self, paths: Vec<FilePath>) -> Disk {
        let mut entries = Vec::new();
        for path in paths {
            if let Some((is_dir, canonical)) = self.entries.get(&normalize(&path.components[1..])) {
                entries.push(DiskEntry {
                    path,
                    is_dir: *is_dir,
                    canonical: canon_path(canonical),
                });
            }
        }
        Disk { entries }
    }

    fn resolve(
        &self,
        map: &DependencyMap,
        file: &CanonPath,
        use_decl: &UseDecl,
    ) -> Result<ResolvedUse, simplicityhl::error::RichError> {
        let disk = self.look_at(map.probes(file, use_decl));
        map.resolve_path_internal(file, use_decl, &disk)
    }

    fn resolve_path(
        &self,
        map: &DependencyMap,
        file: &CanonPath,
        use_decl: &UseDecl,
    ) -> Result<CanonPath, simplicityhl::error::RichError> {
        let disk = self.look_at(map.probes(file, use_decl));
        map.resolve_path(file, use_decl, &disk)
    }
}

/// Helper to easily construct a `UseDecl` for path resolution tests.
fn create_dummy_use_decl(path_segments: &[&str]) -> UseDecl {
    UseDecl {
        visibility: Visibility::Private,
        path: path_segments
            .iter()
            .map(|name| Identifier::from_str_unchecked(name))
            .collect(),
        items: UseItems::Single(UseItem {
            name: Identifier::from_str_unchecked("item"),
            alias: None,
        }),
        span: Span::new(3, 9),
    }
}

/// Creates directories under `ws` and returns their canonical paths.
fn dirs<const N: usize>(ws: &mut TempWorkspace, paths: [&str; N]) -> [CanonPath; N] {
    paths.map(|p| ws.create_dir(p))
}

/// Creates empty files under `ws` and returns their canonical paths.
fn files<const N: usize>(ws: &mut TempWorkspace, paths: [&str; N]) -> [CanonPath; N] {
    paths.map(|p| ws.create_file(p))
}

/// Builds a `DependencyMap`.
fn build_map(
    ws: &TempWorkspace,
    root: &CanonPath,
    deps: &[(&CanonPath, &str, &CanonPath)],
) -> Result<DependencyMap, Error> {
    let mut builder = DependencyMapBuilder::new();
    let mut paths = vec![root.path.clone()];
    for (ctx, alias, target) in deps {
        paths.push(ctx.path.clone());
        paths.push(target.path.clone());
        builder.add_dependency((*ctx).clone(), alias.to_string(), (*target).clone());
    }
    builder.build(root.clone(), &ws.look_at(paths))
}

/// Attempting to manually map the `crate` keyword must result in an error.
#[test]
fn test_insert_crate_fails() {
    let mut ws = TempWorkspace::new("insert_crate_fail");
    let [project_dir] = dirs(&mut ws, ["workspace"]);

    let result = build_map(&ws, &project_dir, &[(&project_dir, CRATE_STR, &project_dir)]);

    assert!(matches!(
        result.unwrap_err(),
        Error::ReservedDependencyKeyword { .. }
    ));
}

/// When a user registers the same library dependency root path multiple times
/// for different folders, the compiler must always check the longest folder path first.
#[test]
fn test_sorting_longest_prefix() {
    let mut ws = TempWorkspace::new("sorting");

    let [workspace_dir, project_a_dir, nested_dir, target_v1, target_v2, target_v3] = dirs(
        &mut ws,
        [
            "workspace",
            "workspace/project_a",
            "workspace/project_a/nested",
            "lib/math_v1",
            "lib/math_v2",
            "lib/math_v3",
        ],
    );

    let map = build_map(
        &ws,
        &workspace_dir,
        &[
            (&workspace_dir, "math", &target_v1),
            (&nested_dir, "math", &target_v3),
            (&project_a_dir, "math", &target_v2),
        ],
    )
    .unwrap();

    // The longest prefixes should bubble to the top
    assert_eq!(map.remappings[0].context_prefix, nested_dir);
    assert_eq!(map.remappings[1].context_prefix, project_a_dir);
    assert_eq!(map.remappings[2].context_prefix, workspace_dir);
}

/// Projects should not be able to "steal" or accidentally access dependencies
/// that do not belong to them.
#[test]
fn test_context_isolation() {
    let mut ws = TempWorkspace::new("isolation");

    let [project_a, target_utils] = dirs(&mut ws, ["project_a", "libs/utils_a"]);
    let [current_file] = files(&mut ws, ["project_b/main.simf"]);

    let map = build_map(&ws, &project_a, &[(&project_a, "utils", &target_utils)]).unwrap();

    let use_decl = create_dummy_use_decl(&["utils"]);
    let result = ws.resolve_path(&map, &current_file, &use_decl);

    assert!(result.is_err());
    assert!(matches!(
        result.unwrap_err().error(),
        Error::UnknownLibrary { .. }
    ));
}

/// It proves that a highly specific path definition will "override" or "shadow"
/// a broader path definition.
#[test]
fn test_resolve_longest_prefix_match() {
    let mut ws = TempWorkspace::new("resolve_prefix");

    let [global_context, global_target, frontend_context, frontend_target] = dirs(
        &mut ws,
        [
            "workspace",
            "libs/global_math",
            "workspace/frontend",
            "libs/frontend_math",
        ],
    );

    let [global_expected, frontend_expected, frontend_file, backend_file] = files(
        &mut ws,
        [
            "libs/global_math/vector.simf",
            "libs/frontend_math/vector.simf",
            "workspace/frontend/src/main.simf",
            "workspace/backend/src/main.simf",
        ],
    );

    let map = build_map(
        &ws,
        &global_context,
        &[
            (&global_context, "math", &global_target),
            (&frontend_context, "math", &frontend_target),
        ],
    )
    .unwrap();

    let use_decl = create_dummy_use_decl(&["math", "vector"]);

    assert_eq!(
        ws.resolve_path(&map, &frontend_file, &use_decl).unwrap(),
        frontend_expected
    );
    assert_eq!(
        ws.resolve_path(&map, &backend_file, &use_decl).unwrap(),
        global_expected
    );
}

/// It proves that a file inside the local project cannot be imported via an external dependency alias.
#[test]
fn test_local_file_imported_as_external() {
    let mut ws = TempWorkspace::new("local_as_ext");

    let [project_dir] = dirs(&mut ws, ["workspace"]);
    let [_utils_file, current_file] =
        files(&mut ws, ["workspace/utils.simf", "workspace/main.simf"]);

    let map = build_map(&ws, &project_dir, &[(&project_dir, "utils_lib", &project_dir)]).unwrap();

    let use_decl = create_dummy_use_decl(&["utils_lib", "utils"]);
    let result = ws.resolve_path(&map, &current_file, &use_decl);

    assert!(matches!(
        result.unwrap_err().error(),
        Error::LocalFileImportedAsExternal { .. }
    ));
}

/// It verifies that the "crate" dependency root path successfully resolves
/// to the local workspace root directory.
#[test]
fn test_crate_resolution() {
    let mut ws = TempWorkspace::new("crate_res");

    let [project_dir] = dirs(&mut ws, ["workspace"]);
    let [expected, current_file] =
        files(&mut ws, ["workspace/utils.simf", "workspace/main.simf"]);

    let map = build_map(&ws, &project_dir, &[]).unwrap();

    let use_decl = create_dummy_use_decl(&[CRATE_STR, "utils"]);
    let result = ws.resolve_path(&map, &current_file, &use_decl).unwrap();

    assert_eq!(result, expected);
}

/// It proves that the compiler throws an Internal error if a file attempting
/// to resolve `crate::` is mysteriously located completely outside any known
/// package root.
#[test]
fn test_crate_unconfigured_error() {
    let mut ws = TempWorkspace::new("crate_unconf");

    let [other_dir] = dirs(&mut ws, ["other_dir"]);
    let [current_file] = files(&mut ws, ["workspace/main.simf"]);

    let map = build_map(&ws, &other_dir, &[]).unwrap();

    let use_decl = create_dummy_use_decl(&[CRATE_STR, "utils"]);
    let result = ws.resolve_path(&map, &current_file, &use_decl);

    assert!(result.is_err());
    assert!(matches!(
        result.unwrap_err().error(),
        Error::Internal(msg) if msg.contains("The 'crate' root path was not configured")
    ));
}

/// It proves that files that are buried deep inside a project's subdirectories are handled.
#[test]
fn test_resolve_relative_current_file_against_canonical_context() {
    let mut ws = TempWorkspace::new("relative_current");

    let [context, target] = dirs(&mut ws, ["workspace/frontend", "libs/frontend_math"]);
    let [expected, current_file] = files(
        &mut ws,
        [
            "libs/frontend_math/vector.simf",
            "workspace/frontend/src/main.simf",
        ],
    );

    let map = build_map(&ws, &context, &[(&context, "math", &target)]).unwrap();

    let use_decl = create_dummy_use_decl(&["math", "vector"]);
    let result = ws.resolve_path(&map, &current_file, &use_decl).unwrap();

    assert_eq!(result, expected);
}

#[test]
fn test_builder_rejects_file_as_directory() {
    let mut ws = TempWorkspace::new("file_as_dir");

    let [valid_dir] = dirs(&mut ws, ["workspace/valid_dir"]);
    let [file_path] = files(&mut ws, ["workspace/not_a_dir.simf"]);

    let res1 = build_map(&ws, &file_path, &[]);
    assert!(matches!(
        res1.unwrap_err(),
        Error::DependencyNotADirectory { .. }
    ));

    let res2 = build_map(&ws, &valid_dir, &[(&file_path, "alias", &valid_dir)]);
    assert!(matches!(
        res2.unwrap_err(),
        Error::DependencyNotADirectory { .. }
    ));

    let res3 = build_map(&ws, &valid_dir, &[(&valid_dir, "alias", &file_path)]);
    assert!(matches!(
        res3.unwrap_err(),
        Error::DependencyNotADirectory { .. }
    ));
}

#[test]
fn test_builder_rejects_non_existent_paths() {
    let mut ws = TempWorkspace::new("non_existent");

    let [valid_dir] = dirs(&mut ws, ["workspace/valid_dir"]);
    let fake_path = canon_path(&split("/does/not/exist/in/this/universe"));

    let res = build_map(&ws, &valid_dir, &[(&valid_dir, "alias", &fake_path)]);
    assert!(matches!(
        res.unwrap_err(),
        Error::DependencyPathNotFound { .. }
    ));
}

#[test]
fn test_builder_rejects_invalid_identifiers() {
    let mut ws = TempWorkspace::new("invalid_idents");
    let [valid_dir] = dirs(&mut ws, ["workspace/valid_dir"]);

    let bad_aliases = vec!["", "123lib", "my-lib", "lib!", " space "];

    for bad_alias in bad_aliases {
        let res = build_map(&ws, &valid_dir, &[(&valid_dir, bad_alias, &valid_dir)]);
        assert!(
            matches!(res.unwrap_err(), Error::InvalidDependencyIdentifier { .. }),
            "Builder should reject alias: '{}'",
            bad_alias
        );
    }
}

#[test]
fn test_builder_rejects_reserved_keywords() {
    let mut ws = TempWorkspace::new("reserved_keywords");
    let [valid_dir] = dirs(&mut ws, ["workspace/valid_dir"]);

    for kw in keywords() {
        let res = build_map(&ws, &valid_dir, &[(&valid_dir, kw.as_str(), &valid_dir)]);
        let err = res.unwrap_err();

        if kw == CRATE_STR {
            assert!(matches!(err, Error::ReservedDependencyKeyword { .. }));
        } else {
            assert!(matches!(err, Error::InvalidDependencyIdentifier { .. }));
        }
    }
}

#[test]
fn test_builder_rejects_duplicates() {
    let mut ws = TempWorkspace::new("duplicates");

    let [valid_dir, target1, target2] = dirs(
        &mut ws,
        [
            "workspace/valid_dir",
            "workspace/target1",
            "workspace/target2",
        ],
    );

    let res = build_map(
        &ws,
        &valid_dir,
        &[
            (&valid_dir, "alias", &target1),
            (&valid_dir, "alias", &target2),
        ],
    );

    assert!(matches!(
        res.unwrap_err(),
        Error::DuplicateDependencyAlias { .. }
    ));
}

#[test]
fn test_resolve_rejects_escaping_package_root() {
    let mut ws = TempWorkspace::new("escaping_root");

    let [context, target] = dirs(&mut ws, ["workspace", "libs/target"]);
    let [current_file, _outside_file] =
        files(&mut ws, ["workspace/main.simf", "libs/escaped.simf"]);

    let map = build_map(&ws, &context, &[(&context, "alias", &target)]).unwrap();

    let use_decl = create_dummy_use_decl(&["alias", "..", "escaped"]);
    let result = ws.resolve_path(&map, &current_file, &use_decl);

    assert!(result.is_err());
    assert!(result.unwrap_err().to_string().contains("not found"));
}

/// A dependency package should not be able to expose a symlinked source file
/// whose canonical path escapes the dependency root.
#[test]
fn test_dependency_symlink_escape_rejected() {
    let mut ws = TempWorkspace::new("dependency_symlink_escape");

    let [workspace_dir, dependency_dir] = dirs(&mut ws, ["workspace", "deps/package"]);
    let [escaped_file] = files(&mut ws, ["outside/foo.simf"]);
    ws.create_link("deps/package/foo.simf", &escaped_file);
    let [current_file] = files(&mut ws, ["workspace/main.simf"]);

    let map = build_map(&ws, &workspace_dir, &[(&workspace_dir, "dep", &dependency_dir)]).unwrap();

    let use_decl = create_dummy_use_decl(&["dep", "foo"]);
    ws.resolve_path(&map, &current_file, &use_decl)
        .expect_err("dependency symlink escape was accepted");
}

/// It proves that the builder correctly deduplicates `package_roots`
/// even if multiple roots have the exact same string length.
#[test]
fn test_package_roots_deduplication() {
    let mut ws = TempWorkspace::new("dedup_roots");

    let [workspace_dir, lib_a, lib_b] = dirs(
        &mut ws,
        ["workspace", "workspace/libs/A", "workspace/libs/B"],
    );

    let map = build_map(
        &ws,
        &workspace_dir,
        &[
            (&workspace_dir, "lib_a", &lib_a),
            (&workspace_dir, "lib_b", &lib_b),
            (&lib_b, "lib_a", &lib_a),
        ],
    )
    .unwrap();

    // The package roots should only contain workspace_dir, lib_a, and lib_b (exactly 3 unique roots).
    assert_eq!(
        map.package_roots.len(),
        3,
        "Package roots were not correctly deduplicated"
    );
}

/// It proves that if a dependency is nested physically inside the entry root,
/// files inside the dependency correctly resolve `crate::` to their own sandbox boundary,
/// and NOT the parent workspace boundary.
#[test]
fn test_crate_resolves_to_closest_package_root() {
    let mut ws = TempWorkspace::new("closest_root");

    let [workspace_dir, lib_dir] = dirs(&mut ws, ["workspace", "workspace/libs/math"]);
    let [lib_file] = files(&mut ws, ["workspace/libs/math/vector.simf"]);

    let map = build_map(&ws, &workspace_dir, &[(&workspace_dir, "math", &lib_dir)]).unwrap();

    let lib_crate = map.get_package_root(&lib_file).unwrap();
    assert_eq!(
        lib_crate, &lib_dir,
        "Nested dependency did not securely shadow the parent workspace root"
    );
}

#[test]
fn path_is_split_at_the_file() {
    let mut ws = TempWorkspace::new("split");
    let [root, target] = dirs(&mut ws, ["workspace", "libs/base"]);
    let [file, current] = files(&mut ws, ["libs/base/dir/tools.simf", "workspace/main.simf"]);
    let map = build_map(&ws, &root, &[(&root, "base", &target)]).unwrap();

    let use_decl = create_dummy_use_decl(&["base", "dir", "tools", "inner", "leaf"]);
    let resolved = ws.resolve(&map, &current, &use_decl).unwrap();
    assert_eq!(resolved.path, file);
    let rest: Vec<&str> = resolved.mod_path.iter().map(|n| n.as_inner()).collect();
    assert_eq!(rest, vec!["inner", "leaf"]);
}

#[test]
fn directories_come_before_files() {
    let mut ws = TempWorkspace::new("dirs_first");
    let [root] = dirs(&mut ws, ["workspace"]);
    let [_, inner, current] = files(
        &mut ws,
        ["workspace/utils.simf", "workspace/utils/math.simf", "workspace/main.simf"],
    );
    let map = build_map(&ws, &root, &[]).unwrap();
    let found = ws
        .resolve_path(&map, &current, &create_dummy_use_decl(&["crate", "utils", "math"]))
        .unwrap();
    assert_eq!(found, inner);
}

#[test]
fn missing_file_falls_back_to_importer_in_package_root() {
    let mut ws = TempWorkspace::new("fallback");
    let [root] = dirs(&mut ws, ["workspace"]);
    let [main, nested] = files(&mut ws, ["workspace/main.simf", "workspace/sub/other.simf"]);
    let map = build_map(&ws, &root, &[]).unwrap();
    let use_decl = create_dummy_use_decl(&["crate", "inline", "leaf"]);

    let resolved = ws.resolve(&map, &main, &use_decl).unwrap();
    assert_eq!(resolved.path, main);
    assert_eq!(resolved.mod_path.len(), 2);

    let error = ws.resolve(&map, &nested, &use_decl).unwrap_err();
    assert_eq!(*error.span(), use_decl.span);
    assert!(matches!(
        error.error(),
        Error::FileNotFound(path) if path.to_text() == "/tmp/fallback/workspace/inline.simf"
    ));
}

#[test]
fn missing_external_file_names_the_library() {
    let mut ws = TempWorkspace::new("missing_external");
    let [root, target] = dirs(&mut ws, ["workspace", "libs/base"]);
    let [current] = files(&mut ws, ["workspace/main.simf"]);
    let map = build_map(&ws, &root, &[(&root, "base", &target)]).unwrap();
    let error = ws
        .resolve_path(&map, &current, &create_dummy_use_decl(&["base", "ghost"]))
        .unwrap_err();
    assert!(matches!(
        error.error(),
        Error::ExternalFileNotFound(lib, path)
            if lib == "base" && path.to_text() == "/tmp/missing_external/libs/base/ghost.simf"
    ));
}

#[test]
fn empty_path_is_rejected() {
    let mut ws = TempWorkspace::new("empty_path");
    let [root] = dirs(&mut ws, ["workspace"]);
    let [current] = files(&mut ws, ["workspace/main.simf"]);
    let map = build_map(&ws, &root, &[]).unwrap();
    let use_decl = create_dummy_use_decl(&[]);
    assert!(map.probes(&current, &use_decl).is_empty());
    let error = ws.resolve_path(&map, &current, &use_decl).unwrap_err();
    assert!(matches!(error.error(), Error::CannotParse(_)));
}

#[test]
fn dependencies_are_validated_once_for_many_roots() {
    let mut ws = TempWorkspace::new("many_roots");
    let [a, b, lib] = dirs(&mut ws, ["a", "b", "lib"]);
    let mut builder = DependencyMapBuilder::new();
    builder
        .add_dependency(a.clone(), "lib".to_string(), lib.clone())
        .add_dependency(b.clone(), "lib".to_string(), lib.clone());
    let disk = ws.look_at(vec![a.path.clone(), b.path.clone(), lib.path.clone()]);
    let validated = builder.validate_deps(&disk).unwrap();
    for root in [&a, &b] {
        let map = validated.with_root(root.clone(), &disk).unwrap();
        assert_eq!(map.remappings.len(), 2);
        assert_eq!(map.package_roots.len(), 2);
        assert!(map.package_roots.contains(root));
        assert!(map.package_roots.contains(&lib));
    }
    let missing = canon_path(&split("/nowhere"));
    assert!(matches!(
        validated.with_root(missing, &disk).unwrap_err(),
        Error::DependencyPathNotFound(_)
    ));
}

#[test]
fn first_invalid_dependency_is_reported() {
    let mut ws = TempWorkspace::new("first_invalid");
    let [dir] = dirs(&mut ws, ["dir"]);
    let missing = canon_path(&split("/nowhere"));
    let result = build_map(&ws, &dir, &[(&dir, "1", &dir), (&missing, "ok", &dir)]);
    assert!(matches!(
        result.unwrap_err(),
        Error::InvalidDependencyIdentifier(name) if name == "1"
    ));
    let result = build_map(&ws, &dir, &[(&dir, "a", &dir), (&dir, "a", &dir)]);
    assert!(matches!(
        result.unwrap_err(),
        Error::DuplicateDependencyAlias(alias, context)
            if alias == "a" && context == "/tmp/first_invalid/dir"
    ));
}
