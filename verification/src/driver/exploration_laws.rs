//! Which files the graph of a project holds, and on which files they depend.
use super::link_laws::{is_plain, lemma_key, reports_errors};
use super::linearize::dependencies_view;
use super::project::{
    content_of, explored, full_path, id_of, import_followed, import_of, imports, imports_followed,
    is_graph_of, key_of, Exploration, FileContent, Files, Libraries, ModuleView, ProjectGraph,
};
use super::project_laws::{lemma_complete, lemma_id_of, lemma_stage};
use crate::error::{rich, with_file, Error, RichErrorView, Span};
use crate::list::{shared, List};
use crate::name::names;
use crate::parse;
use crate::path::with_extension;
use crate::source::{SourceFileView, SourceNameView};
use vstd::prelude::*;

verus! {

/// Whether a file is known under a number.
pub open spec fn is_numbered(paths: Seq<SourceNameView>, id: usize, name: SourceNameView) -> bool {
    id < paths.len() && paths[id as int] == name
}

/// Whether a file is one of the dependencies.
pub open spec fn is_found(
    paths: Seq<SourceNameView>,
    found: Seq<usize>,
    import: (Seq<Seq<char>>, Span),
) -> bool {
    exists|id: usize| #[trigger] found.contains(id) && is_numbered(paths, id, key_of(import.0))
}

/// Whether a dependency is one of the imports.
pub open spec fn is_listed(
    paths: Seq<SourceNameView>,
    id: usize,
    list: Seq<(Seq<Seq<char>>, Span)>,
) -> bool {
    exists|k: int| 0 <= k < list.len() && is_numbered(paths, id, key_of((#[trigger] list[k]).0))
}

/// Whether each import is one of the dependencies, and each dependency is one of the imports.
pub open spec fn are_dependencies(
    paths: Seq<SourceNameView>,
    found: Seq<usize>,
    list: Seq<(Seq<Seq<char>>, Span)>,
) -> bool {
    &&& forall|k: int| 0 <= k < list.len() ==> #[trigger] is_found(paths, found, list[k])
    &&& forall|id: usize| found.contains(id) ==> #[trigger] is_listed(paths, id, list)
}

/// Whether a file of the graph, apart from the main file, is what was read under its name.
pub open spec fn is_as_read(e: Exploration, files: Files, j: int) -> bool {
    exists|file: Seq<Seq<char>>|
        key_of(file) == e.paths[j] && (#[trigger] content_of(files, file) matches FileContent::Parsed(
            text,
            program,
        ) && e.modules[j].parsed_program == program && e.modules[j].source.content == text)
}

/// Whether an exploration goes on from another one: no file changes its number, and no error is
/// forgotten.
pub open spec fn goes_on(a: Exploration, b: Exploration) -> bool {
    &&& a.paths.is_prefix_of(b.paths)
    &&& a.modules.is_prefix_of(b.modules)
    &&& a.errors.len() <= b.errors.len()
}

/// An exploration that goes on from one that goes on.
proof fn lemma_goes_on(a: Exploration, b: Exploration, c: Exploration)
    requires
        goes_on(a, b),
        goes_on(b, c),
    ensures
        goes_on(a, c),
{
    assert(a.paths =~= c.paths.take(a.paths.len() as int));
    assert(a.modules =~= c.modules.take(a.modules.len() as int));
}

/// Files keep their numbers.
proof fn lemma_still_dependencies(
    before: Seq<SourceNameView>,
    after: Seq<SourceNameView>,
    found: Seq<usize>,
    list: Seq<(Seq<Seq<char>>, Span)>,
)
    requires
        before.is_prefix_of(after),
        are_dependencies(before, found, list),
    ensures
        are_dependencies(after, found, list),
{
    assert(before =~= after.take(before.len() as int));
    assert forall|k: int| 0 <= k < list.len() implies #[trigger] is_found(
        after,
        found,
        list[k],
    ) by {
        assert(is_found(before, found, list[k]));
        let id = choose|id: usize| #[trigger]
            found.contains(id) && is_numbered(before, id, key_of(list[k].0));
        assert(found.contains(id) && is_numbered(after, id, key_of(list[k].0)));
    }
    assert forall|id: usize| found.contains(id) implies #[trigger] is_listed(after, id, list) by {
        assert(is_listed(before, id, list));
        let k = choose|k: int|
            0 <= k < list.len() && is_numbered(before, id, key_of((#[trigger] list[k]).0));
        assert(is_numbered(after, id, key_of(list[k].0)));
    }
}

/// An import that is followed without an error is one of the dependencies.
proof fn lemma_import(
    e: Exploration,
    found: Seq<usize>,
    importer: SourceFileView,
    import: (Seq<Seq<char>>, Span),
    files: Files,
)
    requires
        reports_errors(files),
        e.paths.len() == e.modules.len(),
        import_followed(e, found, importer, import, files).0.paths.len() <= usize::MAX,
    ensures
        ({
            let (after, now) = import_followed(e, found, importer, import, files);
            &&& goes_on(e, after)
            &&& after.paths.len() == after.modules.len()
            &&& after.dependencies == e.dependencies
            &&& found.is_prefix_of(now)
            &&& after.errors.len() == e.errors.len() ==> is_found(after.paths, now, import)
            &&& forall|id: usize| #[trigger]
                now.contains(id) ==> found.contains(id) || is_numbered(
                    after.paths,
                    id,
                    key_of(import.0),
                )
            &&& forall|j: int|
                e.modules.len() <= j < after.modules.len() ==> #[trigger] is_as_read(
                    after,
                    files,
                    j,
                )
        }),
{
    let key = key_of(import.0);
    let (after, now) = import_followed(e, found, importer, import, files);
    assert(e.paths =~= after.paths.take(e.paths.len() as int));
    assert(e.modules =~= after.modules.take(e.modules.len() as int));
    assert(found =~= now.take(found.len() as int));
    lemma_id_of(e.paths, key);
    assert forall|id: usize| #[trigger] now.contains(id) implies found.contains(id) || is_numbered(
        after.paths,
        id,
        key,
    ) by {
        let i = choose|i: int| 0 <= i < now.len() && now[i] == id;
        if i < found.len() {
            assert(found[i] == id);
        }
    }
    if after.errors.len() == e.errors.len() {
        match id_of(e.paths, key) {
            Some(id) => {
                if !found.contains(id) {
                    assert(now[found.len() as int] == id);
                }
                assert(now.contains(id) && is_numbered(after.paths, id, key));
            },
            None => match content_of(files, import.0) {
                FileContent::Parsed(text, program) => {
                    let id = e.modules.len() as usize;
                    assert(now[found.len() as int] == id);
                    assert(now.contains(id) && is_numbered(after.paths, id, key));
                },
                FileContent::Invalid(errors) => {
                    assert(errors.len() > 0);
                },
                FileContent::NotFound => {},
            },
        }
    }
    assert forall|j: int| e.modules.len() <= j < after.modules.len() implies #[trigger] is_as_read(
        after,
        files,
        j,
    ) by {
        assert(content_of(files, import.0) is Parsed);
        assert(after.paths[j] == key_of(import.0));
    }
}

/// What was read stays so.
proof fn lemma_still_read(a: Exploration, b: Exploration, files: Files, j: int)
    requires
        goes_on(a, b),
        0 <= j < a.modules.len(),
        j < a.paths.len(),
        is_as_read(a, files, j),
    ensures
        is_as_read(b, files, j),
{
    assert(a.paths =~= b.paths.take(a.paths.len() as int));
    assert(a.modules =~= b.modules.take(a.modules.len() as int));
    assert(a.paths[j] == b.paths[j]);
    assert(a.modules[j] == b.modules[j]);
}

/// Imports that are followed without errors are the dependencies of the importing file.
proof fn lemma_imports(
    e: Exploration,
    importer: SourceFileView,
    list: Seq<(Seq<Seq<char>>, Span)>,
    files: Files,
)
    requires
        reports_errors(files),
        e.paths.len() == e.modules.len(),
        imports_followed(e, importer, list, files).0.paths.len() <= usize::MAX,
    ensures
        ({
            let (after, found) = imports_followed(e, importer, list, files);
            &&& goes_on(e, after)
            &&& after.paths.len() == after.modules.len()
            &&& after.dependencies == e.dependencies
            &&& after.errors.len() == e.errors.len() ==> are_dependencies(after.paths, found, list)
            &&& forall|j: int|
                e.modules.len() <= j < after.modules.len() ==> #[trigger] is_as_read(
                    after,
                    files,
                    j,
                )
        }),
    decreases list.len(),
{
    if list.len() == 0 {
        assert(e.paths =~= e.paths.take(e.paths.len() as int));
        assert(e.modules =~= e.modules.take(e.modules.len() as int));
    } else {
        let shorter = list.drop_last();
        let (before, found) = imports_followed(e, importer, shorter, files);
        let (after, now) = import_followed(before, found, importer, list.last(), files);
        assert(before.paths.len() <= after.paths.len());
        lemma_imports(e, importer, shorter, files);
        lemma_import(before, found, importer, list.last(), files);
        lemma_goes_on(e, before, after);
        assert(list[list.len() - 1] == list.last());
        assert forall|j: int| e.modules.len() <= j < after.modules.len() implies #[trigger]
            is_as_read(after, files, j) by {
            if j < before.modules.len() {
                assert(is_as_read(before, files, j));
                lemma_still_read(before, after, files, j);
            }
        }
        if after.errors.len() == e.errors.len() {
            lemma_still_dependencies(before.paths, after.paths, found, shorter);
            assert(found =~= now.take(found.len() as int));
            assert forall|k: int| 0 <= k < list.len() implies #[trigger] is_found(
                after.paths,
                now,
                list[k],
            ) by {
                if k < shorter.len() {
                    assert(shorter[k] == list[k]);
                    assert(is_found(after.paths, found, shorter[k]));
                    let id = choose|id: usize| #[trigger]
                        found.contains(id) && is_numbered(after.paths, id, key_of(list[k].0));
                    let i = choose|i: int| 0 <= i < found.len() && found[i] == id;
                    assert(now[i] == id);
                    assert(now.contains(id));
                }
            }
            assert forall|id: usize| now.contains(id) implies #[trigger] is_listed(
                after.paths,
                id,
                list,
            ) by {
                if found.contains(id) {
                    assert(is_listed(after.paths, id, shorter));
                    let k = choose|k: int|
                        0 <= k < shorter.len() && is_numbered(
                            after.paths,
                            id,
                            key_of((#[trigger] shorter[k]).0),
                        );
                    assert(shorter[k] == list[k]);
                } else {
                    assert(is_numbered(after.paths, id, key_of(list[list.len() - 1].0)));
                }
            }
        }
    }
}

/// The import of a file that is not known yet and does not exist is reported at the place of the
/// import, and nothing else changes. A file that exists and is a program becomes the next file.
pub proof fn new_files_are_read_or_missing(
    e: Exploration,
    found: Seq<usize>,
    importer: SourceFileView,
    import: (Seq<Seq<char>>, Span),
    files: Files,
)
    requires
        e.paths.len() <= usize::MAX,
        !e.paths.contains(key_of(import.0)),
    ensures
        ({
            let (after, now) = import_followed(e, found, importer, import, files);
            match content_of(files, import.0) {
                FileContent::NotFound => {
                    &&& after.errors == e.errors.push(
                        with_file(rich(Error::FileNotFound(import.0), import.1), importer),
                    )
                    &&& after.modules == e.modules && after.paths == e.paths && now == found
                },
                FileContent::Invalid(errors) => {
                    &&& after.errors == e.errors + errors
                    &&& after.modules == e.modules && after.paths == e.paths && now == found
                },
                FileContent::Parsed(text, program) => {
                    &&& after.errors == e.errors
                    &&& after.paths == e.paths.push(key_of(import.0))
                    &&& after.modules.len() == e.modules.len() + 1
                    &&& after.modules.last().parsed_program == program
                    &&& after.modules.last().source.content == text
                    &&& after.modules.drop_last() == e.modules
                    &&& now == found.push(e.modules.len() as usize)
                },
            }
        }),
{
    lemma_id_of(e.paths, key_of(import.0));
    let after = import_followed(e, found, importer, import, files).0;
    if let Some(id) = id_of(e.paths, key_of(import.0)) {
        assert(e.paths[id as int] == key_of(import.0));
    } else if content_of(files, import.0) is Parsed {
        assert(after.modules.drop_last() =~= e.modules);
    }
}

/// Whether the dependencies of a file are its imports.
pub open spec fn follows_imports(e: Exploration, libraries: Libraries, i: int) -> bool {
    are_dependencies(
        e.paths,
        e.dependencies[i],
        imports(*e.modules[i].parsed_program.items, libraries),
    )
}

/// The dependencies of explored files are their imports, and the files are what was read.
proof fn lemma_explored(root: ModuleView, libraries: Libraries, files: Files, n: nat)
    requires
        reports_errors(files),
        explored(root, libraries, files, n).paths.len() <= usize::MAX,
    ensures
        ({
            let e = explored(root, libraries, files, n);
            &&& e.paths.len() == e.modules.len()
            &&& e.dependencies.len() <= e.modules.len()
            &&& e.errors.len() == 0 ==> forall|i: int|
                0 <= i < e.dependencies.len() ==> #[trigger] follows_imports(e, libraries, i)
            &&& forall|j: int| 1 <= j < e.modules.len() ==> #[trigger] is_as_read(e, files, j)
            &&& e.modules.len() > 0
            &&& e.modules[0] == root
        }),
    decreases n,
{
    if n > 0 {
        let before = explored(root, libraries, files, (n - 1) as nat);
        let e = explored(root, libraries, files, n);
        lemma_stage(root, libraries, files, (n - 1) as nat);
        if n <= before.modules.len() {
            let module = before.modules[n - 1];
            let list = imports(shared(module.parsed_program.items), libraries);
            let (after, found) = imports_followed(before, module.source, list, files);
            lemma_grows(before, module.source, list, files);
            lemma_explored(root, libraries, files, (n - 1) as nat);
            lemma_imports(before, module.source, list, files);
            assert(before.modules =~= e.modules.take(before.modules.len() as int));
            assert(e.modules[0] == before.modules[0]);
            assert forall|j: int| 1 <= j < e.modules.len() implies #[trigger] is_as_read(
                e,
                files,
                j,
            ) by {
                if j < before.modules.len() {
                    assert(is_as_read(before, files, j));
                    lemma_still_read(before, e, files, j);
                } else {
                    assert(is_as_read(after, files, j));
                }
            }
            if e.errors.len() == 0 {
                assert forall|i: int| 0 <= i < e.dependencies.len() implies #[trigger]
                    follows_imports(e, libraries, i) by {
                    assert(e.modules[i] == before.modules[i]);
                    if i < before.dependencies.len() {
                        assert(follows_imports(before, libraries, i));
                        lemma_still_dependencies(
                            before.paths,
                            e.paths,
                            before.dependencies[i],
                            imports(shared(before.modules[i].parsed_program.items), libraries),
                        );
                        assert(e.dependencies[i] == before.dependencies[i]);
                    } else {
                        assert(i == n - 1);
                        assert(e.dependencies[i] == found);
                    }
                }
            }
        } else {
            lemma_explored(root, libraries, files, (n - 1) as nat);
        }
    }
}

/// There are ever more files.
proof fn lemma_grows(
    e: Exploration,
    importer: SourceFileView,
    list: Seq<(Seq<Seq<char>>, Span)>,
    files: Files,
)
    ensures
        e.paths.len() <= imports_followed(e, importer, list, files).0.paths.len(),
    decreases list.len(),
{
    if list.len() > 0 {
        lemma_grows(e, importer, list.drop_last(), files);
    }
}

/// An import of a known library is among the imports of the items.
proof fn lemma_is_imported(
    items: List<parse::Item>,
    libraries: Libraries,
    q: int,
    decl: parse::UseDecl,
) -> (k: int)
    requires
        0 <= q < items@.len(),
        items@[q] == parse::Item::Use(decl),
        full_path(libraries, decl) is Ok,
    ensures
        0 <= k < imports(items, libraries).len(),
        imports(items, libraries)[k].0 == with_extension(
            full_path(libraries, decl)->Ok_0,
            "simf"@,
        ),
    decreases items,
{
    match items {
        List::Cons(head, tail) => {
            let first = import_of(head, libraries);
            if q == 0 {
                assert(items@[0] == head);
                assert(imports(items, libraries)[0] == first[0]);
                0
            } else {
                assert(items@[q] == tail@[q - 1]);
                let k = lemma_is_imported(*tail, libraries, q - 1, decl);
                assert(imports(items, libraries)[first.len() + k] == imports(*tail, libraries)[k]);
                first.len() + k
            }
        },
        List::Nil => 0,
    }
}

/// Each of the imports of items is that of an item.
proof fn lemma_imported_by(items: List<parse::Item>, libraries: Libraries, k: int) -> (q: int)
    requires
        0 <= k < imports(items, libraries).len(),
    ensures
        0 <= q < items@.len(),
        items@[q] matches parse::Item::Use(decl) && full_path(libraries, decl) is Ok && imports(
            items,
            libraries,
        )[k].0 == with_extension(full_path(libraries, decl)->Ok_0, "simf"@),
    decreases items,
{
    match items {
        List::Cons(head, tail) => {
            let first = import_of(head, libraries);
            if k < first.len() {
                assert(items@[0] == head);
                assert(imports(items, libraries)[k] == first[k]);
                0
            } else {
                let q = lemma_imported_by(*tail, libraries, k - first.len());
                assert(items@[q + 1] == tail@[q]);
                assert(imports(items, libraries)[k] == imports(*tail, libraries)[k - first.len()]);
                q + 1
            }
        },
        List::Nil => 0,
    }
}

/// In the graph of a project that was built without errors, a file depends on each file that one of
/// its items imports from a known library: the file whose path is that of the library followed by
/// the other names of the import.
pub proof fn imports_become_dependencies(
    graph: ProjectGraph,
    root: ModuleView,
    libraries: Libraries,
    files: Files,
    errors_before: Seq<RichErrorView>,
    errors_after: Seq<RichErrorView>,
    n: nat,
    i: usize,
    q: int,
    decl: parse::UseDecl,
)
    requires
        reports_errors(files),
        is_graph_of(Some(graph), root, libraries, files, errors_before, errors_after, n),
        i < graph.modules.len(),
        0 <= q < graph.modules@[i as int].parsed_program.items@.len(),
        graph.modules@[i as int].parsed_program.items@[q] == parse::Item::Use(decl),
        names(decl.path@).len() > 0,
        libraries.contains_key(names(decl.path@)[0]),
        ({
            let path = libraries[names(decl.path@)[0]] + names(decl.path@).drop_first();
            path.len() > 0 && is_plain(path.last())
        }),
    ensures
        ({
            let path = libraries[names(decl.path@)[0]] + names(decl.path@).drop_first();
            let table = dependencies_view(graph.dependencies@);
            table.contains_key(i) && exists|id: usize| #[trigger]
                table[i].contains(id) && id < graph.paths@.len() && graph.paths@[id as int]@
                    == SourceNameView::Real(path)
        }),
{
    let e = explored(root, libraries, files, n);
    assert(e.modules.len() == graph.modules@.len());
    assert(graph.modules@.len() == graph.modules.len());
    assert(e.paths.len() == graph.paths@.len());
    assert(graph.paths@.len() == graph.paths.len());
    lemma_explored(root, libraries, files, n);
    lemma_complete(root, libraries, files, n);
    assert(follows_imports(e, libraries, i as int));
    assert(e.modules[i as int] == graph.modules@[i as int]@);
    let items = shared(e.modules[i as int].parsed_program.items);
    let k = lemma_is_imported(items, libraries, q, decl);
    let list = imports(items, libraries);
    let path = full_path(libraries, decl)->Ok_0;
    lemma_key(path);
    let found = e.dependencies[i as int];
    assert(is_found(e.paths, found, list[k]));
    let id = choose|id: usize| #[trigger]
        found.contains(id) && is_numbered(e.paths, id, key_of(list[k].0));
    let table = dependencies_view(graph.dependencies@);
    assert(found.len() > 0);
    assert(table.contains_key(i));
    assert(table[i] == found);
    assert(graph.paths@[id as int]@ == e.paths[id as int]);
    assert(table[i].contains(id));
}

/// In the graph of a project that was built without errors, a file depends only on files that one
/// of its items imports, and each file but the main file has the content that was read under its
/// name.
pub proof fn dependencies_are_imported(
    graph: ProjectGraph,
    root: ModuleView,
    libraries: Libraries,
    files: Files,
    errors_before: Seq<RichErrorView>,
    errors_after: Seq<RichErrorView>,
    n: nat,
    i: usize,
    id: usize,
)
    requires
        reports_errors(files),
        is_graph_of(Some(graph), root, libraries, files, errors_before, errors_after, n),
        dependencies_view(graph.dependencies@).contains_key(i),
        dependencies_view(graph.dependencies@)[i].contains(id),
    ensures
        i < graph.modules.len(),
        id < graph.modules.len(),
        exists|q: int|
            0 <= q < graph.modules@[i as int].parsed_program.items@.len() && (
            #[trigger] graph.modules@[i as int].parsed_program.items@[q] matches parse::Item::Use(
                decl,
            ) && names(decl.path@).len() > 0 && libraries.contains_key(names(decl.path@)[0])
                && graph.paths@[id as int]@ == key_of(
                with_extension(
                    libraries[names(decl.path@)[0]] + names(decl.path@).drop_first(),
                    "simf"@,
                ),
            )),
        id > 0 ==> exists|file: Seq<Seq<char>>|
            key_of(file) == graph.paths@[id as int]@ && (
            #[trigger] content_of(files, file) matches FileContent::Parsed(text, program)
                && graph.modules@[id as int].parsed_program == program
                && graph.modules@[id as int].source@.content == text),
{
    let e = explored(root, libraries, files, n);
    assert(e.modules.len() == graph.modules@.len());
    assert(graph.modules@.len() == graph.modules.len());
    assert(e.paths.len() == graph.paths@.len());
    assert(graph.paths@.len() == graph.paths.len());
    lemma_explored(root, libraries, files, n);
    lemma_complete(root, libraries, files, n);
    assert(follows_imports(e, libraries, i as int));
    let found = e.dependencies[i as int];
    assert(dependencies_view(graph.dependencies@)[i] == found);
    let items = shared(e.modules[i as int].parsed_program.items);
    let list = imports(items, libraries);
    assert(found.contains(id));
    assert(is_listed(e.paths, id, list));
    let k = choose|k: int|
        0 <= k < list.len() && is_numbered(e.paths, id, key_of((#[trigger] list[k]).0));
    let q = lemma_imported_by(items, libraries, k);
    assert(e.modules[i as int] == graph.modules@[i as int]@);
    assert(graph.paths@[id as int]@ == e.paths[id as int]);
    assert(graph.modules@[i as int].parsed_program.items@[q] == items@[q]);
    if id > 0 {
        assert(is_as_read(e, files, id as int));
        let file = choose|file: Seq<Seq<char>>|
            key_of(file) == e.paths[id as int] && (
            #[trigger] content_of(files, file) matches FileContent::Parsed(text, program)
                && e.modules[id as int].parsed_program == program
                && e.modules[id as int].source.content == text);
        assert(e.modules[id as int] == graph.modules@[id as int]@);
        assert(content_of(files, file) is Parsed);
    }
}

} // verus!
