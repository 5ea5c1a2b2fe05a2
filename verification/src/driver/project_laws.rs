//! Laws of the graph of a project.
use crate::driver::linearize::{dependencies_view, parents, Dependencies};
use crate::driver::linearize_laws::{depends_on, is_path, reaches};
use crate::driver::project::{
    content_of, dependency_table, explored, has_import, id_of, import_followed, imports,
    imports_followed, is_complete, is_graph_of, is_imported, module_views, name_views, was_read,
    Exploration, FileContent, FileContentView, Files, Libraries, ModuleView, ProjectGraph,
};
use crate::error::{RichErrorView, Span};
use crate::list::shared;
use crate::source::{without_extension, SourceFileView, SourceNameView};
use vstd::prelude::*;

verus! {

/// A file that has a number is the file of that number.
pub proof fn lemma_id_of(paths: Seq<SourceNameView>, name: SourceNameView)
    requires
        paths.len() <= usize::MAX,
    ensures
        id_of(paths, name) matches Some(id) ==> id < paths.len() && paths[id as int] == name,
        id_of(paths, name) is None ==> !paths.contains(name),
    decreases paths.len(),
{
    if paths.len() > 0 {
        lemma_id_of(paths.drop_last(), name);
        if paths.contains(name) && paths.last() != name {
            let i = choose|i: int| 0 <= i < paths.len() && paths[i] == name;
            assert(paths.drop_last()[i] == name);
        }
    }
}

/// Whether the numbers are those of files, each of them once.
pub open spec fn are_files(list: Seq<usize>, n: nat) -> bool {
    list.no_duplicates() && forall|i: int| 0 <= i < list.len() ==> #[trigger] list[i] < n
}

/// Whether a file is a dependency of a file with a smaller number.
pub open spec fn is_imported_earlier(dependencies: Seq<Seq<usize>>, j: int) -> bool {
    exists|i: int|
        0 <= i < dependencies.len() && i < j && (#[trigger] dependencies[i]).contains(j as usize)
}

/// Whether every file of a graph is there once, dependencies are files of the graph, and every
/// file but the main file is a dependency of a file that was found earlier.
///
/// `found` holds dependencies of the file that is explored next.
pub open spec fn is_sound(e: Exploration, found: Seq<usize>) -> bool {
    &&& e.paths.len() == e.modules.len()
    &&& e.paths.no_duplicates()
    &&& forall|i: int|
        1 <= i < e.modules.len() ==> #[trigger] e.modules[i].source.name == e.paths[i]
    &&& e.dependencies.len() <= e.modules.len()
    &&& forall|i: int|
        0 <= i < e.dependencies.len() ==> are_files(
            #[trigger] e.dependencies[i],
            e.modules.len(),
        )
    &&& are_files(found, e.modules.len())
    &&& forall|j: int|
        1 <= j < e.modules.len() ==> found.contains(j as usize) && e.dependencies.len() < j
            || #[trigger] is_imported_earlier(e.dependencies, j)
}

/// Numbers of files stay numbers of files when further files are found.
proof fn lemma_more_files(list: Seq<usize>, n: nat, m: nat)
    requires
        are_files(list, n),
        n <= m,
    ensures
        are_files(list, m),
{
}

/// Following an import keeps a graph sound.
proof fn lemma_import(
    e: Exploration,
    found: Seq<usize>,
    importer: SourceFileView,
    import: (Seq<Seq<char>>, Span),
    files: Files,
)
    requires
        is_sound(e, found),
        e.dependencies.len() < e.modules.len(),
        import_followed(e, found, importer, import, files).0.modules.len() <= usize::MAX,
    ensures
        ({
            let (after, now_found) = import_followed(e, found, importer, import, files);
            &&& is_sound(after, now_found)
            &&& after.dependencies == e.dependencies
            &&& e.modules.is_prefix_of(after.modules)
            &&& e.paths[0] == after.paths[0]
        }),
{
    let key = crate::driver::project::key_of(import.0);
    let (after, now_found) = import_followed(e, found, importer, import, files);
    lemma_id_of(e.paths, key);
    assert(e.modules =~= after.modules.take(e.modules.len() as int));
    assert forall|x: usize| found.contains(x) implies now_found.contains(x) by {
        let i = choose|i: int| 0 <= i < found.len() && found[i] == x;
        assert(now_found[i] == x);
    }
    if after.modules.len() > e.modules.len() {
        let id = e.modules.len() as usize;
        assert(!found.contains(id));
        assert(now_found[found.len() as int] == id);
        assert forall|i: int| 0 <= i < after.dependencies.len() implies are_files(
            #[trigger] after.dependencies[i],
            after.modules.len(),
        ) by {
            lemma_more_files(e.dependencies[i], e.modules.len(), after.modules.len());
        }
    }
    assert forall|j: int|
        1 <= j < after.modules.len() implies now_found.contains(j as usize)
        && after.dependencies.len() < j || #[trigger] is_imported_earlier(
        after.dependencies,
        j,
    ) by {
        if j >= e.modules.len() {
            assert(now_found.contains(j as usize));
        }
    }
    assert(after.paths.no_duplicates());
    assert(now_found.no_duplicates());
    assert(are_files(now_found, after.modules.len()));
    assert forall|i: int| 1 <= i < after.modules.len() implies #[trigger] after.modules[i].source.name
        == after.paths[i] by {
        if i < e.modules.len() {
            assert(e.modules[i].source.name == e.paths[i]);
        }
    }
}

/// Following imports keeps a graph sound.
proof fn lemma_imports(
    e: Exploration,
    importer: SourceFileView,
    list: Seq<(Seq<Seq<char>>, Span)>,
    files: Files,
)
    requires
        is_sound(e, Seq::empty()),
        e.dependencies.len() < e.modules.len(),
        imports_followed(e, importer, list, files).0.modules.len() <= usize::MAX,
    ensures
        ({
            let (after, found) = imports_followed(e, importer, list, files);
            &&& is_sound(after, found)
            &&& after.dependencies == e.dependencies
            &&& e.modules.is_prefix_of(after.modules)
            &&& e.paths[0] == after.paths[0]
        }),
    decreases list.len(),
{
    if list.len() == 0 {
        assert(e.modules =~= e.modules.take(e.modules.len() as int));
    } else {
        let (before, found) = imports_followed(e, importer, list.drop_last(), files);
        let (after, now_found) = import_followed(before, found, importer, list.last(), files);
        assert(before.modules.len() <= after.modules.len());
        lemma_imports(e, importer, list.drop_last(), files);
        lemma_import(before, found, importer, list.last(), files);
        assert(e.modules =~= after.modules.take(e.modules.len() as int)) by {
            assert(e.modules =~= before.modules.take(e.modules.len() as int));
            assert(before.modules =~= after.modules.take(before.modules.len() as int));
        }
    }
}

/// In the graph of a project, every file has one number, the main file has number zero,
/// dependencies are files of the graph, and every other file is a dependency of a file with a
/// smaller number.
pub proof fn graph_is_sound(root: ModuleView, libraries: Libraries, files: Files, n: nat)
    requires
        explored(root, libraries, files, n).modules.len() <= usize::MAX,
    ensures
        is_sound(explored(root, libraries, files, n), Seq::empty()),
        explored(root, libraries, files, n).modules[0] == root,
        explored(root, libraries, files, n).paths[0] == without_extension(root.source.name),
        explored(root, libraries, files, n).modules.len() >= 1,
        explored(root, libraries, files, n).dependencies.len() <= n,
    decreases n,
{
    if n > 0 {
        let before = explored(root, libraries, files, (n - 1) as nat);
        let after = explored(root, libraries, files, n);
        lemma_stage_grows(root, libraries, files, n);
        graph_is_sound(root, libraries, files, (n - 1) as nat);
        if n <= before.modules.len() {
            lemma_stage(root, libraries, files, (n - 1) as nat);
            let module = before.modules[n - 1];
            let list = imports(shared(module.parsed_program.items), libraries);
            lemma_imports(before, module.source, list, files);
            let (e, found) = imports_followed(before, module.source, list, files);
            assert(after.modules == e.modules && after.paths == e.paths);
            assert(before.modules =~= e.modules.take(before.modules.len() as int));
            assert(e.modules[0] == e.modules.take(before.modules.len() as int)[0]);
            assert forall|i: int| 0 <= i < after.dependencies.len() implies are_files(
                #[trigger] after.dependencies[i],
                after.modules.len(),
            ) by {
                if i < before.dependencies.len() {
                    assert(after.dependencies[i] == e.dependencies[i]);
                }
            }
            assert forall|j: int|
                1 <= j < after.modules.len() implies #[trigger] is_imported_earlier(
                after.dependencies,
                j,
            ) by {
                assert(found.contains(j as usize) && e.dependencies.len() < j
                    || is_imported_earlier(e.dependencies, j));
                if found.contains(j as usize) && e.dependencies.len() < j {
                    assert(after.dependencies[n - 1] == found);
                } else {
                    let i = choose|i: int|
                        0 <= i < e.dependencies.len() && i < j
                            && (#[trigger] e.dependencies[i]).contains(j as usize);
                    assert(after.dependencies[i] == e.dependencies[i]);
                }
            }
        }
    }
}

/// As many files were explored as there are entries of dependencies.
pub proof fn lemma_stage(root: ModuleView, libraries: Libraries, files: Files, n: nat)
    ensures
        n < explored(root, libraries, files, n).modules.len() ==> explored(
            root,
            libraries,
            files,
            n,
        ).dependencies.len() == n,
    decreases n,
{
    if n > 0 {
        let before = explored(root, libraries, files, (n - 1) as nat);
        lemma_stage(root, libraries, files, (n - 1) as nat);
        if n <= before.modules.len() {
            let module = before.modules[n - 1];
            let list = imports(shared(module.parsed_program.items), libraries);
            lemma_dependencies_stay(before, module.source, list, files);
        }
    }
}

/// Following imports changes no entry of dependencies.
pub proof fn lemma_dependencies_stay(
    e: Exploration,
    importer: SourceFileView,
    list: Seq<(Seq<Seq<char>>, Span)>,
    files: Files,
)
    ensures
        imports_followed(e, importer, list, files).0.dependencies == e.dependencies,
        e.modules.len() <= imports_followed(e, importer, list, files).0.modules.len(),
    decreases list.len(),
{
    if list.len() > 0 {
        lemma_dependencies_stay(e, importer, list.drop_last(), files);
    }
}

/// Exploring a further file forgets no file.
pub proof fn lemma_stage_grows(root: ModuleView, libraries: Libraries, files: Files, n: nat)
    requires
        n > 0,
    ensures
        explored(root, libraries, files, (n - 1) as nat).modules.len() <= explored(
            root,
            libraries,
            files,
            n,
        ).modules.len(),
{
    let before = explored(root, libraries, files, (n - 1) as nat);
    if n <= before.modules.len() {
        let module = before.modules[n - 1];
        let list = imports(shared(module.parsed_program.items), libraries);
        lemma_dependencies_stay(before, module.source, list, files);
    }
}

/// Whether a file of a project is the main file or has the content that was read.
spec fn is_read(root: ModuleView, files: Files, module: ModuleView) -> bool {
    module.parsed_program == root.parsed_program || exists|j: int|
        0 <= j < files.len() && (#[trigger] files[j].1 matches FileContent::Parsed(_, program)
            && program == module.parsed_program)
}

/// The content of a file is one that was read.
proof fn lemma_content(files: Files, path: Seq<Seq<char>>)
    ensures
        content_of(files, path) matches FileContent::Parsed(text, program) ==> exists|j: int|
            0 <= j < files.len() && #[trigger] files[j].1 == FileContentView::Parsed(text, program),
    decreases files.len(),
{
    if files.len() > 0 && files[0].0 != path {
        let rest = files.drop_first();
        lemma_content(rest, path);
        if let FileContent::Parsed(text, program) = content_of(files, path) {
            let j = choose|j: int|
                0 <= j < rest.len() && #[trigger] rest[j].1 == FileContentView::Parsed(
                    text,
                    program,
                );
            assert(files[j + 1].1 == rest[j].1);
        }
    }
}

/// Files that are found by following imports have contents that were read.
proof fn lemma_imports_read(
    root: ModuleView,
    e: Exploration,
    importer: SourceFileView,
    list: Seq<(Seq<Seq<char>>, Span)>,
    files: Files,
)
    requires
        forall|i: int|
            0 <= i < e.modules.len() ==> is_read(root, files, #[trigger] e.modules[i]),
    ensures
        forall|i: int|
            0 <= i < imports_followed(e, importer, list, files).0.modules.len() ==> is_read(
                root,
                files,
                #[trigger] imports_followed(e, importer, list, files).0.modules[i],
            ),
    decreases list.len(),
{
    if list.len() > 0 {
        lemma_imports_read(root, e, importer, list.drop_last(), files);
        lemma_content(files, list.last().0);
        let (before, found) = imports_followed(e, importer, list.drop_last(), files);
        let after = import_followed(before, found, importer, list.last(), files).0;
        assert forall|i: int| 0 <= i < after.modules.len() implies is_read(
            root,
            files,
            #[trigger] after.modules[i],
        ) by {
            if i < before.modules.len() {
                assert(after.modules[i] == before.modules[i]);
            } else if let FileContent::Parsed(text, program) = content_of(files, list.last().0) {
                let j = choose|j: int|
                    0 <= j < files.len() && #[trigger] files[j].1 == FileContentView::Parsed(
                        text,
                        program,
                    );
                assert(after.modules[i].parsed_program == program);
                assert(files[j].1 matches FileContent::Parsed(_, p) && p == program);
            }
        }
    }
}

/// The files of a project have contents that were read.
proof fn lemma_explored_read(root: ModuleView, libraries: Libraries, files: Files, n: nat)
    ensures
        forall|i: int|
            0 <= i < explored(root, libraries, files, n).modules.len() ==> is_read(
                root,
                files,
                #[trigger] explored(root, libraries, files, n).modules[i],
            ),
    decreases n,
{
    if n > 0 {
        let before = explored(root, libraries, files, (n - 1) as nat);
        lemma_explored_read(root, libraries, files, (n - 1) as nat);
        if n <= before.modules.len() {
            let module = before.modules[n - 1];
            let list = imports(shared(module.parsed_program.items), libraries);
            lemma_imports_read(root, before, module.source, list, files);
        }
    }
}

/// Once all imported files were read, every import of a file of the project is one of a file that
/// was read: none is missing only because it was not looked for.
pub proof fn explored_imports_were_read(
    root: ModuleView,
    libraries: Libraries,
    files: Files,
    n: nat,
    i: int,
    k: int,
)
    requires
        forall|file: Seq<Seq<char>>| #[trigger]
            is_imported(root.parsed_program, libraries, files, file) ==> was_read(files, file),
        0 <= i < explored(root, libraries, files, n).modules.len(),
        0 <= k < imports(
            *explored(root, libraries, files, n).modules[i].parsed_program.items,
            libraries,
        ).len(),
    ensures
        was_read(
            files,
            imports(
                *explored(root, libraries, files, n).modules[i].parsed_program.items,
                libraries,
            )[k].0,
        ),
{
    let module = explored(root, libraries, files, n).modules[i];
    let list = imports(shared(module.parsed_program.items), libraries);
    lemma_explored_read(root, libraries, files, n);
    assert(is_read(root, files, module));
    assert(has_import(shared(module.parsed_program.items), libraries, list[k].0));
    assert(is_imported(root.parsed_program, libraries, files, list[k].0));
}

/// Every file of a project is reached from the main file.
proof fn lemma_all_reached(e: Exploration, graph: Dependencies, j: int)
    requires
        is_sound(e, Seq::empty()),
        e.dependencies.len() == e.modules.len(),
        graph == dependency_table(e.dependencies),
        e.modules.len() <= usize::MAX,
        0 <= j < e.modules.len(),
    ensures
        reaches(graph, 0, j as usize),
    decreases j,
{
    if j == 0 {
        let path = seq![0usize];
        assert(is_path(graph, path));
    } else {
        assert(is_imported_earlier(e.dependencies, j));
        let i = choose|i: int|
            0 <= i < e.dependencies.len() && i < j && (#[trigger] e.dependencies[i]).contains(
                j as usize,
            );
        lemma_all_reached(e, graph, i);
        let path = choose|path: Seq<usize>| #[trigger]
            is_path(graph, path) && path.len() > 0 && path[0] == 0 && path.last() == i as usize;
        let longer = path.push(j as usize);
        assert(parents(graph, i as usize) == e.dependencies[i]);
        assert forall|k: int| 0 <= k < longer.len() - 1 implies depends_on(
            graph,
            #[trigger] longer[k],
            longer[k + 1],
        ) by {
            assert(longer[k] == path[k]);
            if k < path.len() - 1 {
                assert(depends_on(graph, path[k], path[k + 1]));
                assert(longer[k + 1] == path[k + 1]);
            }
        }
        assert(is_path(graph, longer));
    }
}

/// All files were explored when the exploration is complete.
pub proof fn lemma_complete(root: ModuleView, libraries: Libraries, files: Files, n: nat)
    requires
        is_complete(explored(root, libraries, files, n), n),
        n > 0,
    ensures
        explored(root, libraries, files, n).dependencies.len() == n,
{
    let before = explored(root, libraries, files, (n - 1) as nat);
    lemma_stage(root, libraries, files, (n - 1) as nat);
    if n <= before.modules.len() {
        let module = before.modules[n - 1];
        let list = imports(shared(module.parsed_program.items), libraries);
        lemma_dependencies_stay(before, module.source, list, files);
    }
}

/// Once all imports were followed, every file of the graph is reached from the main file.
pub proof fn every_file_is_reached(
    root: ModuleView,
    libraries: Libraries,
    files: Files,
    n: nat,
    j: int,
)
    requires
        is_complete(explored(root, libraries, files, n), n),
        n <= usize::MAX,
        0 <= j < n,
    ensures
        reaches(
            dependency_table(explored(root, libraries, files, n).dependencies),
            0,
            j as usize,
        ),
{
    let e = explored(root, libraries, files, n);
    graph_is_sound(root, libraries, files, n);
    lemma_complete(root, libraries, files, n);
    lemma_all_reached(e, dependency_table(e.dependencies), j);
}

/// In the graph that is built for a project, each file has the number of its name, and the main
/// file has number zero. The dependencies of a file are files of the graph, each of them once, and
/// every file is reached from the main file.
pub proof fn built_graph_is_sound(
    graph: ProjectGraph,
    root: ModuleView,
    libraries: Libraries,
    files: Files,
    errors_before: Seq<RichErrorView>,
    errors_after: Seq<RichErrorView>,
    n: nat,
)
    requires
        is_graph_of(Some(graph), root, libraries, files, errors_before, errors_after, n),
    ensures
        errors_after.len() == 0,
        graph.modules.len() > 0,
        graph.paths.len() == graph.modules.len(),
        graph.modules@[0]@ == root,
        graph.paths@[0]@ == without_extension(root.source.name),
        forall|i: int|
            0 <= i < graph.paths.len() ==> id_of(
                name_views(graph.paths@),
                (#[trigger] graph.paths@[i])@,
            ) == Some(i as usize),
        forall|id: usize|
            dependencies_view(graph.dependencies@).contains_key(id) ==> id < graph.modules.len()
                && are_files(
                #[trigger] dependencies_view(graph.dependencies@)[id],
                graph.modules@.len(),
            ),
        forall|j: int|
            0 <= j < graph.modules.len() ==> reaches(
                dependencies_view(graph.dependencies@),
                0,
                #[trigger] (j as usize),
            ),
{
    let e = explored(root, libraries, files, n);
    assert(e.modules.len() == graph.modules@.len());
    assert(graph.modules@.len() == graph.modules.len());
    assert(e.paths.len() == graph.paths@.len());
    graph_is_sound(root, libraries, files, n);
    lemma_complete(root, libraries, files, n);
    assert(module_views(graph.modules@)[0] == root);
    assert(name_views(graph.paths@)[0] == e.paths[0]);
    assert forall|i: int| 0 <= i < graph.paths.len() implies id_of(
        name_views(graph.paths@),
        (#[trigger] graph.paths@[i])@,
    ) == Some(i as usize) by {
        let name = graph.paths@[i]@;
        assert(e.paths[i] == name);
        assert(e.paths.contains(name));
        lemma_id_of(e.paths, name);
    }
    assert forall|j: int| 0 <= j < graph.modules.len() implies reaches(
        dependencies_view(graph.dependencies@),
        0,
        #[trigger] (j as usize),
    ) by {
        every_file_is_reached(root, libraries, files, n, j);
    }
}

} // verus!
