//! Every project whose graph was built can be linked.
use crate::driver::link::Project;
use crate::driver::linearize::{dependencies_view, linearized, parents, Dependencies};
use crate::driver::linearize_laws::{
    depends_on, is_path, linearization_is_ordered, reaches,
};
use crate::driver::project::{
    content_of, dependency_table, explored, full_path, id_of, import_followed, import_of, imports,
    imports_followed, is_complete, key_of, Exploration, FileContent, Files, Libraries, ModuleView,
    ProjectGraph,
};
use crate::driver::project_laws::{
    every_file_is_reached, graph_is_sound, is_sound, lemma_complete, lemma_id_of,
};
use crate::error::Span;
use crate::list::{shared, List};
use crate::parse;
use crate::path::{after_last_dot, file_stem, with_extension};
use crate::source::{SourceFileView, SourceNameView};
use vstd::prelude::*;
use vstd::set_lib::{lemma_int_range, lemma_len_subset, set_int_range};

verus! {

/// Whether a name is neither empty nor holds a dot. Such are the names in a program.
pub open spec fn is_plain(name: Seq<char>) -> bool {
    name.len() > 0 && forall|i: int| 0 <= i < name.len() ==> #[trigger] name[i] != '.'
}

/// Whether all imports from libraries lead to files with plain names.
pub open spec fn has_plain_imports(items: List<parse::Item>, libraries: Libraries) -> bool
    decreases items,
{
    match items {
        List::Nil => true,
        List::Cons(head, tail) => {
            &&& head matches parse::Item::Use(decl) ==> (full_path(libraries, decl) matches Ok(path)
                ==> path.len() > 0 && is_plain(path.last()))
            &&& has_plain_imports(*tail, libraries)
        },
    }
}

/// A name without dots has no extension.
proof fn lemma_no_dot(name: Seq<char>)
    requires
        forall|i: int| 0 <= i < name.len() ==> #[trigger] name[i] != '.',
    ensures
        after_last_dot(name) == 0,
    decreases name.len(),
{
    if name.len() > 0 {
        assert(name.last() == name[name.len() - 1]);
        assert forall|i: int| 0 <= i < name.drop_last().len() implies #[trigger] name.drop_last()[i]
            != '.' by {
            assert(name.drop_last()[i] == name[i]);
        }
        lemma_no_dot(name.drop_last());
    }
}

/// A file with a plain name is known by its path without the extension.
pub proof fn lemma_key(path: Seq<Seq<char>>)
    requires
        path.len() > 0,
        is_plain(path.last()),
    ensures
        key_of(with_extension(path, "simf"@)) == SourceNameView::Real(path),
{
    let name = path.last();
    reveal_strlit("..");
    reveal_strlit(".");
    reveal_strlit("");
    reveal_strlit("simf");
    assert(name != ".."@) by {
        if name == ".."@ {
            assert(name[0] == '.');
        }
    }
    lemma_no_dot(name);
    let file = name + "."@ + "simf"@;
    let longer = with_extension(path, "simf"@);
    assert(longer =~= path.drop_last().push(file));
    let n = name.len() as int;
    assert(file.len() == n + 5);
    assert(file.drop_last().drop_last().drop_last().drop_last() =~= name + "."@);
    reveal_with_fuel(after_last_dot, 6);
    assert(file.last() == 'f');
    assert(file.drop_last().last() == 'm');
    assert(file.drop_last().drop_last().last() == 'i');
    assert(file.drop_last().drop_last().drop_last().last() == 's');
    assert((name + "."@).last() == '.');
    assert(after_last_dot(file) == n + 1);
    assert(file_stem(file) =~= name);
    assert(file != ".."@) by {
        if file == ".."@ {
            assert(file.len() == 2);
        }
    }
    assert(longer.drop_last() =~= path.drop_last());
    assert(path.drop_last().push(name) =~= path);
}

/// Whether a file whose content is no program has errors.
pub open spec fn reports_errors(files: Files) -> bool {
    forall|path: Seq<Seq<char>>|
        #[trigger] content_of(files, path) matches FileContent::Invalid(errors) ==> errors.len() > 0
}

/// A file that is known stays known.
proof fn lemma_known(e: Exploration, found: Seq<usize>, importer: SourceFileView, import: (Seq<
    Seq<char>,
>, Span), files: Files)
    ensures
        ({
            let after = import_followed(e, found, importer, import, files).0;
            &&& e.errors.len() <= after.errors.len()
            &&& forall|name: SourceNameView| #[trigger]
                e.paths.contains(name) ==> after.paths.contains(name)
            &&& reports_errors(files) && after.errors.len() == e.errors.len() && e.paths.len()
                <= usize::MAX ==> after.paths.contains(key_of(import.0))
        }),
{
    let key = key_of(import.0);
    let after = import_followed(e, found, importer, import, files).0;
    assert forall|name: SourceNameView| #[trigger] e.paths.contains(name) implies after.paths.contains(
        name,
    ) by {
        let i = choose|i: int| 0 <= i < e.paths.len() && e.paths[i] == name;
        assert(after.paths[i] == name);
    }
    if e.paths.len() <= usize::MAX {
        lemma_id_of(e.paths, key);
        if id_of(e.paths, key) is Some {
            assert(e.paths.contains(key));
        } else if after.paths.len() > e.paths.len() {
            assert(after.paths[e.paths.len() as int] == key);
        } else if let FileContent::Invalid(errors) = content_of(files, import.0) {
            if reports_errors(files) {
                assert(errors.len() > 0);
            }
        }
    }
}

/// The files of imports that were followed without errors are known.
proof fn lemma_all_known(
    e: Exploration,
    importer: SourceFileView,
    list: Seq<(Seq<Seq<char>>, Span)>,
    files: Files,
)
    requires
        reports_errors(files),
        imports_followed(e, importer, list, files).0.errors.len() == 0,
        imports_followed(e, importer, list, files).0.paths.len() <= usize::MAX,
    ensures
        ({
            let after = imports_followed(e, importer, list, files).0;
            &&& e.errors.len() == 0
            &&& e.paths.len() <= after.paths.len()
            &&& forall|name: SourceNameView| #[trigger]
                e.paths.contains(name) ==> after.paths.contains(name)
            &&& forall|i: int|
                0 <= i < list.len() ==> after.paths.contains(key_of((#[trigger] list[i]).0))
        }),
    decreases list.len(),
{
    if list.len() > 0 {
        let shorter = list.drop_last();
        let (before, found) = imports_followed(e, importer, shorter, files);
        let after = import_followed(before, found, importer, list.last(), files).0;
        assert(before.paths.len() <= after.paths.len());
        lemma_known(before, found, importer, list.last(), files);
        lemma_all_known(e, importer, shorter, files);
        assert forall|i: int| 0 <= i < list.len() implies after.paths.contains(
            key_of((#[trigger] list[i]).0),
        ) by {
            if i < shorter.len() {
                assert(shorter[i] == list[i]);
                assert(before.paths.contains(key_of(shorter[i].0)));
            }
        }
    }
}

/// Whether the files that a file of a project imports are known.
spec fn knows_imports(e: Exploration, libraries: Libraries, i: int) -> bool {
    let list = imports(shared(e.modules[i].parsed_program.items), libraries);
    forall|k: int| 0 <= k < list.len() ==> e.paths.contains(key_of((#[trigger] list[k]).0))
}

/// After the imports of files were followed without errors, the files that they import are known.
proof fn lemma_explored(root: ModuleView, libraries: Libraries, files: Files, n: nat, i: int)
    requires
        reports_errors(files),
        explored(root, libraries, files, n).errors.len() == 0,
        explored(root, libraries, files, n).modules.len() <= usize::MAX,
        0 <= i < n,
        i < explored(root, libraries, files, n).modules.len(),
    ensures
        knows_imports(explored(root, libraries, files, n), libraries, i),
    decreases n,
{
    let before = explored(root, libraries, files, (n - 1) as nat);
    let after = explored(root, libraries, files, n);
    graph_is_sound(root, libraries, files, n);
    if n <= before.modules.len() {
        let module = before.modules[n - 1];
        let list = imports(shared(module.parsed_program.items), libraries);
        let (e, found) = imports_followed(before, module.source, list, files);
        lemma_all_known(before, module.source, list, files);
        crate::driver::project_laws::lemma_stage_grows(root, libraries, files, n);
        lemma_prefix(before, module.source, list, files);
        if i < n - 1 {
            lemma_explored(root, libraries, files, (n - 1) as nat, i);
            assert(after.modules[i] == before.modules[i]);
        } else {
            assert(after.modules[i] == module);
        }
    } else {
        lemma_explored(root, libraries, files, (n - 1) as nat, i);
    }
}

/// Following imports keeps the files that were found.
proof fn lemma_prefix(
    e: Exploration,
    importer: SourceFileView,
    list: Seq<(Seq<Seq<char>>, Span)>,
    files: Files,
)
    ensures
        e.modules.len() <= imports_followed(e, importer, list, files).0.modules.len(),
        forall|i: int|
            0 <= i < e.modules.len() ==> imports_followed(
                e,
                importer,
                list,
                files,
            ).0.modules[i] == #[trigger] e.modules[i],
    decreases list.len(),
{
    if list.len() > 0 {
        lemma_prefix(e, importer, list.drop_last(), files);
    }
}

/// Imports of known files can be linked.
proof fn lemma_are_linkable(
    project: Project,
    items: List<parse::Item>,
    n: nat,
)
    requires
        has_plain_imports(items, project.libraries),
        project.paths.len() <= n <= usize::MAX,
        forall|k: int|
            0 <= k < imports(items, project.libraries).len() ==> project.paths.contains(
                key_of((#[trigger] imports(items, project.libraries)[k]).0),
            ),
    ensures
        project.are_linkable(items, n),
    decreases items,
{
    if let List::Cons(head, tail) = items {
        let first = import_of(head, project.libraries);
        let rest = imports(*tail, project.libraries);
        let all = imports(items, project.libraries);
        assert(all == first + rest);
        assert forall|k: int| 0 <= k < rest.len() implies project.paths.contains(
            key_of((#[trigger] rest[k]).0),
        ) by {
            assert(rest[k] == all[first.len() + k]);
        }
        lemma_are_linkable(project, *tail, n);
        if let parse::Item::Use(decl) = head {
            if let Ok(path) = full_path(project.libraries, decl) {
                assert(all[0] == first[0]);
                assert(project.paths.contains(key_of(all[0].0)));
                lemma_key(path);
                lemma_id_of(project.paths, SourceNameView::Real(path));
            }
        }
    }
}

/// The files that a file of a project depends on are files of the project.
proof fn lemma_reached_in_range(e: Exploration, graph: Dependencies, x: usize)
    requires
        is_sound(e, Seq::empty()),
        graph == dependency_table(e.dependencies),
        e.modules.len() >= 1,
        reaches(graph, 0, x),
    ensures
        x < e.modules.len(),
{
    let path = choose|path: Seq<usize>| #[trigger]
        is_path(graph, path) && path.len() > 0 && path[0] == 0 && path.last() == x;
    if path.len() > 1 {
        let k = path.len() - 2;
        assert(depends_on(graph, path[k], path[k + 1]));
        let list = parents(graph, path[k]);
        let i = choose|i: int| 0 <= i < list.len() && list[i] == x;
        assert(list == e.dependencies[path[k] as int]);
        assert(list[i] < e.modules.len());
    }
}

/// A list that has all numbers below `n` has at least `n` elements.
proof fn lemma_long_enough(order: Seq<usize>, n: nat)
    requires
        n <= usize::MAX,
        forall|j: int| 0 <= j < n ==> order.contains(#[trigger] (j as usize)),
    ensures
        n <= order.len(),
{
    let numbers = order.map_values(|x: usize| x as int);
    lemma_int_range(0, n as int);
    numbers.lemma_cardinality_of_set();
    assert forall|j: int| set_int_range(0, n as int).contains(j) implies numbers.to_set().contains(
        j,
    ) by {
        let x = j as usize;
        assert(order.contains(x));
        let i = choose|i: int| 0 <= i < order.len() && order[i] == x;
        assert(numbers[i] == j);
    }
    vstd::seq_lib::seq_to_set_is_finite(numbers);
    lemma_len_subset(set_int_range(0, n as int), numbers.to_set());
}

/// A project whose graph was built without errors can be linked if its files have a linearization:
/// the linearization has all its files, and each import leads to one of them.
///
/// The names of imported files have no dots.
pub proof fn built_project_is_linkable(
    graph: ProjectGraph,
    root: ModuleView,
    libraries: Libraries,
    files: Files,
    n: nat,
)
    requires
        reports_errors(files),
        is_complete(explored(root, libraries, files, n), n),
        explored(root, libraries, files, n).errors.len() == 0,
        graph.is_result_of(explored(root, libraries, files, n)),
        graph.libraries@ == libraries,
        forall|i: int|
            0 <= i < graph.modules.len() ==> has_plain_imports(
                *(#[trigger] graph.modules@[i]).parsed_program.items,
                libraries,
            ),
    ensures
        graph.modules.len() > 0,
        linearized(dependencies_view(graph.dependencies@), Seq::empty(), 0) matches Ok(order)
            ==> graph.project().is_linkable(order.reverse()),
{
    let e = explored(root, libraries, files, n);
    let table = dependencies_view(graph.dependencies@);
    assert(e.modules.len() == graph.modules@.len());
    assert(graph.modules@.len() == graph.modules.len());
    graph_is_sound(root, libraries, files, n);
    lemma_complete(root, libraries, files, n);
    lemma_table_is_finite(e.dependencies);
    linearization_is_ordered(table, 0);
    if let Ok(order) = linearized(table, Seq::empty(), 0) {
        assert forall|j: int| 0 <= j < n implies order.contains(#[trigger] (j as usize)) by {
            every_file_is_reached(root, libraries, files, n, j);
        }
        lemma_long_enough(order, n);
        assert forall|i: int| 0 <= i < order.len() implies #[trigger] order[i] < n by {
            assert(order.contains(order[i]));
            lemma_reached_in_range(e, table, order[i]);
        }
        lemma_short_enough(order, n);
        let back = order.reverse();
        assert forall|i: int|
            #![trigger back[i]]
            0 <= i < back.len() implies back[i] < graph.project().modules.len() && back[i]
            < back.len() && graph.project().are_linkable(
            *graph.project().modules[back[i] as int].parsed_program.items,
            back.len(),
        ) by {
            let x = back[i];
            assert(order[order.len() - 1 - i] == x);
            lemma_explored(root, libraries, files, n, x as int);
            assert(graph.project().modules[x as int] == graph.modules@[x as int]@);
            assert(has_plain_imports(
                shared(graph.modules@[x as int].parsed_program.items),
                libraries,
            ));
            lemma_are_linkable(
                graph.project(),
                shared(graph.project().modules[x as int].parsed_program.items),
                back.len(),
            );
        }
    }
}

/// A list of different numbers below `n` has at most `n` elements.
proof fn lemma_short_enough(order: Seq<usize>, n: nat)
    requires
        order.no_duplicates(),
        forall|i: int| 0 <= i < order.len() ==> #[trigger] order[i] < n,
    ensures
        order.len() <= n,
{
    let numbers = order.map_values(|x: usize| x as int);
    assert(numbers.no_duplicates());
    numbers.unique_seq_to_set();
    lemma_int_range(0, n as int);
    assert forall|j: int| numbers.to_set().contains(j) implies set_int_range(0, n as int).contains(
        j,
    ) by {
        let i = choose|i: int| 0 <= i < numbers.len() && numbers[i] == j;
        assert(order[i] < n);
    }
    lemma_len_subset(numbers.to_set(), set_int_range(0, n as int));
}

/// The dependencies of finitely many files are finitely many.
proof fn lemma_table_is_finite(found: Seq<Seq<usize>>)
    ensures
        dependency_table(found).dom().finite(),
{
    let numbers = Seq::new(found.len(), |i: int| i as usize);
    vstd::seq_lib::seq_to_set_is_finite(numbers);
    assert forall|id: usize| dependency_table(found).dom().contains(
        id,
    ) implies numbers.to_set().contains(id) by {
        assert(numbers[id as int] == id);
    }
    lemma_len_subset(dependency_table(found).dom(), numbers.to_set());
}

} // verus!
