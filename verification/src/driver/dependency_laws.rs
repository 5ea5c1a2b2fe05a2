//! What holds of the program that the files of a workspace are flattened into.
use super::dependency::{kept, DependencyGraph};
use super::dfs::searched;
use super::dfs_laws::{load_order_is_bottom_up, reported_import_cycle_is_cycle};
use super::linearize::{dependencies_view, parents, Dependencies};
use super::linearize_laws::{depends_on, is_path, is_reached_cycle, reaches};
use super::merge::comes_before;
use crate::list::shared;
use crate::parse::Item;
use crate::path::path_text;
use crate::source::SourceName;
use vstd::prelude::*;

verus! {

/// The files on a path that starts at a file are files.
proof fn lemma_path_in_range(graph: Dependencies, n: int, path: Seq<usize>, i: int)
    requires
        forall|id: usize, k: int|
            graph.dom().contains(id) && 0 <= k < graph[id].len() ==> #[trigger] graph[id][k] < n,
        is_path(graph, path),
        0 <= i < path.len(),
        i > 0 || path[0] < n,
    ensures
        path[i] < n,
{
    if i > 0 {
        assert(depends_on(graph, path[i - 1], path[i - 1 + 1]));
        let list = parents(graph, path[i - 1]);
        let k = choose|k: int| 0 <= k < list.len() && list[k] == path[i];
        assert(graph[path[i - 1]][k] < n);
    }
}

/// If files depend only on files, then the files of the load order, or else of the reported cycle,
/// are files.
pub proof fn search_stays_among_files(graph: DependencyGraph)
    requires
        graph.is_closed(),
        graph.dependencies@.dom().finite(),
    ensures
        match graph.search() {
            Ok(order) => graph.has_files(order),
            Err(cycle) => graph.has_files(cycle),
        },
{
    let table = dependencies_view(graph.dependencies@);
    let n = graph.modules@.len() as int;
    assert(table.dom() =~= graph.dependencies@.dom());
    assert forall|id: usize, k: int|
        table.dom().contains(id) && 0 <= k < table[id].len() implies #[trigger] table[id][k] < n by {
        assert(graph.has_files(graph.dependencies@[id]@));
        assert(graph.dependencies@[id]@[k] < n);
    }
    load_order_is_bottom_up(table, 0);
    reported_import_cycle_is_cycle(table, 0);
    match graph.search() {
        Ok(order) => {
            assert forall|i: int| 0 <= i < order.len() implies #[trigger] order[i] < n by {
                assert(order.contains(order[i]));
                let path = choose|path: Seq<usize>| #[trigger]
                    is_path(table, path) && path.len() > 0 && path[0] == 0 && path.last()
                        == order[i];
                lemma_path_in_range(table, n, path, path.len() - 1);
            }
        },
        Err(cycle) => {
            let round = cycle.push(cycle[0]);
            assert forall|i: int| 0 <= i < round.len() - 1 implies depends_on(
                table,
                #[trigger] round[i],
                round[i + 1],
            ) by {
                assert(round[i] == cycle[i]);
                if i + 1 < cycle.len() {
                    assert(depends_on(table, cycle[i], cycle[i + 1]));
                }
            }
            lemma_path_in_range(table, n, round, round.len() - 1);
            assert forall|i: int| 0 <= i < cycle.len() implies #[trigger] cycle[i] < n by {
                lemma_path_in_range(table, n, cycle, i);
            }
        },
    }
}

/// A workspace can be flattened, or a cycle in it can be reported, if files depend only on files
/// and all imports were resolved to one of the files.
pub proof fn workspace_can_be_flattened(graph: DependencyGraph)
    requires
        graph.is_closed(),
        graph.dependencies@.dom().finite(),
        forall|id: int|
            0 <= id < graph.modules@.len() ==> graph.can_rewrite_all(
                *(#[trigger] graph.modules@[id]).program.items,
            ),
    ensures
        match graph.search() {
            Ok(order) => graph.can_flatten(order),
            Err(cycle) => graph.has_files(cycle),
        },
{
    search_stays_among_files(graph);
    if let Ok(order) = graph.search() {
        assert forall|i: int| 0 <= i < order.len() implies graph.can_rewrite_all(
            *graph.modules@[#[trigger] order[i] as int].program.items,
        ) by {
            assert(order[i] < graph.modules@.len());
        }
    }
}

/// Whether a flattened program has the module of a file at a place.
pub open spec fn has_file(graph: DependencyGraph, result: Seq<Item>, i: int, id: usize) -> bool {
    0 <= i < result.len() && graph.is_file_module(id, result[i])
}

/// The flattened program has a module for each file of the load order but the entry file.
pub proof fn flattened_program_has_files(
    graph: DependencyGraph,
    order: Seq<usize>,
    result: Seq<Item>,
    k: int,
)
    requires
        graph.is_flattened(order, result),
        0 <= k < order.len(),
        order[k] != 0,
    ensures
        exists|i: int| #[trigger] has_file(graph, result, i, order[k]),
    decreases order.len(),
{
    let shorter = order.drop_last();
    if order.last() == 0 {
        let n = kept(shared(graph.modules@[0].program.items));
        let before = result.take(result.len() - n);
        flattened_program_has_files(graph, shorter, before, k);
        let i = choose|i: int| #[trigger] has_file(graph, before, i, order[k]);
        assert(has_file(graph, result, i, order[k]));
    } else if k == order.len() - 1 {
        assert(has_file(graph, result, result.len() - 1, order[k]));
    } else {
        let before = result.drop_last();
        flattened_program_has_files(graph, shorter, before, k);
        let i = choose|i: int| #[trigger] has_file(graph, before, i, order[k]);
        assert(has_file(graph, result, i, order[k]));
    }
}

/// The flattened program has the entry file and all files that it depends on, directly or through
/// other files. In the load order each file comes after those that it depends on.
pub proof fn flattened_program_is_complete(
    graph: DependencyGraph,
    result: Seq<Item>,
    id: usize,
    k: int,
)
    requires
        graph.linearized() matches Ok(order) && graph.is_flattened(order, result),
        graph.dependencies@.dom().finite(),
        reaches(dependencies_view(graph.dependencies@), 0, id),
        0 <= k < parents(dependencies_view(graph.dependencies@), id).len(),
    ensures
        ({
            let order = graph.linearized()->Ok_0;
            let dependency = parents(dependencies_view(graph.dependencies@), id)[k];
            &&& order.last() == 0
            &&& order.no_duplicates()
            &&& id != 0 ==> exists|i: int| #[trigger] has_file(graph, result, i, id)
            &&& dependency != id ==> comes_before(order, dependency, id)
            &&& dependency != 0 ==> exists|i: int| #[trigger]
                has_file(graph, result, i, dependency)
        }),
{
    let table = dependencies_view(graph.dependencies@);
    let order = graph.linearized()->Ok_0;
    let dependency = parents(table, id)[k];
    assert(table.dom() =~= graph.dependencies@.dom());
    load_order_is_bottom_up(table, 0);
    assert(searched(table, Seq::empty(), Seq::empty(), 0) == Ok::<Seq<usize>, Seq<usize>>(order));
    assert(order.contains(id));
    let at = choose|at: int| 0 <= at < order.len() && order[at] == id;
    if id != 0 {
        flattened_program_has_files(graph, order, result, at);
    }
    if dependency != id {
        assert(comes_before(order, dependency, id));
        let other = choose|other: int| 0 <= other < order.len() && order[other] == dependency;
        assert(order.contains(dependency));
        if dependency != 0 {
            flattened_program_has_files(graph, order, result, other);
        }
    }
}

/// Whether names are those of the files of a cycle, in the order of the cycle: a file on disk is
/// named by its path.
pub open spec fn names_cycle(
    graph: DependencyGraph,
    names: Seq<Seq<char>>,
    cycle: Seq<usize>,
) -> bool {
    &&& is_reached_cycle(dependencies_view(graph.dependencies@), 0, cycle)
    &&& names.len() == cycle.len() >= 2
    &&& forall|i: int|
        0 <= i < names.len() ==> #[trigger] names[i] == (
        match graph.modules@[cycle[i] as int].source.name@ {
            SourceName::Real(path) => path_text(path),
            SourceName::Virtual(text) => text,
        })
}

/// Files without a load order are reported by the names of files that import each other in a cycle.
pub proof fn reported_names_are_those_of_cycle(graph: DependencyGraph)
    requires
        graph.dependencies@.dom().finite(),
    ensures
        graph.linearized() matches Err(names) ==> exists|cycle: Seq<usize>| #[trigger]
            names_cycle(graph, names, cycle),
{
    let table = dependencies_view(graph.dependencies@);
    assert(table.dom() =~= graph.dependencies@.dom());
    reported_import_cycle_is_cycle(table, 0);
    if let Err(cycle) = graph.search() {
        assert(names_cycle(graph, graph.linearized()->Err_0, cycle));
    }
}

} // verus!
