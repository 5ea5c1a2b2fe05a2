//! The bottom-up load order of dependencies, computed by a depth-first search.
//!
//! Imports of modules rely on namespaces and aliases, so that no precedence between the
//! dependencies of a file has to be enforced: a post-order search is enough.
use crate::driver::linearize::{
    copy_from, dependencies_view, first_position, lemma_push, lemma_visit, lookup, parents,
    position, unvisited, Dependencies,
};
use std::collections::{HashMap, HashSet};
use vstd::prelude::*;

verus! {

/// The load order after a file and the files that it depends on were added to an order, while
/// other files are being visited, or else a cycle of files that depend on each other.
///
/// A file is added after the files that it depends on, and only once. A file may import itself.
pub open spec fn searched(
    graph: Dependencies,
    order: Seq<usize>,
    visiting: Seq<usize>,
    module: usize,
) -> Result<Seq<usize>, Seq<usize>>
    decreases unvisited(graph, visiting), 0nat,
    when graph.dom().finite()
{
    if order.contains(module) {
        Ok(order)
    } else if visiting.contains(module) {
        Err(visiting.skip(first_position(visiting, module) as int))
    } else if parents(graph, module).len() == 0 {
        Ok(order.push(module))
    } else {
        proof {
            lemma_visit(graph, visiting, module);
        }
        match searched_all(
            graph,
            order,
            visiting.push(module),
            module,
            parents(graph, module),
        ) {
            Err(cycle) => Err(cycle),
            Ok(after) => Ok(after.push(module)),
        }
    }
}

/// The load order after files were added to an order, one after the other, except for the file
/// that imports them.
pub open spec fn searched_all(
    graph: Dependencies,
    order: Seq<usize>,
    visiting: Seq<usize>,
    importer: usize,
    modules: Seq<usize>,
) -> Result<Seq<usize>, Seq<usize>>
    decreases unvisited(graph, visiting), modules.len(),
    when graph.dom().finite()
{
    if modules.len() == 0 {
        Ok(order)
    } else {
        match searched_all(graph, order, visiting, importer, modules.drop_last()) {
            Err(cycle) => Err(cycle),
            Ok(after) => if modules.last() == importer {
                Ok(after)
            } else {
                searched(graph, after, visiting, modules.last())
            },
        }
    }
}

/// The first cycle that is found is the result of the search.
proof fn lemma_first_cycle(
    graph: Dependencies,
    order: Seq<usize>,
    visiting: Seq<usize>,
    importer: usize,
    modules: Seq<usize>,
    n: int,
)
    requires
        graph.dom().finite(),
        0 <= n <= modules.len(),
    ensures
        searched_all(graph, order, visiting, importer, modules.take(n)) is Err ==> searched_all(
            graph,
            order,
            visiting,
            importer,
            modules,
        ) == searched_all(graph, order, visiting, importer, modules.take(n)),
    decreases modules.len() - n,
{
    if n == modules.len() {
        assert(modules.take(n) =~= modules);
    } else {
        lemma_first_cycle(graph, order, visiting, importer, modules, n + 1);
        assert(modules.take(n + 1).drop_last() =~= modules.take(n));
    }
}

/// Check whether a file was visited.
fn was_visited(visited: &HashSet<usize>, module: usize) -> (result: bool)
    ensures
        result == visited@.contains(module),
{
    broadcast use vstd::std_specs::hash::group_hash_axioms;

    visited.contains(&module)
}

/// Mark a file as visited.
fn mark(visited: &mut HashSet<usize>, module: usize)
    ensures
        final(visited)@ == old(visited)@.insert(module),
{
    broadcast use vstd::std_specs::hash::group_hash_axioms;

    visited.insert(module);
}

/// Core recursive post-order search for topological sorting.
///
/// - `visited` prevents processing shared dependencies multiple times.
/// - `visiting` tracks the current path to catch cycles.
/// - `order` accumulates the load order bottom-up.
fn dfs_linearize(
    table: &HashMap<usize, Vec<usize>>,
    module: usize,
    visited: &mut HashSet<usize>,
    visiting: &mut Vec<usize>,
    order: &mut Vec<usize>,
) -> (result: Result<(), Vec<usize>>)
    requires
        old(visited)@ == old(order)@.to_set(),
    ensures
        ({
            let expected = searched(
                dependencies_view(table@),
                old(order)@,
                old(visiting)@,
                module,
            );
            match result {
                Ok(_) => {
                    &&& expected == Ok::<Seq<usize>, Seq<usize>>(final(order)@)
                    &&& final(visiting)@ == old(visiting)@
                    &&& final(visited)@ == final(order)@.to_set()
                },
                Err(cycle) => expected == Err::<Seq<usize>, Seq<usize>>(cycle@),
            }
        }),
    decreases unvisited(dependencies_view(table@), old(visiting)@),
{
    let ghost graph = dependencies_view(table@);
    let entry = lookup(table, module);
    assert(graph.dom() =~= table@.dom());
    let ghost stack = visiting@;
    let ghost start = order@;
    if was_visited(visited, module) {
        return Ok(());
    }
    assert(!order@.contains(module));
    if let Some(cycle_start) = position(visiting, module) {
        return Err(copy_from(visiting, cycle_start));
    }
    visiting.push(module);
    let empty: Vec<usize> = Vec::new();
    let list: &Vec<usize> = match entry {
        Some(files) => files,
        None => &empty,
    };
    assert(list@ == parents(graph, module));
    let mut i: usize = 0;
    proof {
        assert(list@.take(0) =~= Seq::<usize>::empty());
        if list.len() > 0 {
            lemma_visit(graph, stack, module);
        }
    }
    while i < list.len()
        invariant
            i <= list.len(),
            graph == dependencies_view(table@),
            graph.dom().finite(),
            !stack.contains(module),
            !start.contains(module),
            list@ == parents(graph, module),
            list.len() > 0 ==> unvisited(graph, stack.push(module)) < unvisited(graph, stack),
            stack == old(visiting)@,
            start == old(order)@,
            visiting@ == stack.push(module),
            visited@ == order@.to_set(),
            searched_all(graph, start, stack.push(module), module, list@.take(i as int)) == Ok::<
                Seq<usize>,
                Seq<usize>,
            >(order@),
        decreases list.len() - i,
    {
        assert(list@.take(i + 1).drop_last() =~= list@.take(i as int));
        assert(list@.take(i + 1).last() == list@[i as int]);
        proof {
            lemma_first_cycle(graph, start, stack.push(module), module, list@, i + 1);
        }
        let parent: usize = list[i];
        // Ignore self-imports.
        if parent != module {
            dfs_linearize(table, parent, visited, visiting, order)?;
        }
        i = i + 1;
    }
    assert(list@.take(i as int) =~= list@);
    let _ = visiting.pop();
    assert(visiting@ =~= stack);
    mark(visited, module);
    proof {
        lemma_push(order@, module);
    }
    order.push(module);
    Ok(())
}

/// Compute the load order of a file and of the files that it depends on.
///
/// ## Errors
///
/// A cycle of files that depend on each other.
pub fn load_order(table: &HashMap<usize, Vec<usize>>, root: usize) -> (result: Result<
    Vec<usize>,
    Vec<usize>,
>)
    ensures
        match (
            result,
            searched(dependencies_view(table@), Seq::empty(), Seq::empty(), root),
        ) {
            (Ok(order), Ok(expected)) => order@ == expected,
            (Err(cycle), Err(expected)) => cycle@ == expected,
            _ => false,
        },
{
    broadcast use vstd::std_specs::hash::group_hash_axioms;

    let mut visited: HashSet<usize> = HashSet::new();
    let mut visiting: Vec<usize> = Vec::new();
    let mut order: Vec<usize> = Vec::new();
    assert(visiting@ =~= Seq::<usize>::empty());
    assert(order@ =~= Seq::<usize>::empty());
    assert(visited@ =~= order@.to_set());
    dfs_linearize(table, root, &mut visited, &mut visiting, &mut order)?;
    Ok(order)
}

} // verus!
