//! Laws of the load order.
use crate::driver::dfs::{searched, searched_all};
use crate::driver::linearize::{lemma_visit, parents, unvisited, Dependencies};
use crate::driver::linearize_laws::{
    depends_on, is_cycle, is_path, is_reached_cycle, leads_to, lemma_closed_path,
    lemma_longer_path, lemma_reaches, lemma_reaches_itself, reaches,
};
use crate::driver::merge::comes_before;
use vstd::prelude::*;

verus! {

/// Whether an order has every file once, and each file after those that it depends on. That a file
/// depends on itself does not count.
pub open spec fn is_bottom_up(graph: Dependencies, order: Seq<usize>) -> bool {
    &&& order.no_duplicates()
    &&& forall|x: usize, k: int|
        order.contains(x) && 0 <= k < parents(graph, x).len() && parents(graph, x)[k] != x
            ==> comes_before(order, #[trigger] parents(graph, x)[k], x)
}

/// Whether the files that come after the first ones are reached from a file, and are not being
/// visited.
pub open spec fn are_new(
    graph: Dependencies,
    before: Seq<usize>,
    after: Seq<usize>,
    visiting: Seq<usize>,
    module: usize,
) -> bool {
    &&& before.is_prefix_of(after)
    &&& forall|i: int|
        before.len() <= i < after.len() ==> reaches(graph, module, #[trigger] after[i])
            && !visiting.contains(after[i])
}

/// A longer order keeps what comes before what.
proof fn lemma_longer(before: Seq<usize>, after: Seq<usize>, x: usize, y: usize)
    requires
        before.is_prefix_of(after),
        comes_before(before, x, y),
    ensures
        comes_before(after, x, y),
{
    let (p, q) = choose|p: int, q: int|
        0 <= p < q < before.len() && before[p] == x && before[q] == y;
    assert(after.take(before.len() as int)[p] == after[p]);
    assert(after.take(before.len() as int)[q] == after[q]);
    assert(before =~= after.subrange(0, before.len() as int));
    assert(after[p] == x && after[q] == y);
}

/// A longer order has the files of a shorter one.
proof fn lemma_still_there(before: Seq<usize>, after: Seq<usize>, x: usize)
    requires
        before.is_prefix_of(after),
        before.contains(x),
    ensures
        after.contains(x),
{
    let p = choose|p: int| 0 <= p < before.len() && before[p] == x;
    assert(before =~= after.subrange(0, before.len() as int));
    assert(after[p] == before[p]);
}

/// The search adds a file bottom-up.
pub proof fn lemma_searched(
    graph: Dependencies,
    order: Seq<usize>,
    visiting: Seq<usize>,
    module: usize,
)
    requires
        graph.dom().finite(),
        is_bottom_up(graph, order),
    ensures
        searched(graph, order, visiting, module) matches Ok(after) ==> {
            &&& is_bottom_up(graph, after)
            &&& after.contains(module)
            &&& are_new(graph, order, after, visiting, module)
        },
    decreases unvisited(graph, visiting), 0nat,
{
    let list = parents(graph, module);
    lemma_reaches_itself(graph, module);
    if order.contains(module) {
        assert(order =~= order.subrange(0, order.len() as int));
    } else if let Ok(after) = searched(graph, order, visiting, module) {
        let inner = visiting.push(module);
        let before = if list.len() == 0 {
            order
        } else {
            lemma_visit(graph, visiting, module);
            lemma_searched_all(graph, order, inner, module, list);
            searched_all(graph, order, inner, module, list)->Ok_0
        };
        if list.len() == 0 {
            assert(order =~= order.subrange(0, order.len() as int));
        }
        assert(after =~= before.push(module));
        assert(before =~= after.subrange(0, before.len() as int));
        assert(after[before.len() as int] == module);
        assert(inner[visiting.len() as int] == module);
        assert(order =~= after.subrange(0, order.len() as int)) by {
            assert(order =~= before.subrange(0, order.len() as int));
        }
        // The file itself was not added before.
        assert(!before.contains(module)) by {
            if before.contains(module) {
                let p = choose|p: int| 0 <= p < before.len() && before[p] == module;
                if p < order.len() {
                    assert(order[p] == before.subrange(0, order.len() as int)[p]);
                } else {
                    assert(!inner.contains(before[p]));
                }
            }
        }
        assert forall|i: int| order.len() <= i < after.len() implies reaches(
            graph,
            module,
            #[trigger] after[i],
        ) && !visiting.contains(after[i]) by {
            if i < before.len() {
                assert(before[i] == after[i]);
                assert(!inner.contains(before[i]));
                if visiting.contains(after[i]) {
                    let k = choose|k: int| 0 <= k < visiting.len() && visiting[k] == after[i];
                    assert(inner[k] == after[i]);
                }
            }
        }
        assert forall|x: usize, k: int|
            after.contains(x) && 0 <= k < parents(graph, x).len() && parents(graph, x)[k]
                != x implies comes_before(after, #[trigger] parents(graph, x)[k], x) by {
            let y = parents(graph, x)[k];
            if x == module {
                assert(list[k] == y);
                assert(before.contains(y));
                let p = choose|p: int| 0 <= p < before.len() && before[p] == y;
                assert(after[p] == y && after[before.len() as int] == x);
            } else {
                let p = choose|p: int| 0 <= p < after.len() && after[p] == x;
                assert(before[p] == x);
                assert(before.contains(x));
                lemma_longer(before, after, y, x);
            }
        }
    }
}

/// The search adds files bottom-up.
pub proof fn lemma_searched_all(
    graph: Dependencies,
    order: Seq<usize>,
    visiting: Seq<usize>,
    importer: usize,
    list: Seq<usize>,
)
    requires
        graph.dom().finite(),
        is_bottom_up(graph, order),
        forall|k: int| 0 <= k < list.len() ==> depends_on(graph, importer, #[trigger] list[k]),
    ensures
        searched_all(graph, order, visiting, importer, list) matches Ok(after) ==> {
            &&& is_bottom_up(graph, after)
            &&& forall|k: int|
                0 <= k < list.len() && #[trigger] list[k] != importer ==> after.contains(list[k])
            &&& are_new(graph, order, after, visiting, importer)
        },
    decreases unvisited(graph, visiting), list.len(),
{
    if list.len() == 0 {
        assert(order =~= order.subrange(0, order.len() as int));
    } else {
        let shorter = list.drop_last();
        assert forall|k: int| 0 <= k < shorter.len() implies depends_on(
            graph,
            importer,
            #[trigger] shorter[k],
        ) by {
            assert(shorter[k] == list[k]);
        }
        lemma_searched_all(graph, order, visiting, importer, shorter);
        if let Ok(before) = searched_all(graph, order, visiting, importer, shorter) {
            let last = list.last();
            assert(depends_on(graph, importer, list[list.len() - 1]));
            if last != importer {
                lemma_searched(graph, before, visiting, last);
                if let Ok(after) = searched(graph, before, visiting, last) {
                    assert(order =~= after.subrange(0, order.len() as int)) by {
                        assert(order =~= before.subrange(0, order.len() as int));
                        assert(before =~= after.subrange(0, before.len() as int));
                    }
                    assert forall|k: int|
                        0 <= k < list.len() && #[trigger] list[k] != importer implies
                        after.contains(list[k]) by {
                        if k < shorter.len() {
                            assert(shorter[k] == list[k]);
                            lemma_still_there(before, after, list[k]);
                        }
                    }
                    assert forall|i: int| order.len() <= i < after.len() implies reaches(
                        graph,
                        importer,
                        #[trigger] after[i],
                    ) && !visiting.contains(after[i]) by {
                        if i < before.len() {
                            assert(before =~= after.subrange(0, before.len() as int));
                            assert(before[i] == after[i]);
                        } else {
                            lemma_reaches(graph, importer, last, after[i]);
                        }
                    }
                }
            } else {
                assert forall|k: int|
                    0 <= k < list.len() && #[trigger] list[k] != importer implies before.contains(
                    list[k],
                ) by {
                    assert(shorter[k] == list[k]);
                }
            }
        }
    }
}

/// The load order has exactly those files that the main file reaches, each of them once and after
/// the files that it depends on. The main file comes last.
pub proof fn load_order_is_bottom_up(graph: Dependencies, root: usize)
    requires
        graph.dom().finite(),
    ensures
        searched(graph, Seq::empty(), Seq::empty(), root) matches Ok(order) ==> {
            &&& is_bottom_up(graph, order)
            &&& order.len() > 0
            &&& order.last() == root
            &&& forall|x: usize| #[trigger] order.contains(x) <==> reaches(graph, root, x)
        },
{
    lemma_searched(graph, Seq::empty(), Seq::empty(), root);
    if let Ok(order) = searched(graph, Seq::empty(), Seq::empty(), root) {
        assert forall|x: usize| #[trigger] order.contains(x) implies reaches(graph, root, x) by {
            let i = choose|i: int| 0 <= i < order.len() && order[i] == x;
            assert(reaches(graph, root, order[i]));
        }
        assert forall|x: usize| reaches(graph, root, x) implies #[trigger] order.contains(x) by {
            let path = choose|path: Seq<usize>| #[trigger]
                is_path(graph, path) && path.len() > 0 && path[0] == root && path.last() == x;
            lemma_path_loaded(graph, order, path);
        }
    }
}

/// A bottom-up order has all files of a path whose first file it has.
proof fn lemma_path_loaded(graph: Dependencies, order: Seq<usize>, path: Seq<usize>)
    requires
        is_bottom_up(graph, order),
        is_path(graph, path),
        path.len() > 0,
        order.contains(path[0]),
    ensures
        order.contains(path.last()),
    decreases path.len(),
{
    if path.len() > 1 {
        let shorter = path.drop_last();
        assert forall|i: int| 0 <= i < shorter.len() - 1 implies depends_on(
            graph,
            #[trigger] shorter[i],
            shorter[i + 1],
        ) by {
            assert(depends_on(graph, path[i], path[i + 1]));
        }
        lemma_path_loaded(graph, order, shorter);
        let x = shorter.last();
        let y = path.last();
        assert(depends_on(graph, path[path.len() - 2], path[path.len() - 2 + 1]));
        let k = choose|k: int| 0 <= k < parents(graph, x).len() && parents(graph, x)[k] == y;
        if y != x {
            assert(comes_before(order, parents(graph, x)[k], x));
            let (p, q) = choose|p: int, q: int|
                0 <= p < q < order.len() && order[p] == y && order[q] == x;
            assert(order[p] == y);
        }
    }
}

/// A reported cycle is a cycle of several files that is reached from the first file.
proof fn lemma_reported(
    graph: Dependencies,
    root: usize,
    order: Seq<usize>,
    visiting: Seq<usize>,
    module: usize,
)
    requires
        graph.dom().finite(),
        leads_to(graph, root, visiting, module),
        visiting.len() > 0 ==> module != visiting.last(),
    ensures
        searched(graph, order, visiting, module) matches Err(files) ==> is_reached_cycle(
            graph,
            root,
            files,
        ) && files.len() >= 2,
    decreases unvisited(graph, visiting), 0nat,
{
    if order.contains(module) {
    } else if visiting.contains(module) {
        lemma_closed_path(graph, root, visiting, module);
    } else if parents(graph, module).len() > 0 {
        lemma_visit(graph, visiting, module);
        lemma_longer_path(graph, root, visiting, module);
        let list = parents(graph, module);
        assert forall|k: int| 0 <= k < list.len() implies leads_to(
            graph,
            root,
            visiting.push(module),
            #[trigger] list[k],
        ) by {
            assert(depends_on(graph, module, list[k]));
        }
        lemma_reported_all(graph, root, order, visiting.push(module), list);
    }
}

/// A reported cycle is a cycle of several files that is reached from the first file.
proof fn lemma_reported_all(
    graph: Dependencies,
    root: usize,
    order: Seq<usize>,
    visiting: Seq<usize>,
    list: Seq<usize>,
)
    requires
        graph.dom().finite(),
        visiting.len() > 0,
        forall|k: int|
            0 <= k < list.len() ==> leads_to(graph, root, visiting, #[trigger] list[k]),
    ensures
        searched_all(graph, order, visiting, visiting.last(), list) matches Err(files)
            ==> is_reached_cycle(graph, root, files) && files.len() >= 2,
    decreases unvisited(graph, visiting), list.len(),
{
    if list.len() > 0 {
        let shorter = list.drop_last();
        assert forall|k: int| 0 <= k < shorter.len() implies leads_to(
            graph,
            root,
            visiting,
            #[trigger] shorter[k],
        ) by {
            assert(shorter[k] == list[k]);
        }
        lemma_reported_all(graph, root, order, visiting, shorter);
        assert(leads_to(graph, root, visiting, list[list.len() - 1]));
        if let Ok(after) = searched_all(graph, order, visiting, visiting.last(), shorter) {
            if list.last() != visiting.last() {
                lemma_reported(graph, root, after, visiting, list.last());
            }
        }
    }
}

/// The files of a cycle that the search reports depend on each other in a cycle. There are at least
/// two of them, each of them is there once, and is reached from the main file.
pub proof fn reported_import_cycle_is_cycle(graph: Dependencies, root: usize)
    requires
        graph.dom().finite(),
    ensures
        searched(graph, Seq::empty(), Seq::empty(), root) matches Err(files) ==> is_reached_cycle(
            graph,
            root,
            files,
        ) && files.len() >= 2,
{
    lemma_reported(graph, root, Seq::empty(), Seq::empty(), root);
}

/// If there is a load order, then no files that the main file depends on import each other in a
/// cycle, apart from files that import themselves.
pub proof fn load_order_rules_out_cycles(graph: Dependencies, root: usize, files: Seq<usize>)
    requires
        graph.dom().finite(),
        searched(graph, Seq::empty(), Seq::empty(), root) is Ok,
        is_cycle(graph, files),
        reaches(graph, root, files[0]),
    ensures
        forall|i: int| 0 <= i < files.len() ==> #[trigger] files[i] == files[0],
{
    let order = searched(graph, Seq::empty(), Seq::empty(), root)->Ok_0;
    load_order_is_bottom_up(graph, root);
    assert(order.contains(files[0]));
    assert forall|i: int| 0 <= i < files.len() implies #[trigger] files[i] == files[0] by {
        lemma_rest(graph, order, files, 0, i);
        lemma_rest(graph, order, files, i, files.len() - 1);
        lemma_next(graph, order, files.last(), files[0]);
        assert(order[order.index_of(files[i])] == files[i]);
        assert(order[order.index_of(files[0])] == files[0]);
    }
}

/// From each place of a path on, files come ever earlier in the load order.
proof fn lemma_rest(graph: Dependencies, order: Seq<usize>, path: Seq<usize>, m: int, n: int)
    requires
        is_bottom_up(graph, order),
        is_path(graph, path),
        0 <= m <= n < path.len(),
        order.contains(path[m]),
    ensures
        order.contains(path[n]),
        order.index_of(path[n]) <= order.index_of(path[m]),
    decreases n - m,
{
    if m < n {
        lemma_rest(graph, order, path, m, n - 1);
        lemma_next(graph, order, path[n - 1], path[n - 1 + 1]);
    }
}

/// A file that another one depends on does not come later in the load order.
proof fn lemma_next(graph: Dependencies, order: Seq<usize>, x: usize, y: usize)
    requires
        is_bottom_up(graph, order),
        order.contains(x),
        depends_on(graph, x, y),
    ensures
        order.contains(y),
        order.index_of(y) <= order.index_of(x),
{
    if x != y {
        let list = parents(graph, x);
        let k = choose|k: int| 0 <= k < list.len() && list[k] == y;
        assert(comes_before(order, list[k], x));
        let (p, q) = choose|p: int, q: int|
            0 <= p < q < order.len() && order[p] == y && order[q] == x;
        assert(order[order.index_of(x)] == x);
        assert(order[order.index_of(y)] == y);
    }
}

} // verus!
