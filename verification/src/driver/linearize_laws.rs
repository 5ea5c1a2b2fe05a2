//! Laws of the linearization of files.
use crate::driver::linearize::{
    first_position, lemma_visit, linearized, linearized_all, parents, unvisited, C3Error,
    Dependencies,
};
use crate::driver::merge::{comes_before, merge_keeps_order, merged, occurs_in};
use vstd::prelude::*;

verus! {

/// Whether a file depends on another one.
pub open spec fn depends_on(graph: Dependencies, x: usize, y: usize) -> bool {
    parents(graph, x).contains(y)
}

/// Whether each file of a path depends on the next one.
pub open spec fn is_path(graph: Dependencies, path: Seq<usize>) -> bool {
    forall|i: int|
        0 <= i < path.len() - 1 ==> depends_on(graph, #[trigger] path[i], path[i + 1])
}

/// Whether a file depends on another one, directly or through other files. A file reaches itself.
pub open spec fn reaches(graph: Dependencies, x: usize, y: usize) -> bool {
    exists|path: Seq<usize>| #[trigger]
        is_path(graph, path) && path.len() > 0 && path[0] == x && path.last() == y
}

/// Whether a linearization is in order: it starts with the file itself, has every file once,
/// has each file before those that it depends on, and has these in the order in which the file
/// lists them.
pub open spec fn is_ordered(graph: Dependencies, module: usize, order: Seq<usize>) -> bool {
    &&& order.len() > 0
    &&& order[0] == module
    &&& order.no_duplicates()
    &&& forall|x: usize, k: int|
        order.contains(x) && 0 <= k < parents(graph, x).len() ==> comes_before(
            order,
            x,
            #[trigger] parents(graph, x)[k],
        )
    &&& forall|x: usize, a: int, b: int|
        order.contains(x) && 0 <= a < b < parents(graph, x).len() ==> comes_before(
            order,
            #[trigger] parents(graph, x)[a],
            #[trigger] parents(graph, x)[b],
        )
}

/// A file reaches what the files that it depends on reach.
pub proof fn lemma_reaches(graph: Dependencies, x: usize, y: usize, z: usize)
    requires
        depends_on(graph, x, y),
        reaches(graph, y, z),
    ensures
        reaches(graph, x, z),
{
    let path = choose|path: Seq<usize>| #[trigger]
        is_path(graph, path) && path.len() > 0 && path[0] == y && path.last() == z;
    let longer = seq![x] + path;
    assert forall|i: int| 0 <= i < longer.len() - 1 implies depends_on(
        graph,
        #[trigger] longer[i],
        longer[i + 1],
    ) by {
        if i > 0 {
            assert(longer[i] == path[i - 1] && longer[i + 1] == path[i]);
        }
    }
    assert(is_path(graph, longer) && longer[0] == x && longer.last() == z);
}

/// A file reaches itself.
pub proof fn lemma_reaches_itself(graph: Dependencies, x: usize)
    ensures
        reaches(graph, x, x),
{
    let path = seq![x];
    assert(is_path(graph, path) && path[0] == x && path.last() == x);
}

/// A linearization is in order, holds only files that the file reaches and no file that is being
/// visited.
proof fn lemma_linearized(graph: Dependencies, visiting: Seq<usize>, module: usize)
    requires
        graph.dom().finite(),
    ensures
        linearized(graph, visiting, module) matches Ok(order) ==> {
            &&& is_ordered(graph, module, order)
            &&& forall|i: int| 0 <= i < order.len() ==> !visiting.contains(#[trigger] order[i])
            &&& forall|x: usize| #[trigger] order.contains(x) ==> reaches(graph, module, x)
        },
    decreases unvisited(graph, visiting), 0nat,
{
    let list = parents(graph, module);
    if let Ok(order) = linearized(graph, visiting, module) {
        lemma_reaches_itself(graph, module);
        if list.len() > 0 {
            let inner = visiting.push(module);
            lemma_visit(graph, visiting, module);
            lemma_linearized_all(graph, inner, list);
            let lins = linearized_all(graph, inner, list)->Ok_0;
            let seqs = lins.push(list);
            merge_keeps_order(seqs);
            let tail = merged(seqs)->0;
            assert(order =~= seq![module] + tail);
            // Every file behind the first one is part of the linearization of a dependency.
            assert forall|x: usize| #[trigger] tail.contains(x) implies exists|i: int|
                0 <= i < lins.len() && (#[trigger] lins[i]).contains(x) by {
                assert(occurs_in(seqs, x));
                let i = choose|i: int| 0 <= i < seqs.len() && (#[trigger] seqs[i]).contains(x);
                if i < lins.len() {
                    assert(lins[i].contains(x));
                } else {
                    let k = choose|k: int| 0 <= k < list.len() && list[k] == x;
                    assert(lins[k][0] == x);
                    assert(lins[k].contains(x));
                }
            }
            assert(inner[visiting.len() as int] == module);
            assert forall|x: usize| #[trigger] tail.contains(x) implies !inner.contains(x)
                && reaches(graph, module, x) by {
                let i = choose|i: int| 0 <= i < lins.len() && (#[trigger] lins[i]).contains(x);
                let j = choose|j: int| 0 <= j < lins[i].len() && lins[i][j] == x;
                assert(!inner.contains(lins[i][j]));
                assert(depends_on(graph, module, list[i]));
                lemma_reaches(graph, module, list[i], x);
            }
            assert(!tail.contains(module));
            assert forall|i: int| 0 <= i < order.len() implies !visiting.contains(
                #[trigger] order[i],
            ) by {
                if i > 0 {
                    assert(tail[i - 1] == order[i]);
                    assert(tail.contains(order[i]));
                    if visiting.contains(order[i]) {
                        let k = choose|k: int| 0 <= k < visiting.len() && visiting[k] == order[i];
                        assert(inner[k] == order[i]);
                    }
                }
            }
            assert forall|x: usize| #[trigger] order.contains(x) implies x == module
                || tail.contains(x) by {
                let i = choose|i: int| 0 <= i < order.len() && order[i] == x;
                if i > 0 {
                    assert(tail[i - 1] == x);
                }
            }
            assert(order.no_duplicates()) by {
                assert forall|p: int, q: int| 0 <= p < q < order.len() implies order[p]
                    != order[q] by {
                    assert(tail[q - 1] == order[q]);
                    if p == 0 {
                        assert(tail.contains(order[q]));
                    } else {
                        assert(tail[p - 1] == order[p]);
                    }
                }
            }
            assert forall|x: usize, y: usize| #[trigger] comes_before(tail, x, y) implies
                comes_before(order, x, y) by {
                let (p, q) = choose|p: int, q: int|
                    0 <= p < q < tail.len() && tail[p] == x && tail[q] == y;
                assert(order[p + 1] == x && order[q + 1] == y);
            }
            assert forall|x: usize, k: int|
                order.contains(x) && 0 <= k < parents(graph, x).len() implies comes_before(
                order,
                x,
                #[trigger] parents(graph, x)[k],
            ) by {
                let y = parents(graph, x)[k];
                if x == module {
                    assert(seqs[lins.len() as int][k] == y);
                    assert(seqs[lins.len() as int].contains(y));
                    assert(occurs_in(seqs, y));
                    assert(tail.contains(y));
                    let q = choose|q: int| 0 <= q < tail.len() && tail[q] == y;
                    assert(order[0] == x && order[q + 1] == y);
                } else {
                    let i = choose|i: int| 0 <= i < lins.len() && (#[trigger] lins[i]).contains(x);
                    assert(comes_before(lins[i], x, y));
                    lemma_lifted(seqs, i, x, y);
                }
            }
            assert forall|x: usize, a: int, b: int|
                order.contains(x) && 0 <= a < b < parents(graph, x).len() implies comes_before(
                order,
                #[trigger] parents(graph, x)[a],
                #[trigger] parents(graph, x)[b],
            ) by {
                let y = parents(graph, x)[a];
                let z = parents(graph, x)[b];
                if x == module {
                    assert(seqs[lins.len() as int][a] == y && seqs[lins.len() as int][b] == z);
                } else {
                    let i = choose|i: int| 0 <= i < lins.len() && (#[trigger] lins[i]).contains(x);
                    assert(comes_before(lins[i], y, z));
                    lemma_lifted(seqs, i, y, z);
                }
            }
        } else {
            assert(order =~= seq![module]);
            assert forall|x: usize| #[trigger] order.contains(x) implies x == module by {}
        }
    }
}

/// The order of a sequence is the order of the merge.
proof fn lemma_lifted(seqs: Seq<Seq<usize>>, i: int, x: usize, y: usize)
    requires
        merged(seqs) is Some,
        0 <= i < seqs.len(),
        comes_before(seqs[i], x, y),
    ensures
        comes_before(merged(seqs)->0, x, y),
{
    merge_keeps_order(seqs);
    let (p, q) = choose|p: int, q: int|
        0 <= p < q < seqs[i].len() && seqs[i][p] == x && seqs[i][q] == y;
    assert(comes_before(merged(seqs)->0, seqs[i][p], seqs[i][q]));
}

/// Each linearization is in order, holds only files that the file reaches and no file that is
/// being visited.
proof fn lemma_linearized_all(graph: Dependencies, visiting: Seq<usize>, list: Seq<usize>)
    requires
        graph.dom().finite(),
    ensures
        linearized_all(graph, visiting, list) matches Ok(lins) ==> {
            &&& lins.len() == list.len()
            &&& forall|i: int| 0 <= i < lins.len() ==> is_ordered(graph, list[i], #[trigger] lins[i])
            &&& forall|i: int, j: int|
                0 <= i < lins.len() && 0 <= j < lins[i].len() ==> !visiting.contains(
                    #[trigger] lins[i][j],
                )
            &&& forall|i: int, x: usize|
                0 <= i < lins.len() && #[trigger] lins[i].contains(x) ==> reaches(
                    graph,
                    list[i],
                    x,
                )
        },
    decreases unvisited(graph, visiting), list.len(),
{
    if list.len() > 0 {
        lemma_linearized_all(graph, visiting, list.drop_last());
        lemma_linearized(graph, visiting, list.last());
    }
}

/// A linearization starts with the file itself, has every file once, has each file before those
/// that it depends on, has these in the order in which the file lists them, and has exactly those
/// files that the file reaches.
pub proof fn linearization_is_ordered(graph: Dependencies, module: usize)
    requires
        graph.dom().finite(),
    ensures
        linearized(graph, Seq::empty(), module) matches Ok(order) ==> {
            &&& is_ordered(graph, module, order)
            &&& forall|x: usize| #[trigger] order.contains(x) <==> reaches(graph, module, x)
        },
{
    lemma_linearized(graph, Seq::empty(), module);
    if let Ok(order) = linearized(graph, Seq::empty(), module) {
        assert forall|x: usize| reaches(graph, module, x) implies #[trigger] order.contains(x) by {
            let path = choose|path: Seq<usize>| #[trigger]
                is_path(graph, path) && path.len() > 0 && path[0] == module && path.last() == x;
            lemma_path_in_order(graph, module, order, path);
        }
    }
}

/// An ordered linearization has all files of a path that starts at its first file.
proof fn lemma_path_in_order(
    graph: Dependencies,
    module: usize,
    order: Seq<usize>,
    path: Seq<usize>,
)
    requires
        is_ordered(graph, module, order),
        is_path(graph, path),
        path.len() > 0,
        path[0] == module,
    ensures
        order.contains(path.last()),
    decreases path.len(),
{
    if path.len() == 1 {
        assert(order[0] == module);
    } else {
        let shorter = path.drop_last();
        assert forall|i: int| 0 <= i < shorter.len() - 1 implies depends_on(
            graph,
            #[trigger] shorter[i],
            shorter[i + 1],
        ) by {
            assert(depends_on(graph, path[i], path[i + 1]));
        }
        lemma_path_in_order(graph, module, order, shorter);
        let x = shorter.last();
        assert(depends_on(graph, path[path.len() - 2], path[path.len() - 2 + 1]));
        let k = choose|k: int| 0 <= k < parents(graph, x).len() && parents(graph, x)[k] == path.last();
        assert(comes_before(order, x, parents(graph, x)[k]));
        let (p, q) = choose|p: int, q: int|
            0 <= p < q < order.len() && order[p] == x && order[q] == path.last();
        assert(order[q] == path.last());
    }
}

/// Whether each file of a list depends on the next one, and the last one on the first one.
pub open spec fn is_cycle(graph: Dependencies, files: Seq<usize>) -> bool {
    files.len() > 0 && is_path(graph, files) && depends_on(graph, files.last(), files[0])
}

/// Whether files are those of a cycle that is reached from a file, each of them once.
pub open spec fn is_reached_cycle(graph: Dependencies, root: usize, files: Seq<usize>) -> bool {
    &&& is_cycle(graph, files)
    &&& files.no_duplicates()
    &&& forall|i: int| 0 <= i < files.len() ==> reaches(graph, root, #[trigger] files[i])
}

/// Whether the files that are being visited form a path that leads from the first file to the next
/// one, and are there once.
pub open spec fn leads_to(
    graph: Dependencies,
    root: usize,
    visiting: Seq<usize>,
    module: usize,
) -> bool {
    &&& is_path(graph, visiting)
    &&& visiting.no_duplicates()
    &&& if visiting.len() > 0 {
        visiting[0] == root && depends_on(graph, visiting.last(), module)
    } else {
        module == root
    }
}

/// If a path leads back to one of its files, then the files from there on are a cycle.
pub proof fn lemma_closed_path(
    graph: Dependencies,
    root: usize,
    visiting: Seq<usize>,
    module: usize,
)
    requires
        leads_to(graph, root, visiting, module),
        visiting.contains(module),
    ensures
        is_reached_cycle(
            graph,
            root,
            visiting.skip(first_position(visiting, module) as int),
        ),
        module != visiting.last() ==> visiting.skip(
            first_position(visiting, module) as int,
        ).len() >= 2,
{
    let n = first_position(visiting, module) as int;
    lemma_found(visiting, module);
    let files = visiting.skip(n);
    assert forall|i: int| 0 <= i < files.len() - 1 implies depends_on(
        graph,
        #[trigger] files[i],
        files[i + 1],
    ) by {
        assert(depends_on(graph, visiting[n + i], visiting[n + i + 1]));
    }
    assert(files.last() == visiting.last());
    assert(files[0] == module);
    assert forall|i: int, j: int| 0 <= i < j < files.len() implies files[i] != files[j] by {
        assert(visiting[n + i] != visiting[n + j]);
    }
    assert forall|i: int| 0 <= i < files.len() implies reaches(graph, root, #[trigger] files[i]) by {
        let path = visiting.take(n + i + 1);
        assert forall|k: int| 0 <= k < path.len() - 1 implies depends_on(
            graph,
            #[trigger] path[k],
            path[k + 1],
        ) by {
            assert(depends_on(graph, visiting[k], visiting[k + 1]));
        }
        assert(is_path(graph, path) && path[0] == root && path.last() == files[i]);
    }
}

/// A path stays a path when the file that it leads to is visited.
pub proof fn lemma_longer_path(
    graph: Dependencies,
    root: usize,
    visiting: Seq<usize>,
    module: usize,
)
    requires
        leads_to(graph, root, visiting, module),
        !visiting.contains(module),
    ensures
        forall|next: usize| #[trigger]
            depends_on(graph, module, next) ==> leads_to(
                graph,
                root,
                visiting.push(module),
                next,
            ),
{
    let inner = visiting.push(module);
    assert forall|i: int| 0 <= i < inner.len() - 1 implies depends_on(
        graph,
        #[trigger] inner[i],
        inner[i + 1],
    ) by {
        if i < visiting.len() - 1 {
            assert(depends_on(graph, visiting[i], visiting[i + 1]));
        }
    }
    assert(is_path(graph, inner));
    assert(inner.no_duplicates());
}

/// A reported cycle is a cycle that is reached from the first file.
proof fn lemma_cycle(graph: Dependencies, root: usize, visiting: Seq<usize>, module: usize)
    requires
        graph.dom().finite(),
        leads_to(graph, root, visiting, module),
    ensures
        linearized(graph, visiting, module) matches Err(C3Error::CycleDetected(files))
            ==> is_reached_cycle(graph, root, files),
    decreases unvisited(graph, visiting), 0nat,
{
    if visiting.contains(module) {
        lemma_closed_path(graph, root, visiting, module);
    } else if parents(graph, module).len() > 0 {
        lemma_visit(graph, visiting, module);
        lemma_longer_path(graph, root, visiting, module);
        let list = parents(graph, module);
        assert forall|k: int| 0 <= k < list.len() implies leads_to(
            graph,
            root,
            visiting.push(module),
            #[trigger] list[k],
        ) by {
            assert(depends_on(graph, module, list[k]));
        }
        lemma_cycle_all(graph, root, visiting.push(module), list);
    }
}

/// The first position of a file that occurs is a position of the file.
pub proof fn lemma_found(files: Seq<usize>, module: usize)
    requires
        files.contains(module),
    ensures
        first_position(files, module) < files.len(),
        files[first_position(files, module) as int] == module,
    decreases files.len(),
{
    if files[0] != module {
        let i = choose|i: int| 0 <= i < files.len() && files[i] == module;
        assert(files.drop_first()[i - 1] == module);
        lemma_found(files.drop_first(), module);
    }
}

/// A reported cycle is a cycle that is reached from the first file.
proof fn lemma_cycle_all(
    graph: Dependencies,
    root: usize,
    visiting: Seq<usize>,
    list: Seq<usize>,
)
    requires
        graph.dom().finite(),
        forall|k: int|
            0 <= k < list.len() ==> leads_to(graph, root, visiting, #[trigger] list[k]),
    ensures
        linearized_all(graph, visiting, list) matches Err(C3Error::CycleDetected(files))
            ==> is_reached_cycle(graph, root, files),
    decreases unvisited(graph, visiting), list.len(),
{
    if list.len() > 0 {
        let shorter = list.drop_last();
        assert forall|k: int| 0 <= k < shorter.len() implies leads_to(
            graph,
            root,
            visiting,
            #[trigger] shorter[k],
        ) by {
            assert(shorter[k] == list[k]);
        }
        lemma_cycle_all(graph, root, visiting, shorter);
        assert(leads_to(graph, root, visiting, list[list.len() - 1]));
        lemma_cycle(graph, root, visiting, list.last());
    }
}

/// The files of a cycle that a linearization reports depend on each other in a cycle. Each of them
/// is there once, and is reached from the linearized file.
pub proof fn reported_cycle_is_cycle(graph: Dependencies, module: usize)
    requires
        graph.dom().finite(),
    ensures
        linearized(graph, Seq::empty(), module) matches Err(C3Error::CycleDetected(files))
            ==> is_reached_cycle(graph, module, files),
{
    lemma_cycle(graph, module, Seq::empty(), module);
}

/// If a file has a linearization, then no files that it reaches depend on each other in a cycle.
pub proof fn linearization_rules_out_cycles(graph: Dependencies, module: usize, files: Seq<usize>)
    requires
        graph.dom().finite(),
        linearized(graph, Seq::empty(), module) is Ok,
        files.len() > 0,
        reaches(graph, module, files[0]),
    ensures
        !is_cycle(graph, files),
{
    let order = linearized(graph, Seq::empty(), module)->Ok_0;
    linearization_is_ordered(graph, module);
    assert(order.contains(files[0]));
    if is_cycle(graph, files) {
        lemma_path_goes_on(graph, module, order, files, files.len() - 1);
        lemma_dependency_is_later(graph, module, order, files.last(), files[0]);
    }
}

/// Along a path, files come ever later in an ordered linearization.
proof fn lemma_path_goes_on(
    graph: Dependencies,
    module: usize,
    order: Seq<usize>,
    path: Seq<usize>,
    n: int,
)
    requires
        is_ordered(graph, module, order),
        is_path(graph, path),
        0 <= n < path.len(),
        order.contains(path[0]),
    ensures
        order.contains(path[n]),
        order.index_of(path[0]) <= order.index_of(path[n]),
    decreases n,
{
    if n > 0 {
        lemma_path_goes_on(graph, module, order, path, n - 1);
        lemma_dependency_is_later(graph, module, order, path[n - 1], path[n - 1 + 1]);
    }
}

/// A file that another one depends on comes later in an ordered linearization.
proof fn lemma_dependency_is_later(
    graph: Dependencies,
    module: usize,
    order: Seq<usize>,
    x: usize,
    y: usize,
)
    requires
        is_ordered(graph, module, order),
        order.contains(x),
        depends_on(graph, x, y),
    ensures
        order.contains(y),
        order.index_of(x) < order.index_of(y),
{
    let list = parents(graph, x);
    let k = choose|k: int| 0 <= k < list.len() && list[k] == y;
    assert(comes_before(order, x, list[k]));
    let (p, q) = choose|p: int, q: int|
        0 <= p < q < order.len() && order[p] == x && order[q] == y;
    assert(order[order.index_of(x)] == x);
    assert(order[order.index_of(y)] == y);
}

} // verus!
