//! In which order files are linearized and loaded.
use super::dfs::{searched, searched_all};
use super::dfs_laws::{are_new, is_bottom_up, lemma_searched, lemma_searched_all};
use super::linearize::{
    lemma_independent, lemma_visit, linearized, linearized_all, parents, C3Error, Dependencies,
};
use super::linearize_laws::{
    depends_on, is_cycle, is_path, linearization_is_ordered, linearization_rules_out_cycles,
    reaches,
};
use super::merge::{
    comes_before, is_candidate, is_first_candidate, merge_fails_only_on_contradiction,
    merge_keeps_order, merged, without_fronts,
};
use vstd::prelude::*;

verus! {

/// Whether a sequence starts with an element that no sequence has behind its start.
pub open spec fn starts_with_free(seqs: Seq<Seq<usize>>, i: int) -> bool {
    &&& seqs[i].len() > 0
    &&& forall|k: int, j: int|
        0 <= k < seqs.len() && 1 <= j < seqs[k].len() ==> #[trigger] seqs[k][j] != seqs[i][0]
}

/// A merge starts with the front element of the first sequence whose front element no sequence has
/// further behind. The rest is the merge of the sequences from whose fronts that element was
/// removed.
pub proof fn merge_takes_first_free_element(seqs: Seq<Seq<usize>>, rest: Seq<Seq<usize>>, i: int)
    requires
        0 <= i < seqs.len(),
        starts_with_free(seqs, i),
        forall|j: int| 0 <= j < i ==> !#[trigger] starts_with_free(seqs, j),
        rest.len() == seqs.len(),
        forall|j: int|
            0 <= j < seqs.len() ==> #[trigger] rest[j] == if seqs[j].len() > 0 && seqs[j][0]
                == seqs[i][0] {
                seqs[j].drop_first()
            } else {
                seqs[j]
            },
    ensures
        match merged(rest) {
            Some(tail) => merged(seqs) == Some(seq![seqs[i][0]] + tail),
            None => merged(seqs) is None,
        },
{
    assert(is_candidate(seqs, i));
    assert forall|j: int| 0 <= j < i implies !is_candidate(seqs, j) by {
        assert(!starts_with_free(seqs, j));
    }
    assert(is_first_candidate(seqs, i));
    let first = choose|j: int| is_first_candidate(seqs, j);
    assert(first == i) by {
        assert(is_first_candidate(seqs, first));
        if first < i {
            assert(!is_candidate(seqs, first));
        } else if i < first {
            assert(!is_candidate(seqs, i));
        }
    }
    assert(rest =~= without_fronts(seqs, seqs[i][0]));
}

/// If no sequence starts with an element that no sequence has further behind, there is no merge,
/// unless all sequences are empty.
pub proof fn merge_needs_free_element(seqs: Seq<Seq<usize>>)
    requires
        forall|i: int| 0 <= i < seqs.len() ==> !#[trigger] starts_with_free(seqs, i),
    ensures
        merged(seqs) == if forall|i: int| 0 <= i < seqs.len() ==> (#[trigger] seqs[i]).len() == 0 {
            Some(Seq::<usize>::empty())
        } else {
            None
        },
{
    assert forall|i: int| !is_first_candidate(seqs, i) by {
        if is_candidate(seqs, i) {
            assert(starts_with_free(seqs, i));
        }
    }
}

/// The linearizations of files, one for each.
proof fn lemma_each(graph: Dependencies, visiting: Seq<usize>, list: Seq<usize>)
    requires
        graph.dom().finite(),
    ensures
        linearized_all(graph, visiting, list) matches Ok(seqs) ==> seqs.len() == list.len()
            && forall|i: int|
            #![trigger list[i]]
            0 <= i < list.len() ==> (linearized(graph, visiting, list[i]) matches Ok(lin) && lin
                == seqs[i]),
        (forall|i: int|
            0 <= i < list.len() ==> linearized(graph, visiting, #[trigger] list[i]) is Ok)
            ==> linearized_all(graph, visiting, list) is Ok,
    decreases list.len(),
{
    if list.len() > 0 {
        let shorter = list.drop_last();
        lemma_each(graph, visiting, shorter);
        assert(list[list.len() - 1] == list.last());
        assert forall|i: int| 0 <= i < shorter.len() implies #[trigger] shorter[i] == list[i] by {}
        if let Ok(seqs) = linearized_all(graph, visiting, list) {
            assert forall|i: int|
                #![trigger list[i]]
                0 <= i < list.len() implies (linearized(graph, visiting, list[i]) matches Ok(lin)
                && lin == seqs[i]) by {
                if i < shorter.len() {
                    assert(shorter[i] == list[i]);
                }
            }
        }
        if forall|i: int|
            0 <= i < list.len() ==> linearized(graph, visiting, #[trigger] list[i]) is Ok {
            assert forall|i: int| 0 <= i < shorter.len() implies linearized(
                graph,
                visiting,
                #[trigger] shorter[i],
            ) is Ok by {
                assert(shorter[i] == list[i]);
            }
        }
    }
}

/// A file that is reached reaches the files that it depends on.
proof fn lemma_reaches_next(graph: Dependencies, x: usize, y: usize, z: usize)
    requires
        reaches(graph, x, y),
        depends_on(graph, y, z),
    ensures
        reaches(graph, x, z),
{
    let path = choose|path: Seq<usize>| #[trigger]
        is_path(graph, path) && path.len() > 0 && path[0] == x && path.last() == y;
    let longer = path.push(z);
    assert forall|i: int| 0 <= i < longer.len() - 1 implies depends_on(
        graph,
        #[trigger] longer[i],
        longer[i + 1],
    ) by {
        if i < path.len() - 1 {
            assert(depends_on(graph, path[i], path[i + 1]));
        } else {
            assert(longer[i] == path.last());
        }
    }
    assert(is_path(graph, longer));
    assert(longer[0] == x && longer.last() == z);
}

/// While a file that another one does not reach is being visited, the other one is linearized as if
/// it were not.
proof fn lemma_apart(graph: Dependencies, module: usize, p: usize)
    requires
        graph.dom().finite(),
        !reaches(graph, p, module),
    ensures
        linearized(graph, seq![module], p) == linearized(graph, Seq::empty(), p),
{
    let modules = Set::new(|x: usize| reaches(graph, p, x));
    assert(modules.contains(p)) by {
        let path = seq![p];
        assert(is_path(graph, path));
        assert(path[0] == p && path.last() == p);
    }
    assert forall|m: usize, i: int|
        modules.contains(m) && 0 <= i < parents(graph, m).len() implies modules.contains(
        #[trigger] parents(graph, m)[i],
    ) by {
        assert(depends_on(graph, m, parents(graph, m)[i]));
        lemma_reaches_next(graph, p, m, parents(graph, m)[i]);
    }
    let none = Seq::<usize>::empty();
    lemma_independent(graph, modules, seq![module], none, none, p);
    assert(seq![module] + none =~= seq![module]);
    assert(none + none =~= none);
}

/// A file that has a linearization is not reached from the files that it depends on.
proof fn lemma_not_reached(graph: Dependencies, module: usize, p: usize)
    requires
        graph.dom().finite(),
        linearized(graph, Seq::empty(), module) is Ok,
        depends_on(graph, module, p),
    ensures
        !reaches(graph, p, module),
{
    if reaches(graph, p, module) {
        let path = choose|path: Seq<usize>| #[trigger]
            is_path(graph, path) && path.len() > 0 && path[0] == p && path.last() == module;
        assert(is_cycle(graph, path));
        linearization_is_ordered(graph, module);
        let order = linearized(graph, Seq::empty(), module)->Ok_0;
        assert(reaches(graph, module, p)) by {
            let step = seq![module, p];
            assert forall|i: int| 0 <= i < step.len() - 1 implies depends_on(
                graph,
                #[trigger] step[i],
                step[i + 1],
            ) by {}
            assert(is_path(graph, step));
            assert(step[0] == module && step.last() == p);
        }
        linearization_rules_out_cycles(graph, module, path);
    }
}

/// Linearizations are monotonic: if a file has a linearization, then so have the files that it
/// depends on, and the linearization of the file has the files of theirs in the same order.
pub proof fn linearization_is_monotonic(graph: Dependencies, module: usize, k: int)
    requires
        graph.dom().finite(),
        linearized(graph, Seq::empty(), module) is Ok,
        0 <= k < parents(graph, module).len(),
    ensures
        linearized(graph, Seq::empty(), parents(graph, module)[k]) matches Ok(lin) && forall|
            a: int,
            b: int,
        |
            0 <= a < b < lin.len() ==> comes_before(
                linearized(graph, Seq::empty(), module)->Ok_0,
                #[trigger] lin[a],
                #[trigger] lin[b],
            ),
{
    let list = parents(graph, module);
    let p = list[k];
    assert(depends_on(graph, module, p));
    lemma_not_reached(graph, module, p);
    lemma_apart(graph, module, p);
    lemma_visit(graph, Seq::empty(), module);
    assert(Seq::<usize>::empty().push(module) =~= seq![module]);
    lemma_each(graph, seq![module], list);
    let lins = linearized_all(graph, seq![module], list)->Ok_0;
    let all = lins.push(list);
    merge_keeps_order(all);
    let tail = merged(all)->0;
    let order = linearized(graph, Seq::empty(), module)->Ok_0;
    let lin = linearized(graph, Seq::empty(), p)->Ok_0;
    assert(all[k] == lin);
    assert forall|a: int, b: int| 0 <= a < b < lin.len() implies comes_before(
        order,
        #[trigger] lin[a],
        #[trigger] lin[b],
    ) by {
        assert(comes_before(tail, all[k][a], all[k][b]));
        let (x, y) = choose|x: int, y: int|
            0 <= x < y < tail.len() && tail[x] == lin[a] && tail[y] == lin[b];
        assert(order[x + 1] == lin[a] && order[y + 1] == lin[b]);
    }
}

/// A file has a linearization whenever the files that it depends on have linearizations and do not
/// reach it, and some order without repetitions has the files of these linearizations, and the
/// files that it depends on, in their order. So a linearization fails only on a cycle or a
/// contradiction.
pub proof fn consistent_files_are_linearized(
    graph: Dependencies,
    module: usize,
    lins: Seq<Seq<usize>>,
    order: Seq<usize>,
)
    requires
        graph.dom().finite(),
        lins.len() == parents(graph, module).len(),
        forall|i: int|
            0 <= i < lins.len() ==> linearized(
                graph,
                Seq::empty(),
                #[trigger] parents(graph, module)[i],
            ) == Ok::<Seq<usize>, C3Error<Seq<usize>>>(lins[i]) && !reaches(
                graph,
                parents(graph, module)[i],
                module,
            ),
        order.no_duplicates(),
        forall|i: int, a: int, b: int|
            0 <= i < lins.len() && 0 <= a < b < lins[i].len() ==> comes_before(
                order,
                #[trigger] lins[i][a],
                #[trigger] lins[i][b],
            ),
        forall|a: int, b: int|
            0 <= a < b < parents(graph, module).len() ==> comes_before(
                order,
                #[trigger] parents(graph, module)[a],
                #[trigger] parents(graph, module)[b],
            ),
    ensures
        linearized(graph, Seq::empty(), module) is Ok,
{
    let list = parents(graph, module);
    if list.len() > 0 {
        lemma_visit(graph, Seq::empty(), module);
        assert(Seq::<usize>::empty().push(module) =~= seq![module]);
        assert forall|i: int| 0 <= i < list.len() implies linearized(
            graph,
            seq![module],
            #[trigger] list[i],
        ) == Ok::<Seq<usize>, C3Error<Seq<usize>>>(lins[i]) by {
            lemma_apart(graph, module, list[i]);
        }
        lemma_each(graph, seq![module], list);
        let found = linearized_all(graph, seq![module], list)->Ok_0;
        assert(found =~= lins) by {
            assert forall|i: int| 0 <= i < list.len() implies found[i] == lins[i] by {
                assert(linearized(graph, seq![module], list[i]) == Ok::<
                    Seq<usize>,
                    C3Error<Seq<usize>>,
                >(lins[i]));
            }
        }
        let all = lins.push(list);
        assert forall|i: int, a: int, b: int|
            0 <= i < all.len() && 0 <= a < b < all[i].len() implies comes_before(
            order,
            #[trigger] all[i][a],
            #[trigger] all[i][b],
        ) by {
            if i < lins.len() {
                assert(all[i] == lins[i]);
                assert(comes_before(order, lins[i][a], lins[i][b]));
            } else {
                assert(all[i] == list);
                assert(comes_before(order, list[a], list[b]));
            }
        }
        merge_fails_only_on_contradiction(all, order);
    }
}

/// The files that were loaded for the first imports of the main file are those that these imports
/// reach.
proof fn lemma_loaded_for(graph: Dependencies, root: usize, n: int)
    requires
        graph.dom().finite(),
        0 <= n <= parents(graph, root).len(),
        searched_all(graph, Seq::empty(), seq![root], root, parents(graph, root)) is Ok,
    ensures
        searched_all(
            graph,
            Seq::empty(),
            seq![root],
            root,
            parents(graph, root).take(n),
        ) matches Ok(after) && {
            &&& is_bottom_up(graph, after)
            &&& after.is_prefix_of(
                searched_all(graph, Seq::empty(), seq![root], root, parents(graph, root))->Ok_0,
            )
            &&& forall|k: int|
                0 <= k < n && #[trigger] parents(graph, root)[k] != root ==> after.contains(
                    parents(graph, root)[k],
                )
            &&& forall|i: int|
                0 <= i < after.len() ==> exists|j: int|
                    0 <= j < n && reaches(
                        graph,
                        #[trigger] parents(graph, root)[j],
                        #[trigger] after[i],
                    )
        },
{
    lemma_prefix_loaded(graph, root, n);
    lemma_reached_by_first(graph, root, n);
    let list = parents(graph, root);
    let some = list.take(n);
    assert forall|k: int| 0 <= k < some.len() implies depends_on(
        graph,
        root,
        #[trigger] some[k],
    ) by {
        assert(some[k] == list[k]);
    }
    assert(is_bottom_up(graph, Seq::empty()));
    lemma_searched_all(graph, Seq::empty(), seq![root], root, some);
    let after = searched_all(graph, Seq::empty(), seq![root], root, some)->Ok_0;
    assert forall|k: int| 0 <= k < n && #[trigger] list[k] != root implies after.contains(
        list[k],
    ) by {
        assert(some[k] == list[k]);
    }
}

/// What was loaded for the first imports is still there at the end.
proof fn lemma_prefix_loaded(graph: Dependencies, root: usize, n: int)
    requires
        graph.dom().finite(),
        0 <= n <= parents(graph, root).len(),
        searched_all(graph, Seq::empty(), seq![root], root, parents(graph, root)) is Ok,
    ensures
        searched_all(
            graph,
            Seq::empty(),
            seq![root],
            root,
            parents(graph, root).take(n),
        ) matches Ok(after) && after.is_prefix_of(
            searched_all(graph, Seq::empty(), seq![root], root, parents(graph, root))->Ok_0,
        ),
    decreases parents(graph, root).len() - n,
{
    let list = parents(graph, root);
    let end = searched_all(graph, Seq::empty(), seq![root], root, list)->Ok_0;
    if n == list.len() {
        assert(list.take(n) =~= list);
        assert(end =~= end.subrange(0, end.len() as int));
    } else {
        lemma_prefix_loaded(graph, root, n + 1);
        let some = list.take(n);
        assert(list.take(n + 1).drop_last() =~= some);
        assert(list.take(n + 1).last() == list[n]);
        assert forall|k: int| 0 <= k < some.len() implies depends_on(
            graph,
            root,
            #[trigger] some[k],
        ) by {
            assert(some[k] == list[k]);
        }
        assert(is_bottom_up(graph, Seq::empty()));
        lemma_searched_all(graph, Seq::empty(), seq![root], root, some);
        let before = searched_all(graph, Seq::empty(), seq![root], root, some)->Ok_0;
        let after = searched_all(graph, Seq::empty(), seq![root], root, list.take(n + 1))->Ok_0;
        if list[n] != root {
            lemma_searched(graph, before, seq![root], list[n]);
            assert(before.is_prefix_of(after));
            assert(before =~= end.subrange(0, before.len() as int)) by {
                assert(before =~= after.subrange(0, before.len() as int));
                assert(after =~= end.subrange(0, after.len() as int));
            }
        }
    }
}

/// Files that were loaded for the first imports are reached from one of them.
proof fn lemma_reached_by_first(graph: Dependencies, root: usize, n: int)
    requires
        graph.dom().finite(),
        0 <= n <= parents(graph, root).len(),
    ensures
        searched_all(
            graph,
            Seq::empty(),
            seq![root],
            root,
            parents(graph, root).take(n),
        ) matches Ok(after) ==> forall|i: int|
            0 <= i < after.len() ==> exists|j: int|
                0 <= j < n && reaches(
                    graph,
                    #[trigger] parents(graph, root)[j],
                    #[trigger] after[i],
                ),
    decreases n,
{
    let list = parents(graph, root);
    if n > 0 {
        let some = list.take(n - 1);
        lemma_reached_by_first(graph, root, n - 1);
        assert(list.take(n).drop_last() =~= some);
        assert(list.take(n).last() == list[n - 1]);
        assert forall|k: int| 0 <= k < some.len() implies depends_on(
            graph,
            root,
            #[trigger] some[k],
        ) by {
            assert(some[k] == list[k]);
        }
        assert(is_bottom_up(graph, Seq::empty()));
        lemma_searched_all(graph, Seq::empty(), seq![root], root, some);
        if let Ok(after) = searched_all(graph, Seq::empty(), seq![root], root, list.take(n)) {
            let before = searched_all(graph, Seq::empty(), seq![root], root, some)->Ok_0;
            if list[n - 1] != root {
                lemma_searched(graph, before, seq![root], list[n - 1]);
                assert(are_new(graph, before, after, seq![root], list[n - 1]));
            }
            assert forall|i: int| 0 <= i < after.len() implies exists|j: int|
                0 <= j < n && reaches(graph, #[trigger] list[j], #[trigger] after[i]) by {
                if i < before.len() {
                    assert(before =~= after.subrange(0, before.len() as int));
                    assert(after[i] == before[i]);
                    let j = choose|j: int|
                        0 <= j < n - 1 && reaches(graph, #[trigger] list[j], before[i]);
                    assert(reaches(graph, list[j], after[i]));
                } else {
                    assert(reaches(graph, list[n - 1], after[i]));
                }
            }
        }
    } else {
        assert(list.take(0) =~= Seq::empty());
    }
}

/// Files are loaded in the order in which the main file imports them: up to the place of an
/// imported file, the load order has only files that this import or an earlier one reaches.
pub proof fn load_order_follows_imports(graph: Dependencies, root: usize, k: int, i: int)
    requires
        graph.dom().finite(),
        searched(graph, Seq::empty(), Seq::empty(), root) is Ok,
        0 <= k < parents(graph, root).len(),
        parents(graph, root)[k] != root,
        0 <= i <= searched(graph, Seq::empty(), Seq::empty(), root)->Ok_0.index_of(
            parents(graph, root)[k],
        ),
    ensures
        exists|j: int|
            0 <= j <= k && reaches(
                graph,
                #[trigger] parents(graph, root)[j],
                searched(graph, Seq::empty(), Seq::empty(), root)->Ok_0[i],
            ),
{
    let list = parents(graph, root);
    lemma_visit(graph, Seq::empty(), root);
    assert(Seq::<usize>::empty().push(root) =~= seq![root]);
    let all = searched_all(graph, Seq::empty(), seq![root], root, list)->Ok_0;
    let order = searched(graph, Seq::empty(), Seq::empty(), root)->Ok_0;
    assert(order == all.push(root));
    lemma_loaded_for(graph, root, k + 1);
    let after = searched_all(graph, Seq::empty(), seq![root], root, list.take(k + 1))->Ok_0;
    assert(after.contains(list[k]));
    let at = choose|at: int| 0 <= at < after.len() && after[at] == list[k];
    assert(after =~= all.subrange(0, after.len() as int));
    assert(order[at] == list[k]);
    super::dfs_laws::load_order_is_bottom_up(graph, root);
    assert(order.no_duplicates());
    assert(order.index_of(list[k]) == at) by {
        assert(order.contains(list[k]));
        assert(order[order.index_of(list[k])] == list[k]);
    }
    assert(after[i] == order[i]);
    let j = choose|j: int| 0 <= j < k + 1 && reaches(graph, #[trigger] list[j], after[i]);
    assert(reaches(graph, list[j], order[i]));
}

} // verus!
