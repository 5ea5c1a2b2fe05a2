//! Linearization of the files of a project by the C3 algorithm.
use crate::driver::merge::{merge, merged, views};
use std::collections::HashMap;
use vstd::prelude::*;

verus! {

/// Why the files of a project cannot be linearized. Lists of files are of type `Files`.
#[derive(Debug)]
pub enum C3Error<Files = Vec<usize>> {
    /// The files import each other in a cycle.
    CycleDetected(Files),
    /// The imports of a module demand contradictory orders.
    InconsistentLinearization { module: usize },
}

/// What a contract says of a failed linearization.
pub type C3ErrorView = C3Error<Seq<usize>>;

impl View for C3Error {
    type V = C3ErrorView;

    open spec fn view(&self) -> C3ErrorView {
        match self {
            C3Error::CycleDetected(files) => C3Error::CycleDetected(files@),
            C3Error::InconsistentLinearization { module } => C3Error::InconsistentLinearization {
                module: *module,
            },
        }
    }
}

/// For each file the files that it depends on.
pub type Dependencies = Map<usize, Seq<usize>>;

/// The dependencies that a table stands for.
pub open spec fn dependencies_view(table: Map<usize, Vec<usize>>) -> Dependencies {
    table.map_values(|files: Vec<usize>| files@)
}

/// The files that a file depends on.
pub open spec fn parents(graph: Dependencies, module: usize) -> Seq<usize> {
    if graph.contains_key(module) {
        graph[module]
    } else {
        Seq::empty()
    }
}

/// The number of files with dependencies that are not being visited.
pub open spec fn unvisited(graph: Dependencies, visiting: Seq<usize>) -> nat {
    graph.dom().difference(visiting.to_set()).len()
}

/// The position of the first occurrence of an element.
pub open spec fn first_position(files: Seq<usize>, module: usize) -> nat
    decreases files.len(),
{
    if files.len() == 0 || files[0] == module {
        0
    } else {
        1 + first_position(files.drop_first(), module)
    }
}

/// The files of a longer list.
pub proof fn lemma_push(files: Seq<usize>, module: usize)
    ensures
        files.push(module).to_set() == files.to_set().insert(module),
{
    assert forall|x: usize| #[trigger]
        files.push(module).contains(x) <==> (files.contains(x) || x == module) by {
        if files.contains(x) {
            let i = choose|i: int| 0 <= i < files.len() && files[i] == x;
            assert(files.push(module)[i] == x);
        }
        assert(files.push(module)[files.len() as int] == module);
    }
    assert forall|x: usize| #[trigger]
        files.push(module).to_set().contains(x) <==> files.to_set().insert(module).contains(x) by {
        assert(files.push(module).contains(x) <==> (files.contains(x) || x == module));
    }
    assert(files.push(module).to_set() =~= files.to_set().insert(module));
}

/// Visiting a file leaves fewer files to visit.
pub proof fn lemma_visit(graph: Dependencies, visiting: Seq<usize>, module: usize)
    requires
        graph.dom().finite(),
        graph.contains_key(module),
        !visiting.contains(module),
    ensures
        unvisited(graph, visiting.push(module)) < unvisited(graph, visiting),
{
    let before = graph.dom().difference(visiting.to_set());
    lemma_push(visiting, module);
    assert(graph.dom().difference(visiting.push(module).to_set()) =~= before.remove(module));
}

/// The linearization of a file while other files are being visited: the file itself, and then
/// the merge of the linearizations of the files that it depends on with the list of these files.
///
/// A file that is being visited already is part of a cycle.
pub open spec fn linearized(graph: Dependencies, visiting: Seq<usize>, module: usize) -> Result<
    Seq<usize>,
    C3ErrorView,
>
    decreases unvisited(graph, visiting), 0nat,
    when graph.dom().finite()
{
    if visiting.contains(module) {
        Err(C3Error::CycleDetected(visiting.skip(first_position(visiting, module) as int)))
    } else if parents(graph, module).len() == 0 {
        Ok(seq![module])
    } else {
        proof {
            lemma_visit(graph, visiting, module);
        }
        match linearized_all(graph, visiting.push(module), parents(graph, module)) {
            Err(e) => Err(e),
            Ok(seqs) => match merged(seqs.push(parents(graph, module))) {
                Some(tail) => Ok(seq![module] + tail),
                None => Err(C3Error::InconsistentLinearization { module }),
            },
        }
    }
}

/// The linearization of each file, or else the first error.
pub open spec fn linearized_all(
    graph: Dependencies,
    visiting: Seq<usize>,
    modules: Seq<usize>,
) -> Result<Seq<Seq<usize>>, C3ErrorView>
    decreases unvisited(graph, visiting), modules.len(),
    when graph.dom().finite()
{
    if modules.len() == 0 {
        Ok(Seq::empty())
    } else {
        match linearized_all(graph, visiting, modules.drop_last()) {
            Err(e) => Err(e),
            Ok(seqs) => match linearized(graph, visiting, modules.last()) {
                Err(e) => Err(e),
                Ok(seq) => Ok(seqs.push(seq)),
            },
        }
    }
}

/// Whether the files depend only on files among them.
pub open spec fn is_closed(graph: Dependencies, modules: Set<usize>) -> bool {
    forall|m: usize, i: int|
        modules.contains(m) && 0 <= i < parents(graph, m).len() ==> modules.contains(
            #[trigger] parents(graph, m)[i],
        )
}

/// Whether none of the files is among the others.
pub open spec fn is_apart(files: Seq<usize>, modules: Set<usize>) -> bool {
    forall|i: int| 0 <= i < files.len() ==> !modules.contains(#[trigger] files[i])
}

/// The position of a file that is not among the first files.
proof fn lemma_first_position(first: Seq<usize>, second: Seq<usize>, module: usize)
    requires
        !first.contains(module),
    ensures
        (first + second).skip(first_position(first + second, module) as int) == second.skip(
            first_position(second, module) as int,
        ),
    decreases first.len(),
{
    if first.len() == 0 {
        assert(first + second =~= second);
    } else {
        assert(first[0] != module);
        assert forall|x: usize| first.drop_first().contains(x) implies first.contains(x) by {
            let i = choose|i: int|
                0 <= i < first.drop_first().len() && first.drop_first()[i] == x;
            assert(first[i + 1] == x);
        }
        lemma_first_position(first.drop_first(), second, module);
        assert((first + second).drop_first() =~= first.drop_first() + second);
        let n = first_position(first.drop_first() + second, module) as int;
        lemma_position_bound(first.drop_first() + second, module);
        assert((first + second).skip(n + 1) =~= (first.drop_first() + second).skip(n));
    }
}

/// The position of a file is at most the number of files.
proof fn lemma_position_bound(files: Seq<usize>, module: usize)
    ensures
        first_position(files, module) <= files.len(),
    decreases files.len(),
{
    if files.len() > 0 {
        lemma_position_bound(files.drop_first(), module);
    }
}

/// The linearization of a file does not depend on visited files that it cannot reach.
pub proof fn lemma_independent(
    graph: Dependencies,
    modules: Set<usize>,
    a: Seq<usize>,
    b: Seq<usize>,
    path: Seq<usize>,
    module: usize,
)
    requires
        graph.dom().finite(),
        is_closed(graph, modules),
        is_apart(a, modules),
        is_apart(b, modules),
        modules.contains(module),
    ensures
        linearized(graph, a + path, module) == linearized(graph, b + path, module),
    decreases unvisited(graph, a + path), 0nat,
{
    assert(!a.contains(module));
    assert(!b.contains(module));
    lemma_first_position(a, path, module);
    lemma_first_position(b, path, module);
    assert((a + path).contains(module) == path.contains(module)) by {
        if path.contains(module) {
            let i = choose|i: int| 0 <= i < path.len() && path[i] == module;
            assert((a + path)[a.len() + i] == module);
        }
    }
    assert((b + path).contains(module) == path.contains(module)) by {
        if path.contains(module) {
            let i = choose|i: int| 0 <= i < path.len() && path[i] == module;
            assert((b + path)[b.len() + i] == module);
        }
    }
    if !path.contains(module) && parents(graph, module).len() > 0 {
        lemma_visit(graph, a + path, module);
        lemma_visit(graph, b + path, module);
        assert((a + path).push(module) =~= a + path.push(module));
        assert((b + path).push(module) =~= b + path.push(module));
        assert forall|i: int| 0 <= i < parents(graph, module).len() implies modules.contains(
            #[trigger] parents(graph, module)[i],
        ) by {}
        lemma_independent_all(graph, modules, a, b, path.push(module), parents(graph, module));
    }
}

/// The linearization of files does not depend on visited files that they cannot reach.
proof fn lemma_independent_all(
    graph: Dependencies,
    modules: Set<usize>,
    a: Seq<usize>,
    b: Seq<usize>,
    path: Seq<usize>,
    list: Seq<usize>,
)
    requires
        graph.dom().finite(),
        is_closed(graph, modules),
        is_apart(a, modules),
        is_apart(b, modules),
        forall|i: int| 0 <= i < list.len() ==> modules.contains(#[trigger] list[i]),
    ensures
        linearized_all(graph, a + path, list) == linearized_all(graph, b + path, list),
    decreases unvisited(graph, a + path), list.len(),
{
    if list.len() > 0 {
        lemma_independent_all(graph, modules, a, b, path, list.drop_last());
        lemma_independent(graph, modules, a, b, path, list.last());
    }
}

/// The first error of a linearization is the error of the linearization of all files.
proof fn lemma_first_error(graph: Dependencies, visiting: Seq<usize>, list: Seq<usize>, n: int)
    requires
        graph.dom().finite(),
        0 <= n <= list.len(),
    ensures
        linearized_all(graph, visiting, list.take(n)) is Err ==> linearized_all(
            graph,
            visiting,
            list,
        ) == linearized_all(graph, visiting, list.take(n)),
    decreases list.len() - n,
{
    if n == list.len() {
        assert(list.take(n) =~= list);
    } else {
        lemma_first_error(graph, visiting, list, n + 1);
        assert(list.take(n + 1).drop_last() =~= list.take(n));
    }
}

/// What the memo holds: the linearizations of files that depend only on each other and not on
/// files that are being visited.
spec fn is_memo(graph: Dependencies, memo: Map<usize, Vec<usize>>, visiting: Seq<usize>) -> bool {
    &&& is_closed(graph, memo.dom())
    &&& is_apart(visiting, memo.dom())
    &&& forall|m: usize| #[trigger]
        memo.contains_key(m) ==> linearized(graph, Seq::empty(), m) == Ok::<
            Seq<usize>,
            C3ErrorView,
        >(memo[m]@)
}

/// A file in the memo has the linearization that the memo holds.
proof fn lemma_memo(
    graph: Dependencies,
    memo: Map<usize, Vec<usize>>,
    visiting: Seq<usize>,
    module: usize,
)
    requires
        graph.dom().finite(),
        is_closed(graph, memo.dom()),
        is_apart(visiting, memo.dom()),
        memo.contains_key(module),
    ensures
        linearized(graph, visiting, module) == linearized(graph, Seq::empty(), module),
{
    lemma_independent(graph, memo.dom(), visiting, Seq::empty(), Seq::empty(), module);
    assert(visiting + Seq::empty() =~= visiting);
    assert(Seq::<usize>::empty() + Seq::empty() =~= Seq::<usize>::empty());
}

/// Find the first occurrence of a file.
pub fn position(files: &Vec<usize>, module: usize) -> (result: Option<usize>)
    ensures
        match result {
            Some(i) => files@.contains(module) && i == first_position(files@, module) && i
                < files.len(),
            None => !files@.contains(module),
        },
{
    let mut i: usize = 0;
    assert(files@.skip(0) =~= files@);
    while i < files.len()
        invariant
            i <= files.len(),
            first_position(files@, module) == i + first_position(files@.skip(i as int), module),
            forall|j: int| 0 <= j < i ==> files@[j] != module,
        decreases files.len() - i,
    {
        assert(files@.skip(i as int)[0] == files@[i as int]);
        if files[i] == module {
            return Some(i);
        }
        assert(files@.skip(i as int).drop_first() =~= files@.skip(i + 1));
        i = i + 1;
    }
    None
}

/// Copy the files from an index on.
pub fn copy_from(files: &Vec<usize>, start: usize) -> (result: Vec<usize>)
    requires
        start <= files.len(),
    ensures
        result@ == files@.skip(start as int),
{
    let mut result: Vec<usize> = Vec::new();
    let mut i: usize = start;
    while i < files.len()
        invariant
            start <= i <= files.len(),
            result@ == files@.subrange(start as int, i as int),
        decreases files.len() - i,
    {
        result.push(files[i]);
        i = i + 1;
    }
    assert(result@ =~= files@.skip(start as int));
    result
}

/// Copy files.
pub fn copy(files: &Vec<usize>) -> (result: Vec<usize>)
    ensures
        result@ == files@,
{
    assert(files@.skip(0) =~= files@);
    copy_from(files, 0)
}

/// Look up the files of a file.
pub fn lookup(table: &HashMap<usize, Vec<usize>>, module: usize) -> (result: Option<&Vec<usize>>)
    ensures
        match result {
            Some(files) => table@.contains_key(module) && *files == table@[module],
            None => !table@.contains_key(module),
        },
        table@.dom().finite(),
{
    broadcast use vstd::std_specs::hash::group_hash_axioms;

    table.get(&module)
}

/// Set the files of a file.
fn remember(table: &mut HashMap<usize, Vec<usize>>, module: usize, files: Vec<usize>)
    ensures
        final(table)@ == old(table)@.insert(module, files),
{
    broadcast use vstd::std_specs::hash::group_hash_axioms;

    table.insert(module, files);
}

/// Linearize a file, with a memo of linearizations and the files that are being visited.
fn linearize_rec(
    table: &HashMap<usize, Vec<usize>>,
    module: usize,
    memo: &mut HashMap<usize, Vec<usize>>,
    visiting: &mut Vec<usize>,
) -> (result: Result<Vec<usize>, C3Error>)
    requires
        is_memo(dependencies_view(table@), old(memo)@, old(visiting)@),
    ensures
        ({
            let expected = linearized(dependencies_view(table@), old(visiting)@, module);
            match result {
                Ok(order) => {
                    &&& expected == Ok::<Seq<usize>, C3ErrorView>(order@)
                    &&& final(visiting)@ == old(visiting)@
                    &&& is_memo(dependencies_view(table@), final(memo)@, final(visiting)@)
                    &&& final(memo)@.contains_key(module)
                    &&& old(memo)@.dom().subset_of(final(memo)@.dom())
                },
                Err(e) => expected == Err::<Seq<usize>, C3ErrorView>(e@),
            }
        }),
    decreases unvisited(dependencies_view(table@), old(visiting)@),
{
    let ghost graph = dependencies_view(table@);
    let entry = lookup(table, module);
    assert(graph.dom() =~= table@.dom());
    let ghost stack = visiting@;
    if let Some(known) = lookup(memo, module) {
        proof {
            lemma_memo(graph, memo@, visiting@, module);
        }
        return Ok(copy(known));
    }
    if let Some(cycle_start) = position(visiting, module) {
        return Err(C3Error::CycleDetected(copy_from(visiting, cycle_start)));
    }
    visiting.push(module);
    let empty: Vec<usize> = Vec::new();
    let list: &Vec<usize> = match entry {
        Some(files) => files,
        None => &empty,
    };
    assert(list@ == parents(graph, module));
    let mut seqs: Vec<Vec<usize>> = Vec::new();
    let mut i: usize = 0;
    proof {
        assert(views(seqs@) =~= Seq::<Seq<usize>>::empty());
        assert(list@.take(0) =~= Seq::<usize>::empty());
        if list.len() > 0 {
            lemma_visit(graph, stack, module);
        }
    }
    while i < list.len()
        invariant
            i <= list.len(),
            graph == dependencies_view(table@),
            graph.dom().finite(),
            !stack.contains(module),
            list@ == parents(graph, module),
            list.len() > 0 ==> unvisited(graph, stack.push(module)) < unvisited(graph, stack),
            stack == old(visiting)@,
            old(memo)@.dom().subset_of(memo@.dom()),
            visiting@ == stack.push(module),
            is_memo(graph, memo@, visiting@),
            linearized_all(graph, stack.push(module), list@.take(i as int)) == Ok::<
                Seq<Seq<usize>>,
                C3ErrorView,
            >(views(seqs@)),
            forall|j: int| 0 <= j < i ==> memo@.contains_key(#[trigger] list@[j]),
        decreases list.len() - i,
    {
        let ghost before = seqs@;
        let ghost known = memo@;
        assert(list@.take(i + 1).drop_last() =~= list@.take(i as int));
        assert(list@.take(i + 1).last() == list@[i as int]);
        proof {
            lemma_first_error(graph, stack.push(module), list@, i + 1);
        }
        let lin = linearize_rec(table, list[i], memo, visiting)?;
        seqs.push(lin);
        assert(views(seqs@) =~= views(before).push(lin@));
        i = i + 1;
    }
    assert(list@.take(i as int) =~= list@);
    let ghost lins = seqs@;
    seqs.push(copy(list));
    assert(views(seqs@) =~= views(lins).push(list@));
    let mut result: Vec<usize> = Vec::new();
    result.push(module);
    match merge(seqs) {
        None => {
            return Err(C3Error::InconsistentLinearization { module });
        },
        Some(mut rest) => {
            result.append(&mut rest);
        },
    }
    assert(list.len() == 0 ==> result@ =~= seq![module]);
    let _ = visiting.pop();
    assert(visiting@ =~= stack);
    let linearization = copy(&result);
    let ghost before = memo@;
    remember(memo, module, linearization);
    proof {
        assert(is_closed(graph, memo@.dom()));
        assert(is_apart(visiting@, memo@.dom())) by {
            assert forall|j: int| 0 <= j < stack.len() implies !memo@.dom().contains(
                #[trigger] stack[j],
            ) by {
                assert(stack.push(module)[j] == stack[j]);
            }
        }
        lemma_memo(graph, memo@, stack, module);
    }
    Ok(result)
}

/// Linearize a file.
pub fn linearize_module(table: &HashMap<usize, Vec<usize>>, root: usize) -> (result: Result<
    Vec<usize>,
    C3Error,
>)
    ensures
        match (result, linearized(dependencies_view(table@), Seq::empty(), root)) {
            (Ok(order), Ok(expected)) => order@ == expected,
            (Err(e), Err(expected)) => e@ == expected,
            _ => false,
        },
{
    broadcast use vstd::std_specs::hash::group_hash_axioms;

    let mut memo: HashMap<usize, Vec<usize>> = HashMap::new();
    let mut visiting: Vec<usize> = Vec::new();
    assert(visiting@ =~= Seq::<usize>::empty());
    linearize_rec(table, root, &mut memo, &mut visiting)
}

} // verus!
