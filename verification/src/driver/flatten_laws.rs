//! What the flattened program of a workspace says.
use super::dependency::{cached, file_module_name, DependencyGraph};
use super::dependency_laws::{flattened_program_has_files, has_file};
use crate::list::{shared, List};
use crate::name::names;
use crate::parse::{is_same_use, Item, Module, UseDecl, UseItems, Visibility};
use crate::resolution::path_views;
use crate::text::decimal;
use crate::text::laws::decimal_notation_is_unique;
use vstd::prelude::*;

verus! {

/// Whether an import was resolved to the file of number `j`, and `rest` are the names that lead to
/// an item inside the file.
pub open spec fn is_resolved_to(
    graph: DependencyGraph,
    decl: UseDecl,
    j: int,
    rest: Seq<Seq<char>>,
) -> bool {
    &&& 0 <= j < graph.paths@.len()
    &&& exists|c: int|
        {
            &&& 0 <= c < graph.use_cache@.len()
            &&& is_same_use((#[trigger] graph.use_cache@[c]).0, decl)
            &&& forall|b: int| 0 <= b < c ==> !is_same_use((#[trigger] graph.use_cache@[b]).0, decl)
            &&& graph.use_cache@[c].1.path@ == graph.paths@[j]@
            &&& names(graph.use_cache@[c].1.mod_path@) == rest
        }
    &&& forall|i: int| 0 <= i < j ==> (#[trigger] graph.paths@[i])@ != graph.paths@[j]@
}

/// The path that leads to items of a file in the flattened program.
pub open spec fn path_into_file(j: int, rest: Seq<Seq<char>>) -> Seq<Seq<char>> {
    if j == 0 {
        seq!["crate"@] + rest
    } else {
        seq!["crate"@, "file_"@ + decimal(j as nat)] + rest
    }
}

/// Whether an item of the flattened program says what an item of a file says: definitions are the
/// same, and imports lead to the items of the files that they were resolved to.
pub open spec fn says(graph: DependencyGraph, id: usize, item: Item, result: Item) -> bool
    decreases item,
{
    match item {
        Item::TypeAlias(a) => result matches Item::TypeAlias(b) && b.file_id == id && b.visibility
            == a.visibility && b.name == a.name && b.ty == a.ty && b.span == a.span,
        Item::Function(a) => result matches Item::Function(b) && b.file_id == id && b.visibility
            == a.visibility && b.name == a.name && b.params == a.params && b.ret == a.ret && b.body
            == a.body && b.span == a.span,
        Item::Use(a) => result matches Item::Use(b) && b.visibility == a.visibility && b.span
            == a.span && (match a.items {
            UseItems::Single(x) => b.items matches UseItems::Single(y) && x == y,
            UseItems::List(x) => b.items matches UseItems::List(y) && x@ == y@,
        }) && exists|j: int, rest: Seq<Seq<char>>| #[trigger]
            is_resolved_to(graph, a, j, rest) && names(b.path@) == path_into_file(j, rest),
        Item::Module(a) => result matches Item::Module(b) && module_says(graph, id, a, b),
        Item::Ignored => false,
    }
}

/// Whether a module of the flattened program says what a module of a file says.
pub open spec fn module_says(graph: DependencyGraph, id: usize, module: Module, result: Module) -> bool
    decreases module,
{
    &&& result.file_id == id
    &&& result.visibility == module.visibility
    &&& result.name == module.name
    &&& all_say(graph, id, *module.items, result.items@)
}

/// Whether items of the flattened program say what the items of a file say, in the same order.
/// Placeholders say nothing.
pub open spec fn all_say(
    graph: DependencyGraph,
    id: usize,
    items: List<Item>,
    result: Seq<Item>,
) -> bool
    decreases items,
{
    match items {
        List::Nil => result.len() == 0,
        List::Cons(Item::Ignored, tail) => all_say(graph, id, *tail, result),
        List::Cons(head, tail) => result.len() > 0 && says(graph, id, head, result[0]) && all_say(
            graph,
            id,
            *tail,
            result.drop_first(),
        ),
    }
}

/// The entry of an import that was resolved.
proof fn lemma_cached(graph: DependencyGraph, n: int, decl: UseDecl) -> (at: int)
    requires
        0 <= n <= graph.use_cache@.len(),
        cached(graph.use_cache@.skip(n), decl) is Some,
    ensures
        n <= at < graph.use_cache@.len(),
        is_same_use(graph.use_cache@[at].0, decl),
        cached(graph.use_cache@.skip(n), decl) == Some(graph.use_cache@[at].1@),
        forall|b: int| n <= b < at ==> !is_same_use((#[trigger] graph.use_cache@[b]).0, decl),
    decreases graph.use_cache@.len() - n,
{
    let rest = graph.use_cache@.skip(n);
    assert(rest[0] == graph.use_cache@[n]);
    if is_same_use(rest[0].0, decl) {
        n
    } else {
        assert(rest.drop_first() =~= graph.use_cache@.skip(n + 1));
        lemma_cached(graph, n + 1, decl)
    }
}

/// The number of a file is the first one with its path.
proof fn lemma_file_id(graph: DependencyGraph, path: Seq<Seq<char>>)
    requires
        path_views(graph.paths@).contains(path),
    ensures
        0 <= graph.file_id(path) < graph.paths@.len(),
        graph.paths@[graph.file_id(path)]@ == path,
        forall|i: int| 0 <= i < graph.file_id(path) ==> (#[trigger] graph.paths@[i])@ != path,
{
    let all = path_views(graph.paths@);
    all.index_of_first_ensures(path);
    let j = graph.file_id(path);
    assert(all[j] == path);
    assert forall|i: int| 0 <= i < j implies (#[trigger] graph.paths@[i])@ != path by {
        assert(all[i] == graph.paths@[i]@);
    }
}

/// A rewritten import leads to the file that it was resolved to.
proof fn lemma_rewritten_use(graph: DependencyGraph, decl: UseDecl) -> (found: (
    int,
    Seq<Seq<char>>,
))
    requires
        graph.can_rewrite_use(decl),
    ensures
        is_resolved_to(graph, decl, found.0, found.1),
        graph.flat_path(decl) == path_into_file(found.0, found.1),
{
    let cache = graph.use_cache@;
    assert(cache.skip(0) =~= cache);
    let c = lemma_cached(graph, 0, decl);
    let resolved = cached(cache, decl)->0;
    lemma_file_id(graph, resolved.path);
    let j = graph.file_id(resolved.path);
    assert(is_same_use(cache[c].0, decl));
    assert(is_resolved_to(graph, decl, j, resolved.mod_path));
    (j, resolved.mod_path)
}

/// A rewritten item says what the item says.
pub proof fn rewritten_items_say_the_same(
    graph: DependencyGraph,
    id: usize,
    item: Item,
    result: Item,
)
    requires
        graph.can_rewrite(item),
        graph.is_rewritten(id, item, result),
    ensures
        says(graph, id, item, result),
    decreases item,
{
    match (item, result) {
        (Item::Use(a), Item::Use(b)) => {
            let (j, rest) = lemma_rewritten_use(graph, a);
            assert(is_resolved_to(graph, a, j, rest) && names(b.path@) == path_into_file(j, rest));
        },
        (Item::Module(a), Item::Module(b)) => {
            lemma_module_says(graph, id, a, b);
        },
        _ => {},
    }
}

/// A rewritten module says what the module says.
proof fn lemma_module_says(graph: DependencyGraph, id: usize, module: Module, result: Module)
    requires
        graph.can_rewrite_all(*module.items),
        result.file_id == id,
        result.visibility == module.visibility,
        result.name == module.name,
        graph.are_rewritten(id, *module.items, result.items@),
    ensures
        module_says(graph, id, module, result),
    decreases module,
{
    lemma_all_say(graph, id, shared(module.items), shared(result.items)@);
}

/// Rewritten items say what the items say.
proof fn lemma_all_say(graph: DependencyGraph, id: usize, items: List<Item>, result: Seq<Item>)
    requires
        graph.can_rewrite_all(items),
        graph.are_rewritten(id, items, result),
    ensures
        all_say(graph, id, items, result),
    decreases items,
{
    if let List::Cons(head, tail) = items {
        if head is Ignored {
            lemma_all_say(graph, id, *tail, result);
        } else {
            rewritten_items_say_the_same(graph, id, head, result[0]);
            lemma_all_say(graph, id, *tail, result.drop_first());
        }
    }
}

/// The names of the modules of different files differ.
pub proof fn file_modules_have_different_names(a: nat, b: nat)
    requires
        file_module_name(a) == file_module_name(b),
    ensures
        a == b,
{
    let (x, y) = (file_module_name(a), file_module_name(b));
    let n = "file_"@.len() as int;
    assert(decimal(a) =~= x.skip(n));
    assert(decimal(b) =~= y.skip(n));
    decimal_notation_is_unique(a, b);
}

/// In the flattened program each file of the load order but the entry file has a private module of
/// its own, with the name that imports use for it, and the items in it say what the items of the
/// file say.
pub proof fn flattened_files_say_the_same(
    graph: DependencyGraph,
    order: Seq<usize>,
    result: Seq<Item>,
    k: int,
)
    requires
        graph.can_flatten(order),
        graph.is_flattened(order, result),
        0 <= k < order.len(),
        order[k] != 0,
    ensures
        exists|i: int|
            0 <= i < result.len() && (#[trigger] result[i] matches Item::Module(module)
                && module.visibility == Visibility::Private && module.file_id == order[k]
                && module.name@ == "file_"@ + decimal(order[k] as nat) && all_say(
                graph,
                order[k],
                *graph.modules@[order[k] as int].program.items,
                module.items@,
            )),
{
    flattened_program_has_files(graph, order, result, k);
    let i = choose|i: int| #[trigger] has_file(graph, result, i, order[k]);
    let items = shared(graph.modules@[order[k] as int].program.items);
    if let Item::Module(module) = result[i] {
        lemma_all_say(graph, order[k], items, shared(module.items)@);
    }
}

/// The items of the entry file stand at the end of the flattened program, in their order, if the
/// entry file is last in the load order. They say what the items of the entry file say.
pub proof fn flattened_program_ends_with_entry_file(
    graph: DependencyGraph,
    order: Seq<usize>,
    result: Seq<Item>,
)
    requires
        graph.can_flatten(order),
        graph.is_flattened(order, result),
        order.len() > 0,
        order.last() == 0,
    ensures
        exists|n: int|
            0 <= n <= result.len() && all_say(
                graph,
                0,
                *graph.modules@[0].program.items,
                #[trigger] result.skip(n),
            ),
{
    let items = shared(graph.modules@[0].program.items);
    let n = result.len() - super::dependency::kept(items);
    assert(order[order.len() - 1] == order.last());
    lemma_all_say(graph, 0, items, result.skip(n));
}

} // verus!
