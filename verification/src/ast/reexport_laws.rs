//! What imports bring into a module, and what can be imported from there in turn.
use crate::ast::import_laws::is_public;
use crate::ast::module::{
    imported_item, imported_items, lemma_replaced_at, module_at, ModuleView,
};
use crate::ast::scope::{common_prefix_len, navigated, ScopeView};
use crate::error::{Error, ErrorView};
use crate::name::names;
use crate::parse::{UseDecl, UseItem, UseItems, Visibility};
use vstd::prelude::*;

verus! {

/// The name of an imported item in the importing module: the name behind `as`, if there is one.
pub open spec fn known_as(item: UseItem) -> Seq<char> {
    if item.alias is Some {
        item.alias->0@
    } else {
        item.name@
    }
}

/// Whether an item can be imported: it is public, and its name is free in the importing module.
pub open spec fn is_importable<V>(
    source: Map<Seq<char>, (V, Visibility)>,
    before: Map<Seq<char>, (V, Visibility)>,
    item: UseItem,
) -> bool {
    is_public(source, item.name@) && !before.contains_key(known_as(item))
}

/// Whether one of the first `n` items of an import takes the name of another item in a namespace.
pub open spec fn is_claimed<V>(
    source: Map<Seq<char>, (V, Visibility)>,
    list: Seq<UseItem>,
    n: int,
    name: Seq<char>,
) -> bool {
    exists|j: int|
        0 <= j < n && known_as(#[trigger] list[j]) == name && is_public(source, list[j].name@)
}

/// Whether a namespace holds what an import brings: what was there before, each imported item that
/// is public where it comes from and whose name was free, with the visibility of the import, and
/// nothing else.
pub open spec fn holds_imports<V>(
    source: Map<Seq<char>, (V, Visibility)>,
    before: Map<Seq<char>, (V, Visibility)>,
    after: Map<Seq<char>, (V, Visibility)>,
    list: Seq<UseItem>,
    visibility: Visibility,
) -> bool {
    &&& before.submap_of(after)
    &&& forall|i: int|
        0 <= i < list.len() && is_importable(source, before, #[trigger] list[i]) && !is_claimed(
            source,
            list,
            i,
            known_as(list[i]),
        ) ==> after.contains_key(known_as(list[i])) && after[known_as(list[i])] == (
            source[list[i].name@].0,
            visibility,
        )
    &&& forall|x: Seq<char>| #[trigger]
        after.contains_key(x) && !before.contains_key(x) ==> exists|i: int|
            0 <= i < list.len() && known_as(#[trigger] list[i]) == x && is_public(
                source,
                list[i].name@,
            ) && after[x] == (source[list[i].name@].0, visibility)
}

/// An item that is imported is known under its local name, as the same item and with the visibility
/// of the import, in each of the three namespaces in which it is public and the name was free. The
/// other namespaces stay as they were. The import succeeds if and only if there is such a
/// namespace.
pub proof fn imported_item_keeps_meaning(
    source: ModuleView,
    target: ModuleView,
    item: UseItem,
    visibility: Visibility,
)
    ensures
        ({
            let (outcome, after) = imported_item(source, target, item, visibility);
            let name = item.name@;
            let local = known_as(item);
            &&& after.aliases == if is_importable(source.aliases, target.aliases, item) {
                target.aliases.insert(local, (source.aliases[name].0, visibility))
            } else {
                target.aliases
            }
            &&& after.functions == if is_importable(source.functions, target.functions, item) {
                target.functions.insert(local, (source.functions[name].0, visibility))
            } else {
                target.functions
            }
            &&& after.submodules == if is_importable(source.submodules, target.submodules, item) {
                target.submodules.insert(local, (source.submodules[name].0, visibility))
            } else {
                target.submodules
            }
            &&& outcome is Ok <==> is_importable(source.aliases, target.aliases, item)
                || is_importable(source.functions, target.functions, item) || is_importable(
                source.submodules,
                target.submodules,
                item,
            )
        }),
{
    assert(source.aliases.contains_key(item.name@) ==> source.aliases[item.name@].1
        == Visibility::Public || source.aliases[item.name@].1 == Visibility::Private);
}

/// Whether a name stands for a private item.
pub open spec fn is_private<V>(items: Map<Seq<char>, (V, Visibility)>, name: Seq<char>) -> bool {
    items.contains_key(name) && items[name].1 == Visibility::Private
}

/// An item that cannot be imported is reported as missing if no namespace has it. Otherwise it is
/// reported as private, or as a redefinition of a name that is taken.
pub proof fn failed_import_is_explained(
    source: ModuleView,
    target: ModuleView,
    item: UseItem,
    visibility: Visibility,
)
    ensures
        imported_item(source, target, item, visibility).0 matches Err(e) ==> {
            let name = item.name@;
            let missing = !source.aliases.contains_key(name) && !source.functions.contains_key(name)
                && !source.submodules.contains_key(name);
            let hidden = is_private(source.aliases, name) || is_private(source.functions, name)
                || is_private(source.submodules, name);
            let taken = is_public(source.aliases, name) || is_public(source.functions, name)
                || is_public(source.submodules, name);
            &&& missing ==> e == ErrorView::UnresolvedItem(name)
            &&& !missing && !taken ==> e == ErrorView::PrivateItem(name)
            &&& !missing && !hidden ==> e == ErrorView::RedefinedItem(known_as(item))
        },
{
}

/// What the import of the first item and that of the other items bring, the import of all items
/// brings.
proof fn lemma_step<V>(
    source: Map<Seq<char>, (V, Visibility)>,
    before: Map<Seq<char>, (V, Visibility)>,
    inside: Map<Seq<char>, (V, Visibility)>,
    after: Map<Seq<char>, (V, Visibility)>,
    list: Seq<UseItem>,
    visibility: Visibility,
)
    requires
        list.len() > 0,
        inside == if is_importable(source, before, list[0]) {
            before.insert(known_as(list[0]), (source[list[0].name@].0, visibility))
        } else {
            before
        },
        holds_imports(source, inside, after, list.drop_first(), visibility),
    ensures
        holds_imports(source, before, after, list, visibility),
{
    let rest = list.drop_first();
    assert forall|i: int| 0 <= i < rest.len() implies #[trigger] rest[i] == list[i + 1] by {}
    assert(before.submap_of(after)) by {
        assert forall|x: Seq<char>| #[trigger] before.contains_key(x) implies after.contains_key(x)
            && before[x] == after[x] by {
            assert(inside.dom().contains(x) && after.dom().contains(x));
        }
    }
    assert forall|i: int|
        0 <= i < list.len() && is_importable(source, before, #[trigger] list[i]) && !is_claimed(
            source,
            list,
            i,
            known_as(list[i]),
        ) implies after.contains_key(known_as(list[i])) && after[known_as(list[i])] == (
        source[list[i].name@].0,
        visibility,
    ) by {
        let local = known_as(list[i]);
        if i == 0 {
            assert(inside.dom().contains(local) && after.dom().contains(local));
        } else {
            assert(rest[i - 1] == list[i]);
            assert(known_as(list[0]) != local || !is_public(source, list[0].name@));
            assert(!inside.contains_key(local));
            if is_claimed(source, rest, i - 1, local) {
                let j = choose|j: int|
                    0 <= j < i - 1 && known_as(#[trigger] rest[j]) == local && is_public(
                        source,
                        rest[j].name@,
                    );
                assert(list[j + 1] == rest[j]);
            }
        }
    }
    assert forall|x: Seq<char>| #[trigger]
        after.contains_key(x) && !before.contains_key(x) implies exists|i: int|
        0 <= i < list.len() && known_as(#[trigger] list[i]) == x && is_public(
            source,
            list[i].name@,
        ) && after[x] == (source[list[i].name@].0, visibility) by {
        if inside.contains_key(x) {
            assert(known_as(list[0]) == x);
            assert(inside.dom().contains(x) && after.dom().contains(x));
            assert(after[x] == inside[x]);
        } else {
            let i = choose|i: int|
                0 <= i < rest.len() && known_as(#[trigger] rest[i]) == x && is_public(
                    source,
                    rest[i].name@,
                ) && after[x] == (source[rest[i].name@].0, visibility);
            assert(list[i + 1] == rest[i]);
        }
    }
}

/// Items that are imported one after the other are all brought into the importing module, with the
/// visibility of the import, in each of the three namespaces.
pub proof fn imported_items_keep_meaning(
    source: ModuleView,
    target: ModuleView,
    list: Seq<UseItem>,
    visibility: Visibility,
)
    ensures
        ({
            let (outcome, after) = imported_items(source, target, list, visibility);
            outcome is Ok ==> {
                &&& holds_imports(source.aliases, target.aliases, after.aliases, list, visibility)
                &&& holds_imports(
                    source.functions,
                    target.functions,
                    after.functions,
                    list,
                    visibility,
                )
                &&& holds_imports(
                    source.submodules,
                    target.submodules,
                    after.submodules,
                    list,
                    visibility,
                )
            }
        }),
    decreases list.len(),
{
    if list.len() > 0 {
        imported_item_keeps_meaning(source, target, list[0], visibility);
        let (outcome, inside) = imported_item(source, target, list[0], visibility);
        if outcome is Ok {
            let rest = list.drop_first();
            imported_items_keep_meaning(source, inside, rest, visibility);
            let (last, after) = imported_items(source, inside, rest, visibility);
            if last is Ok {
                lemma_step(
                    source.aliases,
                    target.aliases,
                    inside.aliases,
                    after.aliases,
                    list,
                    visibility,
                );
                lemma_step(
                    source.functions,
                    target.functions,
                    inside.functions,
                    after.functions,
                    list,
                    visibility,
                );
                lemma_step(
                    source.submodules,
                    target.submodules,
                    inside.submodules,
                    after.submodules,
                    list,
                    visibility,
                );
            }
        }
    }
}

/// Whether an item can be imported in one of the three namespaces.
pub open spec fn is_importable_item(
    source: ModuleView,
    target: ModuleView,
    item: UseItem,
) -> bool {
    ||| is_importable(source.aliases, target.aliases, item)
    ||| is_importable(source.functions, target.functions, item)
    ||| is_importable(source.submodules, target.submodules, item)
}

/// Items that can be imported and have different local names are imported together.
pub proof fn importable_items_are_imported(
    source: ModuleView,
    target: ModuleView,
    list: Seq<UseItem>,
    visibility: Visibility,
)
    requires
        forall|i: int|
            0 <= i < list.len() ==> is_importable_item(source, target, #[trigger] list[i]),
        forall|i: int, j: int|
            0 <= i < j < list.len() ==> known_as(#[trigger] list[i]) != known_as(#[trigger] list[j]),
    ensures
        imported_items(source, target, list, visibility).0 is Ok,
    decreases list.len(),
{
    if list.len() > 0 {
        imported_item_keeps_meaning(source, target, list[0], visibility);
        let inside = imported_item(source, target, list[0], visibility).1;
        let rest = list.drop_first();
        assert(is_importable_item(source, target, list[0]));
        assert forall|i: int| 0 <= i < rest.len() implies is_importable_item(
            source,
            inside,
            #[trigger] rest[i],
        ) by {
            assert(rest[i] == list[i + 1]);
            assert(known_as(list[0]) != known_as(list[i + 1]));
            assert(is_importable_item(source, target, list[i + 1]));
        }
        assert forall|i: int, j: int| 0 <= i < j < rest.len() implies known_as(#[trigger] rest[i])
            != known_as(#[trigger] rest[j]) by {
            assert(rest[i] == list[i + 1]);
            assert(rest[j] == list[j + 1]);
        }
        importable_items_are_imported(source, inside, rest, visibility);
    }
}

/// The module that names lead to can be reached if and only if it exists and all modules on the way
/// are public, except for those that contain the importing module and those next to one of these.
pub proof fn reachable_modules_are_found(
    module: ModuleView,
    path: Seq<Seq<char>>,
    depth: nat,
    shared: nat,
)
    ensures
        navigated(module, path, depth, shared) is Ok <==> {
            &&& module_at(module, path) is Some
            &&& forall|k: int|
                0 <= k < path.len() && shared < depth + k ==> (module_at(
                    module,
                    #[trigger] path.take(k),
                ) matches Some(parent) && is_public(parent.submodules, path[k]))
        },
        navigated(module, path, depth, shared) matches Ok(source) ==> module_at(module, path)
            == Some(source),
    decreases path.len(),
{
    if path.len() > 0 && module.submodules.contains_key(path[0]) {
        let (child, visibility) = module.submodules[path[0]];
        let rest = path.drop_first();
        reachable_modules_are_found(child, rest, depth + 1, shared);
        assert(path.take(0) =~= Seq::empty());
        assert(module_at(module, path.take(0)) == Some(module));
        assert forall|k: int| 0 <= k < rest.len() implies module_at(module, #[trigger] path.take(
            k + 1,
        )) == module_at(child, rest.take(k)) by {
            assert(path.take(k + 1).drop_first() =~= rest.take(k));
            assert(path.take(k + 1)[0] == path[0]);
        }
        if navigated(module, path, depth, shared) is Ok {
            assert forall|k: int| 0 <= k < path.len() && shared < depth + k implies (module_at(
                module,
                #[trigger] path.take(k),
            ) matches Some(parent) && is_public(parent.submodules, path[k])) by {
                if k > 0 {
                    assert(path.take((k - 1) + 1) == path.take(k));
                    assert(rest[k - 1] == path[k]);
                    assert(module_at(child, rest.take(k - 1)) is Some);
                }
            }
        }
        if module_at(module, path) is Some && (forall|k: int|
            0 <= k < path.len() && shared < depth + k ==> (module_at(
                module,
                #[trigger] path.take(k),
            ) matches Some(parent) && is_public(parent.submodules, path[k]))) {
            assert forall|k: int| 0 <= k < rest.len() && shared < depth + 1 + k implies (module_at(
                child,
                #[trigger] rest.take(k),
            ) matches Some(parent) && is_public(parent.submodules, rest[k])) by {
                assert(module_at(module, path.take(k + 1)) == module_at(child, rest.take(k)));
                assert(rest[k] == path[k + 1]);
            }
            if shared < depth {
                assert(is_public(module.submodules, path[0]));
            }
        }
    }
}

/// The number of names that two paths share at their start: they agree up to there, and one of them
/// ends there or they differ at the next name.
pub proof fn shared_names_agree(a: Seq<Seq<char>>, b: Seq<Seq<char>>)
    ensures
        ({
            let n = common_prefix_len(a, b);
            &&& n <= a.len() && n <= b.len()
            &&& forall|i: int| 0 <= i < n ==> #[trigger] a[i] == b[i]
            &&& n < a.len() && n < b.len() ==> a[n as int] != b[n as int]
        }),
    decreases a.len(),
{
    if a.len() > 0 && b.len() > 0 && a[0] == b[0] {
        let (x, y) = (a.drop_first(), b.drop_first());
        shared_names_agree(x, y);
        let n = common_prefix_len(x, y);
        assert forall|i: int| 0 <= i < n + 1 implies #[trigger] a[i] == b[i] by {
            if i > 0 {
                assert(x[i - 1] == a[i]);
                assert(y[i - 1] == b[i]);
            }
        }
        if n < x.len() && n < y.len() {
            assert(x[n as int] == a[n as int + 1]);
            assert(y[n as int] == b[n as int + 1]);
        }
    }
}

/// A declaration that succeeds brings all its items, be it a single one or a list, into the
/// importing module: each under its local name, as the same item and with the visibility of the
/// declaration, in each of the three namespaces in which the module that the path leads to has a
/// public item of that name and the local name was free.
pub proof fn import_brings_public_items(s: ScopeView, decl: UseDecl, list: Seq<UseItem>)
    requires
        s.valid(),
        match decl.items {
            UseItems::Single(item) => list == seq![item],
            UseItems::List(all) => list == all@,
        },
    ensures
        s.with_use(decl).0 is Ok ==> {
            let after = s.with_use(decl).1;
            &&& names(decl.path@).len() > 0
            &&& after.valid()
            &&& module_at(s.root, names(decl.path@).drop_first()) matches Some(source) && {
                &&& holds_imports(
                    source.aliases,
                    s.current().aliases,
                    after.current().aliases,
                    list,
                    decl.visibility,
                )
                &&& holds_imports(
                    source.functions,
                    s.current().functions,
                    after.current().functions,
                    list,
                    decl.visibility,
                )
                &&& holds_imports(
                    source.submodules,
                    s.current().submodules,
                    after.current().submodules,
                    list,
                    decl.visibility,
                )
            }
        },
{
    let path = names(decl.path@).drop_first();
    let shared = common_prefix_len(s.position, path);
    reachable_modules_are_found(s.root, path, 0, shared);
    if s.with_use(decl).0 is Ok {
        let source = navigated(s.root, path, 0, shared)->Ok_0;
        let new = imported_items(source, s.current(), list, decl.visibility).1;
        imported_items_keep_meaning(source, s.current(), list, decl.visibility);
        lemma_replaced_at(s.root, s.position, new);
    }
}

/// A declaration succeeds if its path starts with `crate` and leads to a module that can be
/// reached, none of its items is called `main` in the importing module, the local names differ, and
/// each item is public and its name is free.
pub proof fn valid_import_succeeds(
    s: ScopeView,
    decl: UseDecl,
    list: Seq<UseItem>,
    source: ModuleView,
)
    requires
        s.valid(),
        match decl.items {
            UseItems::Single(item) => list == seq![item],
            UseItems::List(all) => list == all@,
        },
        names(decl.path@).len() > 0,
        names(decl.path@)[0] == "crate"@,
        module_at(s.root, names(decl.path@).drop_first()) == Some(source),
        ({
            let path = names(decl.path@).drop_first();
            forall|k: int|
                common_prefix_len(s.position, path) < k < path.len() ==> (module_at(
                    s.root,
                    #[trigger] path.take(k),
                ) matches Some(parent) && is_public(parent.submodules, path[k]))
        }),
        forall|i: int|
            0 <= i < list.len() ==> is_importable_item(source, s.current(), #[trigger] list[i]) && !(
            list[i].alias is Some && list[i].alias->0@ == "main"@),
        forall|i: int, j: int|
            0 <= i < j < list.len() ==> known_as(#[trigger] list[i]) != known_as(#[trigger] list[j]),
    ensures
        s.with_use(decl).0 is Ok,
{
    let path = names(decl.path@).drop_first();
    let shared = common_prefix_len(s.position, path);
    reachable_modules_are_found(s.root, path, 0, shared);
    importable_items_are_imported(source, s.current(), list, decl.visibility);
}

/// What a public import brought into a module can be imported from that module in turn: it is then
/// the same item, in each namespace in which the names are free.
pub proof fn public_imports_can_be_imported(
    source: ModuleView,
    middle: ModuleView,
    target: ModuleView,
    first: UseItem,
    second: UseItem,
    visibility: Visibility,
)
    requires
        imported_item(source, middle, first, Visibility::Public).0 is Ok,
        second.name@ == known_as(first),
    ensures
        ({
            let inside = imported_item(source, middle, first, Visibility::Public).1;
            let (outcome, after) = imported_item(inside, target, second, visibility);
            let name = first.name@;
            let local = known_as(second);
            &&& is_importable(source.aliases, middle.aliases, first)
                && !target.aliases.contains_key(local) ==> outcome is Ok
                && after.aliases.contains_key(local) && after.aliases[local] == (
                source.aliases[name].0,
                visibility,
            )
            &&& is_importable(source.functions, middle.functions, first)
                && !target.functions.contains_key(local) ==> outcome is Ok
                && after.functions.contains_key(local) && after.functions[local] == (
                source.functions[name].0,
                visibility,
            )
            &&& is_importable(source.submodules, middle.submodules, first)
                && !target.submodules.contains_key(local) ==> outcome is Ok
                && after.submodules.contains_key(local) && after.submodules[local] == (
                source.submodules[name].0,
                visibility,
            )
        }),
{
    let inside = imported_item(source, middle, first, Visibility::Public).1;
    imported_item_keeps_meaning(source, middle, first, Visibility::Public);
    imported_item_keeps_meaning(inside, target, second, visibility);
}

/// What a private import brought into a module, and nothing else has there, cannot be imported from
/// that module.
pub proof fn private_imports_stay_private(
    source: ModuleView,
    middle: ModuleView,
    target: ModuleView,
    first: UseItem,
    second: UseItem,
    visibility: Visibility,
)
    requires
        imported_item(source, middle, first, Visibility::Private).0 is Ok,
        second.name@ == known_as(first),
        !middle.aliases.contains_key(known_as(first)),
        !middle.functions.contains_key(known_as(first)),
        !middle.submodules.contains_key(known_as(first)),
    ensures
        ({
            let inside = imported_item(source, middle, first, Visibility::Private).1;
            imported_item(inside, target, second, visibility) == (
                Err::<(), ErrorView>(Error::PrivateItem(known_as(first))),
                target,
            )
        }),
{
    let inside = imported_item(source, middle, first, Visibility::Private).1;
    imported_item_keeps_meaning(source, middle, first, Visibility::Private);
    imported_item_keeps_meaning(inside, target, second, visibility);
    failed_import_is_explained(inside, target, second, visibility);
}

} // verus!
