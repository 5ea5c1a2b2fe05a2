//! What imports can reach and what they leave unchanged.
use crate::ast::module::{imported_item, imported_items, module_at, ModuleView};
use crate::ast::scope::{common_prefix_len, navigated, ScopeView};
use crate::name::names;
use crate::parse::{UseDecl, UseItem, Visibility};
use vstd::map_lib::lemma_submap_of_trans;
use vstd::prelude::*;

verus! {

/// Whether a name stands for a public item.
pub open spec fn is_public<V>(items: Map<Seq<char>, (V, Visibility)>, name: Seq<char>) -> bool {
    items.contains_key(name) && items[name].1 == Visibility::Public
}

/// Whether a name stands for a public type alias, function or module.
pub open spec fn has_public(module: ModuleView, name: Seq<char>) -> bool {
    is_public(module.aliases, name) || is_public(module.functions, name) || is_public(
        module.submodules,
        name,
    )
}

/// Whether a namespace still has the items that another one has.
pub open spec fn keeps_all(before: ModuleView, after: ModuleView) -> bool {
    &&& before.aliases.submap_of(after.aliases)
    &&& before.functions.submap_of(after.functions)
    &&& before.submodules.submap_of(after.submodules)
}

/// Imports take public items only, and they never replace an item: what was in a namespace before
/// is still there.
pub proof fn imports_take_public_items(
    source: ModuleView,
    target: ModuleView,
    list: Seq<UseItem>,
    visibility: Visibility,
)
    ensures
        ({
            let (outcome, after) = imported_items(source, target, list, visibility);
            &&& keeps_all(target, after)
            &&& outcome is Ok ==> forall|i: int|
                0 <= i < list.len() ==> has_public(source, (#[trigger] list[i]).name@)
        }),
    decreases list.len(),
{
    if list.len() > 0 {
        let (outcome, inside) = imported_item(source, target, list[0], visibility);
        assert(keeps_all(target, inside));
        if outcome is Ok {
            let rest = list.drop_first();
            imports_take_public_items(source, inside, rest, visibility);
            let after = imported_items(source, inside, rest, visibility).1;
            lemma_submap_of_trans(target.aliases, inside.aliases, after.aliases);
            lemma_submap_of_trans(target.functions, inside.functions, after.functions);
            lemma_submap_of_trans(target.submodules, inside.submodules, after.submodules);
            if imported_items(source, target, list, visibility).0 is Ok {
                assert forall|i: int| 0 <= i < list.len() implies has_public(
                    source,
                    (#[trigger] list[i]).name@,
                ) by {
                    if i > 0 {
                        assert(rest[i - 1] == list[i]);
                    }
                }
            }
        }
    }
}

/// The path of an import leads to the module that the names lead to. All modules on the way are
/// public, except for those that contain the importing module and those next to one of these.
pub proof fn imports_pass_through_public_modules(
    module: ModuleView,
    path: Seq<Seq<char>>,
    depth: nat,
    shared: nat,
)
    ensures
        navigated(module, path, depth, shared) matches Ok(source) ==> {
            &&& module_at(module, path) == Some(source)
            &&& forall|k: int|
                0 <= k < path.len() && shared < depth + k ==> (module_at(
                    module,
                    #[trigger] path.take(k),
                ) matches Some(parent) && is_public(parent.submodules, path[k]))
        },
    decreases path.len(),
{
    if path.len() > 0 && module.submodules.contains_key(path[0]) {
        let child = module.submodules[path[0]].0;
        let rest = path.drop_first();
        imports_pass_through_public_modules(child, rest, depth + 1, shared);
        if navigated(module, path, depth, shared) is Ok {
            assert forall|k: int| 0 <= k < path.len() && shared < depth + k implies (module_at(
                module,
                #[trigger] path.take(k),
            ) matches Some(parent) && is_public(parent.submodules, path[k])) by {
                if k > 0 {
                    assert(path.take(k).drop_first() =~= rest.take(k - 1));
                    assert(path.take(k)[0] == path[0]);
                    assert(rest[k - 1] == path[k]);
                }
            }
        }
    }
}

/// An import that succeeds starts with `crate`, and takes public items only from a module that can
/// be reached. It changes nothing but the namespace of the importing module, where nothing is
/// replaced.
pub proof fn import_respects_visibility(s: ScopeView, decl: UseDecl)
    requires
        s.valid(),
    ensures
        ({
            let path = names(decl.path@).drop_first();
            let items = crate::ast::module::use_items(decl.items);
            let (outcome, after) = s.with_use(decl);
            &&& after == s || exists|new: ModuleView| #[trigger]
                keeps_all(s.current(), new) && after == s.with_current(new)
            &&& outcome is Ok ==> {
                &&& decl.path@.len() > 0
                &&& names(decl.path@)[0] == "crate"@
                &&& module_at(s.root, path) matches Some(source) && forall|i: int|
                    0 <= i < items.len() ==> has_public(source, (#[trigger] items[i]).name@)
                &&& forall|k: int|
                    common_prefix_len(s.position, path) < k < path.len() ==> (module_at(
                        s.root,
                        #[trigger] path.take(k),
                    ) matches Some(parent) && is_public(parent.submodules, path[k]))
            }
        }),
{
    let full = names(decl.path@);
    let path = full.drop_first();
    let items = crate::ast::module::use_items(decl.items);
    let shared = common_prefix_len(s.position, path);
    imports_pass_through_public_modules(s.root, path, 0, shared);
    if let Ok(source) = navigated(s.root, path, 0, shared) {
        imports_take_public_items(source, s.current(), items, decl.visibility);
        let new = imported_items(source, s.current(), items, decl.visibility).1;
        assert(keeps_all(s.current(), new));
    }
}

} // verus!
