//! What the items of a program define.
use crate::ast::frame::{expression_keeps, is_outside, item_keeps, items_keep, with_params_keeps};
use crate::ast::import_laws::{import_respects_visibility, keeps_all};
use crate::ast::meaning::{is_type, means, Definitions};
use crate::ast::meaning_laws::{
    defined_function_keeps_meaning, main_function_keeps_meaning, resolved_type_replaces_aliases,
};
use crate::ast::module::{empty_module, lemma_replaced_at, module_at, replaced_at, ModuleView};
use crate::ast::rules::{custom_function, item, items, main_functions, main_functions_of, program};
use crate::ast::scope::{lemma_enter, ScopeView};
use crate::ast::{Expression, Function, Item};
use crate::error::{rich, Error};
use crate::jet::Jet;
use crate::list::{shared, List};
use crate::parse;
use crate::parse::TypeAlias;
use crate::types::{unit_type, ResolvedType};
use vstd::map_lib::lemma_submap_of_trans;
use vstd::prelude::*;

verus! {

/// An alias can be defined if and only if its name is free in the current module and its type
/// resolves. It then stands for the resolved type, with the written visibility, and nothing else
/// changes in the module.
pub proof fn defined_alias_is_known(alias: TypeAlias, s: ScopeView, ty: ResolvedType)
    requires
        s.valid(),
    ensures
        ({
            let (outcome, after) = s.with_alias(alias);
            let before = s.current();
            &&& outcome is Ok ==> !before.aliases.contains_key(alias.name@)
            &&& is_type(alias.ty, ty, before.aliases) && !before.aliases.contains_key(alias.name@)
                ==> outcome is Ok && after.valid() && after.current().aliases
                == before.aliases.insert(alias.name@, (ty, alias.visibility))
                && after.current().functions == before.functions && after.current().submodules
                == before.submodules
            &&& outcome is Err ==> after == s
        }),
{
    resolved_type_replaces_aliases(alias.ty, ty, s.current().aliases);
    if is_type(alias.ty, ty, s.current().aliases) {
        let new = ModuleView {
            aliases: s.current().aliases.insert(alias.name@, (ty, alias.visibility)),
            ..s.current()
        };
        lemma_replaced_at(s.root, s.position, new);
    }
}

/// Of two replacements of the same module the latter counts.
proof fn lemma_replaced_twice(
    root: ModuleView,
    path: Seq<Seq<char>>,
    first: ModuleView,
    second: ModuleView,
)
    requires
        module_at(root, path) is Some,
    ensures
        replaced_at(replaced_at(root, path, first), path, second) == replaced_at(
            root,
            path,
            second,
        ),
    decreases path.len(),
{
    if path.len() > 0 {
        let child = root.submodules[path[0]];
        lemma_replaced_twice(child.0, path.drop_first(), first, second);
        let once = replaced_at(root, path, first);
        assert(replaced_at(once, path, second).submodules =~= replaced_at(
            root,
            path,
            second,
        ).submodules);
    }
}

/// A module can be replaced by itself.
proof fn lemma_replaced_by_itself(root: ModuleView, path: Seq<Seq<char>>)
    requires
        module_at(root, path) is Some,
    ensures
        replaced_at(root, path, module_at(root, path)->0) == root,
    decreases path.len(),
{
    if path.len() > 0 {
        let child = root.submodules[path[0]];
        lemma_replaced_by_itself(child.0, path.drop_first());
        assert(replaced_at(root, path, module_at(root, path)->0).submodules =~= root.submodules);
    }
}

/// A module with one of its nested modules replaced.
pub open spec fn with_nested(module: ModuleView, name: Seq<char>, nested: ModuleView) -> ModuleView {
    ModuleView {
        submodules: module.submodules.insert(name, (nested, module.submodules[name].1)),
        ..module
    }
}

/// To replace a nested module is to replace the module that it is in.
proof fn lemma_replaced_nested(
    root: ModuleView,
    path: Seq<Seq<char>>,
    name: Seq<char>,
    nested: ModuleView,
)
    requires
        module_at(root, path) matches Some(module) && module.submodules.contains_key(name),
    ensures
        replaced_at(root, path.push(name), nested) == replaced_at(
            root,
            path,
            with_nested(module_at(root, path)->0, name, nested),
        ),
    decreases path.len(),
{
    let deep = path.push(name);
    if path.len() > 0 {
        let child = root.submodules[path[0]];
        lemma_replaced_nested(child.0, path.drop_first(), name, nested);
        assert(deep.drop_first() =~= path.drop_first().push(name));
        assert(deep[0] == path[0]);
    } else {
        assert(deep.drop_first() =~= Seq::empty());
        assert(deep[0] == name);
        assert(replaced_at(root.submodules[name].0, deep.drop_first(), nested) == nested);
    }
}

/// Whether a step of the analysis changes only the current module, in which nothing is replaced.
pub open spec fn is_local(before: ScopeView, after: ScopeView) -> bool {
    &&& after.position == before.position
    &&& after.valid()
    &&& after.root == replaced_at(before.root, before.position, after.current())
    &&& keeps_all(before.current(), after.current())
}

/// What two steps change locally, they change locally together.
proof fn lemma_local_steps(first: ScopeView, second: ScopeView, third: ScopeView)
    requires
        first.valid(),
        is_local(first, second),
        is_local(second, third),
    ensures
        is_local(first, third),
{
    lemma_replaced_twice(first.root, first.position, second.current(), third.current());
    let (a, b, c) = (first.current(), second.current(), third.current());
    lemma_submap_of_trans(a.aliases, b.aliases, c.aliases);
    lemma_submap_of_trans(a.functions, b.functions, c.functions);
    lemma_submap_of_trans(a.submodules, b.submodules, c.submodules);
}

/// A scope in which the current module was replaced by a larger one.
proof fn lemma_local_update(s: ScopeView, after: ScopeView, new: ModuleView)
    requires
        s.valid(),
        after.position == s.position,
        after.root == replaced_at(s.root, s.position, new),
        keeps_all(s.current(), new),
    ensures
        is_local(s, after),
        after.current() == new,
{
    lemma_replaced_at(s.root, s.position, new);
}

/// An unchanged scope.
proof fn lemma_local_same(s: ScopeView, after: ScopeView)
    requires
        s.valid(),
        after.position == s.position,
        after.root == s.root,
    ensures
        is_local(s, after),
{
    lemma_replaced_by_itself(s.root, s.position);
}

/// An item that is accepted changes only the current module, and there it replaces nothing: what
/// was defined or imported before is still known with the same meaning and visibility.
pub proof fn items_replace_nothing(from: parse::Item, s: ScopeView)
    requires
        is_outside(s),
        s.valid(),
    ensures
        item(from, s).0 is Ok ==> is_local(s, item(from, s).1),
    decreases from,
{
    let after = item(from, s).1;
    if item(from, s).0 is Ok {
        match from {
            parse::Item::TypeAlias(alias) => {
                let ty = s.resolved(alias.ty)->Ok_0;
                let new = ModuleView {
                    aliases: s.current().aliases.insert(alias.name@, (ty, alias.visibility)),
                    ..s.current()
                };
                lemma_local_update(s, after, new);
            },
            parse::Item::Function(f) => {
                if f.name@ == "main"@ {
                    expression_keeps(shared(f.body), unit_type(), s.in_main());
                    lemma_local_same(s, after);
                } else {
                    defined_function_keeps_meaning(f, s);
                    lemma_function_is_local(f, s);
                }
            },
            parse::Item::Use(decl) => {
                import_respects_visibility(s, decl);
                if after == s {
                    lemma_local_same(s, after);
                } else {
                    let new = choose|new: ModuleView| #[trigger]
                        keeps_all(s.current(), new) && after == s.with_current(new);
                    lemma_local_update(s, after, new);
                }
            },
            parse::Item::Module(module) => {
                defined_module_is_known(module, s);
            },
            parse::Item::Ignored => {
                lemma_local_same(s, after);
            },
        }
    }
}

/// The definition of a function changes only the current module.
proof fn lemma_function_is_local(from: parse::Function, s: ScopeView)
    requires
        s.valid(),
    ensures
        custom_function(from, s).0 is Ok ==> is_local(s, custom_function(from, s).1),
{
    if custom_function(from, s).0 is Ok {
        defined_function_keeps_meaning(from, s);
        let list = crate::ast::rules::params(shared(from.params), s)->Ok_0;
        let ret = crate::ast::rules::return_type(from.ret, s)->Ok_0;
        let inside = crate::ast::rules::with_params(list, s.in_block());
        with_params_keeps(list, s.in_block());
        expression_keeps(shared(from.body), ret, inside);
        let middle = crate::ast::rules::expression(shared(from.body), ret, inside).1.after_block();
        assert(middle.root == s.root && middle.position == s.position);
        let after = custom_function(from, s).1;
        let new = ModuleView {
            functions: s.current().functions.insert(
                from.name@,
                (
                    crate::ast::CustomFunction {
                        params: std::sync::Arc::new(list),
                        body: std::sync::Arc::new(
                            crate::ast::rules::expression(shared(from.body), ret, inside).0->Ok_0,
                        ),
                    },
                    from.visibility,
                ),
            ),
            ..s.current()
        };
        assert(after.root == replaced_at(s.root, s.position, new));
        lemma_local_update(s, after, new);
    }
}

/// Items that are accepted change only the current module, and there they replace nothing.
proof fn lemma_items_are_local(from: List<parse::Item>, s: ScopeView)
    requires
        is_outside(s),
        s.valid(),
    ensures
        items(from, s).0 is Ok ==> is_local(s, items(from, s).1),
    decreases from,
{
    match from {
        List::Nil => {
            lemma_local_same(s, s);
        },
        List::Cons(head, tail) => {
            items_replace_nothing(head, s);
            item_keeps(head, s);
            if item(head, s).0 is Ok {
                let inside = item(head, s).1;
                lemma_items_are_local(*tail, inside);
                if items(*tail, inside).0 is Ok {
                    lemma_local_steps(s, inside, items(*tail, inside).1);
                }
            }
        },
    }
}

/// A module that is accepted becomes known in the current module, where its name was free, with its
/// visibility and with what its items define. Nothing else changes.
pub proof fn defined_module_is_known(module: parse::Module, s: ScopeView)
    requires
        is_outside(s),
        s.valid(),
    ensures
        ({
            let (outcome, after) = item(parse::Item::Module(module), s);
            let start = s.in_module(module.name@, module.visibility);
            outcome is Ok ==> {
                let inside = items(*module.items, start).1;
                &&& !s.current().submodules.contains_key(module.name@)
                &&& start.valid() && start.current() == empty_module()
                &&& inside.valid() && inside.position == s.position.push(module.name@)
                &&& is_local(s, after)
                &&& after.current() == (ModuleView {
                    submodules: s.current().submodules.insert(
                        module.name@,
                        (inside.current(), module.visibility),
                    ),
                    ..s.current()
                })
            }
        }),
    decreases module,
{
    let after = item(parse::Item::Module(module), s).1;
    if item(parse::Item::Module(module), s).0 is Ok {
        let name = module.name@;
        let current = s.current();
        let start = s.in_module(name, module.visibility);
        let new = ModuleView {
            submodules: current.submodules.insert(name, (empty_module(), module.visibility)),
            ..current
        };
        assert(start.root == replaced_at(s.root, s.position, new));
        lemma_replaced_at(s.root, s.position, new);
        lemma_enter(start.root, s.position, name);
        lemma_items_are_local(shared(module.items), start);
        items_keep(shared(module.items), start);
        let inside = items(shared(module.items), start).1;
        let nested = inside.current();
        lemma_replaced_nested(start.root, s.position, name, nested);
        let last = with_nested(new, name, nested);
        lemma_replaced_twice(s.root, s.position, new, last);
        assert(after.position =~= s.position);
        assert(last.submodules =~= current.submodules.insert(name, (nested, module.visibility)));
        lemma_local_update(s, after, last);
    }
}

/// The functions called `main` among items and in their modules, first to last.
pub open spec fn mains(from: List<parse::Item>) -> Seq<parse::Function>
    decreases from,
{
    match from {
        List::Nil => Seq::empty(),
        List::Cons(head, tail) => mains_of(head) + mains(*tail),
    }
}

/// The functions called `main` in an item.
pub open spec fn mains_of(from: parse::Item) -> Seq<parse::Function>
    decreases from,
{
    match from {
        parse::Item::Function(f) => if f.name@ == "main"@ {
            seq![f]
        } else {
            Seq::empty()
        },
        parse::Item::Module(module) => mains_of_module(module),
        _ => Seq::empty(),
    }
}

/// The functions called `main` in a module.
pub open spec fn mains_of_module(from: parse::Module) -> Seq<parse::Function>
    decreases from,
{
    mains(*from.items)
}

/// Whether an expression means what the body of a function says, for some meaning of its names.
pub open spec fn is_body(f: parse::Function, e: Expression) -> bool {
    exists|d: Definitions| #[trigger] means(*f.body, e, d)
}

/// Whether expressions are the bodies of functions, one for each.
pub open spec fn are_bodies(list: Seq<parse::Function>, bodies: Seq<Expression>) -> bool {
    &&& list.len() == bodies.len()
    &&& forall|i: int| 0 <= i < list.len() ==> is_body(#[trigger] list[i], bodies[i])
}

/// Bodies that are put together.
proof fn lemma_bodies(
    a: Seq<parse::Function>,
    b: Seq<parse::Function>,
    x: Seq<Expression>,
    y: Seq<Expression>,
)
    requires
        are_bodies(a, x),
        are_bodies(b, y),
    ensures
        are_bodies(a + b, x + y),
{
    assert forall|i: int| 0 <= i < (a + b).len() implies is_body(
        #[trigger] (a + b)[i],
        (x + y)[i],
    ) by {
        if i < a.len() {
            assert(is_body(a[i], x[i]));
        } else {
            assert(is_body(b[i - a.len()], y[i - a.len()]));
        }
    }
}

/// The main functions of analyzed items are those that are written.
proof fn lemma_mains(from: List<parse::Item>, s: ScopeView)
    ensures
        items(from, s).0 matches Ok(list) ==> are_bodies(mains(from), main_functions(list)),
    decreases from,
{
    if let List::Cons(head, tail) = from {
        lemma_mains_of(head, s);
        let inside = item(head, s).1;
        lemma_mains(*tail, inside);
        if let Ok(list) = items(from, s).0 {
            let first = item(head, s).0->Ok_0;
            let rest = items(*tail, inside).0->Ok_0;
            lemma_bodies(
                mains_of(head),
                mains(*tail),
                main_functions_of(first),
                main_functions(rest),
            );
        }
    }
}

/// The main functions of an analyzed item are those that are written.
proof fn lemma_mains_of(from: parse::Item, s: ScopeView)
    ensures
        item(from, s).0 matches Ok(i) ==> are_bodies(mains_of(from), main_functions_of(i)),
    decreases from,
{
    match from {
        parse::Item::Function(f) => {
            main_function_keeps_meaning(f, s);
        },
        parse::Item::Module(module) => {
            lemma_mains_of_module(module, s.in_module(module.name@, module.visibility));
        },
        _ => {},
    }
}

/// The main functions of an analyzed module are those that are written.
proof fn lemma_mains_of_module(from: parse::Module, s: ScopeView)
    ensures
        items(*from.items, s).0 matches Ok(list) ==> are_bodies(
            mains_of_module(from),
            main_functions(list),
        ),
    decreases from,
{
    lemma_mains(shared(from.items), s);
}

/// A program is accepted if and only if its items are and exactly one function is called `main`.
/// The result is then the body of that function. A missing and a redefined main function are
/// reported.
pub proof fn program_is_its_main_function(from: parse::Program, jets: Map<Seq<char>, Jet>)
    ensures
        ({
            let accepted = items(*from.items, ScopeView::initial(jets));
            let outcome = program(from, jets).0;
            let found = mains(*from.items);
            &&& outcome is Ok <==> accepted.0 is Ok && found.len() == 1
            &&& outcome matches Ok(main) ==> is_body(found[0], main)
            &&& accepted.0 matches Err(e) ==> outcome == Err::<
                Expression,
                crate::error::RichErrorView,
            >(e)
            &&& accepted.0 is Ok && found.len() == 0 ==> outcome == Err::<
                Expression,
                crate::error::RichErrorView,
            >(rich(Error::MainRequired, from.span))
            &&& accepted.0 is Ok && found.len() > 1 ==> outcome == Err::<
                Expression,
                crate::error::RichErrorView,
            >(rich(Error::FunctionRedefined("main"@), from.span))
            &&& program(from, jets).1 == accepted.1
        }),
{
    lemma_mains(shared(from.items), ScopeView::initial(jets));
}

} // verus!
