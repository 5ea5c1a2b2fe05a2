//! What a program of a single file consists of.
use crate::driver::equality::{is_same_item, is_same_program};
use crate::driver::link::{single_item_linked, single_items_linked, Linking};
use crate::driver::{item_of, Function, Item, Program, TypeAlias};
use crate::error::{rich, ErrorView, RichErrorView};
use crate::list::List;
use crate::name::names;
use crate::parse;
use crate::parse::Visibility;
use crate::text::joined;
use vstd::prelude::*;

verus! {

/// The definition in a file that an item of the file stands for.
pub open spec fn is_definition(item: parse::Item, file_id: usize, result: Item) -> bool {
    match (item, result) {
        (parse::Item::TypeAlias(alias), Item::TypeAlias(t)) => {
            &&& t.file_id == file_id
            &&& t.name == alias.name
            &&& t.ty == alias.ty
            &&& t.span == alias.span
        },
        (parse::Item::Function(function), Item::Function(f)) => {
            &&& f.file_id == file_id
            &&& f.name == function.name
            &&& f.params == function.params
            &&& f.ret == function.ret
            &&& f.body == function.body
            &&& f.span == function.span
        },
        _ => false,
    }
}

/// An alias or a function of a file keeps what it says, with the number of the file. An import is
/// no item of a program.
pub proof fn items_keep_definition(item: parse::Item, file_id: usize)
    ensures
        item is TypeAlias || item is Function ==> (item_of(item, file_id) matches Ok(result)
            && is_definition(item, file_id, result)),
        item is Module || item is Ignored ==> item_of(item, file_id) == Ok::<Item, RichErrorView>(
            Item::Module,
        ),
        item matches parse::Item::Use(decl) ==> (item_of(item, file_id) matches Err(e)
            && *e.error is Internal && e.span == decl.span),
{
}

/// What was linked before stays.
proof fn lemma_kept(items: List<parse::Item>, l: Linking)
    requires
        l.resolutions.len() == 1,
        forall|name: Seq<char>| #[trigger]
            l.resolutions[0].contains_key(name) ==> l.resolutions[0][name].visibility
                == Visibility::Public,
    ensures
        ({
            let after = single_items_linked(items, l);
            &&& l.items.is_prefix_of(after.items)
            &&& l.errors.is_prefix_of(after.errors)
            &&& after.resolutions.len() == 1
            &&& forall|name: Seq<char>| #[trigger]
                l.resolutions[0].contains_key(name) ==> after.resolutions[0].contains_key(name)
            &&& forall|name: Seq<char>| #[trigger]
                after.resolutions[0].contains_key(name) ==> after.resolutions[0][name].visibility
                    == Visibility::Public
        }),
    decreases items,
{
    if let List::Cons(head, tail) = items {
        let next = single_item_linked(head, l);
        lemma_kept(*tail, next);
        let after = single_items_linked(items, l);
        assert(l.items =~= next.items.take(l.items.len() as int));
        assert(l.errors =~= next.errors.take(l.errors.len() as int));
        assert(next.items =~= after.items.take(next.items.len() as int));
        assert(next.errors =~= after.errors.take(next.errors.len() as int));
        assert(l.items =~= after.items.take(l.items.len() as int));
        assert(l.errors =~= after.errors.take(l.errors.len() as int));
        assert forall|name: Seq<char>| #[trigger]
            l.resolutions[0].contains_key(name) implies after.resolutions[0].contains_key(name) by {
            assert(next.resolutions[0].contains_key(name));
        }
    } else {
        assert(l.items =~= l.items.take(l.items.len() as int));
        assert(l.errors =~= l.errors.take(l.errors.len() as int));
    }
}

/// How many of some items are definitions.
pub open spec fn definitions_among(items: Seq<parse::Item>) -> nat
    decreases items.len(),
{
    if items.len() == 0 {
        0
    } else if items.last() is TypeAlias || items.last() is Function {
        definitions_among(items.drop_last()) + 1
    } else {
        definitions_among(items.drop_last())
    }
}

/// How many of some items are imports.
pub open spec fn imports_among(items: Seq<parse::Item>) -> nat
    decreases items.len(),
{
    if items.len() == 0 {
        0
    } else if items.last() is Use {
        imports_among(items.drop_last()) + 1
    } else {
        imports_among(items.drop_last())
    }
}

/// The numbers of definitions and imports do not depend on where counting starts.
proof fn lemma_counts(head: parse::Item, rest: Seq<parse::Item>)
    ensures
        definitions_among(seq![head] + rest) == definitions_among(seq![head]) + definitions_among(
            rest,
        ),
        imports_among(seq![head] + rest) == imports_among(seq![head]) + imports_among(rest),
    decreases rest.len(),
{
    let all = seq![head] + rest;
    if rest.len() == 0 {
        assert(all =~= seq![head]);
    } else {
        lemma_counts(head, rest.drop_last());
        assert(all.drop_last() =~= seq![head] + rest.drop_last());
        assert(all.last() == rest.last());
    }
}

/// What is linked of an item is found behind what is linked of the items before it.
proof fn lemma_linked(items: List<parse::Item>, l: Linking, i: int)
    requires
        0 <= i < items@.len(),
        l.resolutions.len() == 1,
        forall|name: Seq<char>| #[trigger]
            l.resolutions[0].contains_key(name) ==> l.resolutions[0][name].visibility
                == Visibility::Public,
    ensures
        ({
            let after = single_items_linked(items, l);
            let k = l.items.len() + definitions_among(items@.take(i));
            let j = l.errors.len() + imports_among(items@.take(i));
            match items@[i] {
                parse::Item::TypeAlias(alias) => {
                    &&& k < after.items.len()
                    &&& is_definition(items@[i], 0, after.items[k as int])
                    &&& after.resolutions[0].contains_key(alias.name@)
                },
                parse::Item::Function(function) => {
                    &&& k < after.items.len()
                    &&& is_definition(items@[i], 0, after.items[k as int])
                    &&& after.resolutions[0].contains_key(function.name@)
                },
                parse::Item::Use(decl) => {
                    &&& j < after.errors.len()
                    &&& after.errors[j as int] == rich(
                        ErrorView::UnknownLibrary(joined(names(decl.path@), "/"@)),
                        decl.span,
                    )
                },
                _ => true,
            }
        }),
    decreases items,
{
    if let List::Cons(head, tail) = items {
        let next = single_item_linked(head, l);
        assert(items@ =~= seq![head] + tail@);
        lemma_kept(*tail, next);
        let after = single_items_linked(items, l);
        if i == 0 {
            assert(items@.take(0) =~= Seq::empty());
            assert(next.items =~= after.items.take(next.items.len() as int));
            assert(next.errors =~= after.errors.take(next.errors.len() as int));
            match head {
                parse::Item::TypeAlias(alias) => {
                    assert(next.resolutions[0].contains_key(alias.name@));
                },
                parse::Item::Function(function) => {
                    assert(next.resolutions[0].contains_key(function.name@));
                },
                _ => {},
            }
            if next.items.len() > l.items.len() {
                assert(after.items[l.items.len() as int] == next.items[l.items.len() as int]);
            }
            if next.errors.len() > l.errors.len() {
                assert(after.errors[l.errors.len() as int] == next.errors[l.errors.len() as int]);
            }
        } else {
            lemma_linked(*tail, next, i - 1);
            assert(items@.take(i) =~= seq![head] + tail@.take(i - 1));
            lemma_counts(head, tail@.take(i - 1));
            reveal_with_fuel(definitions_among, 2);
            reveal_with_fuel(imports_among, 2);
            assert(seq![head].drop_last() =~= Seq::empty());
            assert(tail@[i - 1] == items@[i]);
        }
    }
}

/// The numbers of items and of errors are those of definitions and of imports.
proof fn lemma_sizes(items: List<parse::Item>, l: Linking)
    requires
        l.resolutions.len() == 1,
    ensures
        ({
            let after = single_items_linked(items, l);
            &&& after.items.len() == l.items.len() + definitions_among(items@)
            &&& after.errors.len() == l.errors.len() + imports_among(items@)
            &&& forall|name: Seq<char>| #[trigger]
                after.resolutions[0].contains_key(name) ==> l.resolutions[0].contains_key(name)
                    || is_defined(items@, name)
        }),
    decreases items,
{
    if let List::Cons(head, tail) = items {
        let next = single_item_linked(head, l);
        assert(items@ =~= seq![head] + tail@);
        lemma_sizes(*tail, next);
        lemma_counts(head, tail@);
        reveal_with_fuel(definitions_among, 2);
        reveal_with_fuel(imports_among, 2);
        assert(seq![head].drop_last() =~= Seq::empty());
        let after = single_items_linked(items, l);
        assert forall|name: Seq<char>| #[trigger]
            after.resolutions[0].contains_key(name) implies l.resolutions[0].contains_key(name)
            || is_defined(items@, name) by {
            if is_defined(tail@, name) {
                let i = choose|i: int| 0 <= i < tail@.len() && defines(#[trigger] tail@[i], name);
                assert(items@[i + 1] == tail@[i]);
                assert(defines(items@[i + 1], name));
            } else if !l.resolutions[0].contains_key(name) {
                assert(next.resolutions[0].contains_key(name));
                assert(defines(items@[0], name));
            }
        }
    }
}

/// Whether an item defines a name.
pub open spec fn defines(item: parse::Item, name: Seq<char>) -> bool {
    match item {
        parse::Item::TypeAlias(alias) => alias.name@ == name,
        parse::Item::Function(function) => function.name@ == name,
        _ => false,
    }
}

/// Whether one of some items defines a name.
pub open spec fn is_defined(items: Seq<parse::Item>, name: Seq<char>) -> bool {
    exists|i: int| 0 <= i < items.len() && defines(#[trigger] items[i], name)
}

/// A program of a single file consists of the definitions of the file in their order, and of
/// nothing else. Their names, and no others, are known, and all of them are public. Each import is
/// reported by its path, in the order of the imports, and nothing else is.
pub proof fn single_file_is_its_definitions(items: List<parse::Item>, i: int, name: Seq<char>)
    ensures
        ({
            let l = single_items_linked(items, Linking::initial(1));
            &&& l.items.len() == definitions_among(items@)
            &&& l.errors.len() == imports_among(items@)
            &&& l.resolutions.len() == 1
            &&& l.resolutions[0].contains_key(name) <==> is_defined(items@, name)
            &&& l.resolutions[0].contains_key(name) ==> l.resolutions[0][name].visibility
                == Visibility::Public
            &&& 0 <= i < items@.len() && (items@[i] is TypeAlias || items@[i] is Function)
                ==> is_definition(
                items@[i],
                0,
                l.items[definitions_among(items@.take(i)) as int],
            )
            &&& 0 <= i < items@.len() && items@[i] is Use ==> l.errors[imports_among(
                items@.take(i),
            ) as int] == rich(
                ErrorView::UnknownLibrary(joined(names(items@[i]->Use_0.path@), "/"@)),
                items@[i]->Use_0.span,
            )
        }),
{
    let start = Linking::initial(1);
    let l = single_items_linked(items, start);
    lemma_kept(items, start);
    lemma_sizes(items, start);
    if 0 <= i < items@.len() {
        lemma_linked(items, start, i);
    }
    if is_defined(items@, name) {
        let j = choose|j: int| 0 <= j < items@.len() && defines(#[trigger] items@[j], name);
        lemma_linked(items, start, j);
    }
}

/// Items of different files, of different names, or of which one is an alias and the other one a
/// function, are not equal. Items that differ in their places only are equal.
pub proof fn different_items_are_not_equal(f: Function, g: Function, t: TypeAlias, u: TypeAlias)
    ensures
        is_same_item(Item::Function(f), Item::Function(g)) ==> f.file_id == g.file_id && f.name@
            == g.name@ && f.params@.len() == g.params@.len() && (f.ret is Some <==> g.ret is Some),
        is_same_item(Item::TypeAlias(t), Item::TypeAlias(u)) ==> t.file_id == u.file_id && t.name@
            == u.name@,
        !is_same_item(Item::Function(f), Item::TypeAlias(t)),
        !is_same_item(Item::Function(f), Item::Module),
        !is_same_item(Item::TypeAlias(t), Item::Module),
        is_same_item(Item::Function(f), Item::Function(Function { span: g.span, ..f })),
        is_same_item(Item::TypeAlias(t), Item::TypeAlias(TypeAlias { span: u.span, ..t })),
{
    crate::driver::equality::item_equality_is_equivalence(
        Item::Function(f),
        Item::Function(f),
        Item::Function(f),
    );
    crate::driver::equality::item_equality_is_equivalence(
        Item::TypeAlias(t),
        Item::TypeAlias(t),
        Item::TypeAlias(t),
    );
    lemma_same_len(crate::list::shared(f.params), crate::list::shared(g.params));
}

/// Equal lists of parameters have the same length.
proof fn lemma_same_len(
    a: List<parse::FunctionParam>,
    b: List<parse::FunctionParam>,
)
    ensures
        crate::parse::equality::are_same_params(a, b) ==> a@.len() == b@.len(),
    decreases a,
{
    if let List::Cons(_, xs) = a {
        if let List::Cons(_, ys) = b {
            lemma_same_len(*xs, *ys);
        }
    }
}

/// Equal programs have equal items in the same order, files of the same names, and as many tables
/// of names.
pub proof fn equal_programs_have_equal_parts(a: Program, b: Program, i: int)
    requires
        is_same_program(a, b),
    ensures
        a.items@.len() == b.items@.len(),
        a.paths@.len() == b.paths@.len(),
        a.resolutions@.len() == b.resolutions@.len(),
        0 <= i < a.items@.len() ==> is_same_item(a.items@[i], b.items@[i]),
        0 <= i < a.paths@.len() ==> a.paths@[i]@ == b.paths@[i]@,
        0 <= i < a.resolutions@.len() && a.resolutions@[i].wf() && b.resolutions@[i].wf()
            ==> a.resolutions@[i]@ == b.resolutions@[i]@,
{
    if 0 <= i < a.resolutions@.len() && a.resolutions@[i].wf() && b.resolutions@[i].wf() {
        crate::driver::equality::tables_are_equal_as_maps(a.resolutions@[i], b.resolutions@[i]);
    }
}

} // verus!
