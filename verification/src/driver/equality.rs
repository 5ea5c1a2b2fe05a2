//! When programs and their items are equal.
//!
//! Names are equal if they have the same characters, and places in a file do not matter.
use crate::driver::resolutions::{is_below, is_sorted, FileResolutions, Resolution};
use crate::driver::{Function, Item, Program, TypeAlias};
use crate::list::{shared, List};
use crate::name::Identifier;
use crate::name_map::contents;
use crate::order::{lemma_irreflexive, lemma_transitive, precedes};
use crate::parse::equality_laws::{
    expression_equality_is_equivalence, lemma_aliased, lemma_optional, lemma_params,
};
use crate::parse::equality::{
    are_same_params, is_same_aliased, is_same_expression, is_same_optional, same_aliased,
    same_expression, same_optional, same_params,
};
use crate::source::SourceName;
use vstd::prelude::*;
use vstd::std_specs::cmp::PartialEqSpecImpl;

verus! {

/// Whether two functions are equal.
pub open spec fn is_same_function(a: Function, b: Function) -> bool {
    &&& a.file_id == b.file_id
    &&& a.name@ == b.name@
    &&& are_same_params(*a.params, *b.params)
    &&& is_same_optional(a.ret, b.ret)
    &&& is_same_expression(*a.body, *b.body)
}

/// Whether two type aliases are equal.
pub open spec fn is_same_alias(a: TypeAlias, b: TypeAlias) -> bool {
    a.file_id == b.file_id && a.name@ == b.name@ && is_same_aliased(a.ty, b.ty)
}

/// Whether two items are equal.
pub open spec fn is_same_item(a: Item, b: Item) -> bool {
    match (a, b) {
        (Item::TypeAlias(x), Item::TypeAlias(y)) => is_same_alias(x, y),
        (Item::Function(x), Item::Function(y)) => is_same_function(x, y),
        (Item::Module, Item::Module) => true,
        _ => false,
    }
}

/// Whether two lists of names and what they stand for are equal.
pub open spec fn are_same_entries(
    a: List<(Identifier, Resolution)>,
    b: List<(Identifier, Resolution)>,
) -> bool
    decreases a,
{
    match (a, b) {
        (List::Nil, List::Nil) => true,
        (List::Cons(x, xs), List::Cons(y, ys)) => x.0@ == y.0@ && x.1 == y.1 && are_same_entries(
            *xs,
            *ys,
        ),
        _ => false,
    }
}

/// Whether two lists of items are equal.
pub open spec fn are_same_items(a: Seq<Item>, b: Seq<Item>) -> bool {
    a.len() == b.len() && forall|i: int| 0 <= i < a.len() ==> is_same_item(#[trigger] a[i], b[i])
}

/// Whether two lists of names of files are equal.
pub open spec fn are_same_names(a: Seq<SourceName>, b: Seq<SourceName>) -> bool {
    a.len() == b.len() && forall|i: int| 0 <= i < a.len() ==> #[trigger] a[i]@ == b[i]@
}

/// Whether two lists of tables of names are equal.
pub open spec fn are_same_tables(a: Seq<FileResolutions>, b: Seq<FileResolutions>) -> bool {
    a.len() == b.len() && forall|i: int| 0 <= i < a.len() ==> are_same_entries((#[trigger] a[i]).entries, b[i].entries)
}

/// Whether two programs are equal.
pub open spec fn is_same_program(a: Program, b: Program) -> bool {
    &&& are_same_items(a.items@, b.items@)
    &&& are_same_names(a.paths@, b.paths@)
    &&& are_same_tables(a.resolutions@, b.resolutions@)
}

/// Check whether two functions are equal.
fn same_function(a: &Function, b: &Function) -> (result: bool)
    ensures
        result == is_same_function(*a, *b),
{
    a.file_id == b.file_id && a.name.same(&b.name) && same_params(&a.params, &b.params)
        && same_optional(&a.ret, &b.ret) && same_expression(&a.body, &b.body)
}

/// Check whether two type aliases are equal.
fn same_alias(a: &TypeAlias, b: &TypeAlias) -> (result: bool)
    ensures
        result == is_same_alias(*a, *b),
{
    a.file_id == b.file_id && a.name.same(&b.name) && same_aliased(&a.ty, &b.ty)
}

/// Check whether two items are equal.
fn same_item(a: &Item, b: &Item) -> (result: bool)
    ensures
        result == is_same_item(*a, *b),
{
    match (a, b) {
        (Item::TypeAlias(x), Item::TypeAlias(y)) => same_alias(x, y),
        (Item::Function(x), Item::Function(y)) => same_function(x, y),
        (Item::Module, Item::Module) => true,
        _ => false,
    }
}

/// Check whether two lists of names and what they stand for are equal.
fn same_entries(a: &List<(Identifier, Resolution)>, b: &List<(Identifier, Resolution)>) -> (result:
    bool)
    ensures
        result == are_same_entries(*a, *b),
    decreases a,
{
    match (a, b) {
        (List::Nil, List::Nil) => true,
        (List::Cons(x, xs), List::Cons(y, ys)) => x.0.same(&y.0) && x.1 == y.1 && same_entries(
            xs,
            ys,
        ),
        _ => false,
    }
}

/// Check whether two lists of items are equal.
fn same_items(a: &Vec<Item>, b: &Vec<Item>) -> (result: bool)
    ensures
        result == are_same_items(a@, b@),
{
    if a.len() != b.len() {
        return false;
    }
    let mut i: usize = 0;
    while i < a.len()
        invariant
            i <= a.len() == b.len(),
            forall|j: int| 0 <= j < i ==> is_same_item(#[trigger] a@[j], b@[j]),
        decreases a.len() - i,
    {
        if !same_item(&a[i], &b[i]) {
            return false;
        }
        i = i + 1;
    }
    true
}

/// Check whether two lists of names of files are equal.
fn same_names(a: &Vec<SourceName>, b: &Vec<SourceName>) -> (result: bool)
    ensures
        result == are_same_names(a@, b@),
{
    if a.len() != b.len() {
        return false;
    }
    let mut i: usize = 0;
    while i < a.len()
        invariant
            i <= a.len() == b.len(),
            forall|j: int| 0 <= j < i ==> #[trigger] a@[j]@ == b@[j]@,
        decreases a.len() - i,
    {
        if !a[i].same(&b[i]) {
            return false;
        }
        i = i + 1;
    }
    true
}

/// Check whether two lists of tables of names are equal.
fn same_tables(a: &Vec<FileResolutions>, b: &Vec<FileResolutions>) -> (result: bool)
    ensures
        result == are_same_tables(a@, b@),
{
    if a.len() != b.len() {
        return false;
    }
    let mut i: usize = 0;
    while i < a.len()
        invariant
            i <= a.len() == b.len(),
            forall|j: int| 0 <= j < i ==> are_same_entries((#[trigger] a@[j]).entries, b@[j].entries),
        decreases a.len() - i,
    {
        if !same_entries(&a[i].entries, &b[i].entries) {
            return false;
        }
        i = i + 1;
    }
    true
}

/// Check whether two programs are equal.
fn same_program(a: &Program, b: &Program) -> (result: bool)
    ensures
        result == is_same_program(*a, *b),
{
    same_items(&a.items, &b.items) && same_names(&a.paths, &b.paths) && same_tables(
        &a.resolutions,
        &b.resolutions,
    )
}

impl PartialEq for Function {
    fn eq(&self, other: &Self) -> (result: bool) {
        same_function(self, other)
    }
}

impl PartialEqSpecImpl for Function {
    open spec fn obeys_eq_spec() -> bool {
        true
    }

    open spec fn eq_spec(&self, other: &Self) -> bool {
        is_same_function(*self, *other)
    }
}

impl Eq for Function {

}

impl PartialEq for TypeAlias {
    fn eq(&self, other: &Self) -> (result: bool) {
        same_alias(self, other)
    }
}

impl PartialEqSpecImpl for TypeAlias {
    open spec fn obeys_eq_spec() -> bool {
        true
    }

    open spec fn eq_spec(&self, other: &Self) -> bool {
        is_same_alias(*self, *other)
    }
}

impl Eq for TypeAlias {

}

impl PartialEq for Item {
    fn eq(&self, other: &Self) -> (result: bool) {
        same_item(self, other)
    }
}

impl PartialEqSpecImpl for Item {
    open spec fn obeys_eq_spec() -> bool {
        true
    }

    open spec fn eq_spec(&self, other: &Self) -> bool {
        is_same_item(*self, *other)
    }
}

impl Eq for Item {

}

impl PartialEq for FileResolutions {
    fn eq(&self, other: &Self) -> (result: bool) {
        same_entries(&self.entries, &other.entries)
    }
}

impl PartialEqSpecImpl for FileResolutions {
    open spec fn obeys_eq_spec() -> bool {
        true
    }

    open spec fn eq_spec(&self, other: &Self) -> bool {
        are_same_entries(self.entries, other.entries)
    }
}

impl Eq for FileResolutions {

}

impl PartialEq for Program {
    fn eq(&self, other: &Self) -> (result: bool) {
        same_program(self, other)
    }
}

impl PartialEqSpecImpl for Program {
    open spec fn obeys_eq_spec() -> bool {
        true
    }

    open spec fn eq_spec(&self, other: &Self) -> bool {
        is_same_program(*self, *other)
    }
}

impl Eq for Program {

}

/// Equality of lists of names and what they stand for is an equivalence.
proof fn lemma_entries(
    a: List<(Identifier, Resolution)>,
    b: List<(Identifier, Resolution)>,
    c: List<(Identifier, Resolution)>,
)
    ensures
        are_same_entries(a, a),
        are_same_entries(a, b) == are_same_entries(b, a),
        are_same_entries(a, b) && are_same_entries(b, c) ==> are_same_entries(a, c),
    decreases a,
{
    if let List::Cons(_, tail) = a {
        lemma_entries(*tail, *b->Cons_1, *c->Cons_1);
    }
}

/// Equality of items is an equivalence: an item equals itself, equality goes both ways, and items
/// that equal the same one equal each other.
pub proof fn item_equality_is_equivalence(a: Item, b: Item, c: Item)
    ensures
        is_same_item(a, a),
        is_same_item(a, b) == is_same_item(b, a),
        is_same_item(a, b) && is_same_item(b, c) ==> is_same_item(a, c),
{
    match a {
        Item::TypeAlias(x) => {
            lemma_aliased(x.ty, b->TypeAlias_0.ty, c->TypeAlias_0.ty);
        },
        Item::Function(x) => {
            let y = b->Function_0;
            let z = c->Function_0;
            lemma_params(shared(x.params), shared(y.params), shared(z.params));
            lemma_optional(x.ret, y.ret, z.ret);
            expression_equality_is_equivalence(shared(x.body), shared(y.body), shared(z.body));
        },
        Item::Module => {},
    }
}

/// In alphabetical order, the first name comes before all other names.
proof fn lemma_first_name(entries: List<(Identifier, Resolution)>, name: Seq<char>)
    requires
        is_sorted(entries),
        contents(entries).contains_key(name),
    ensures
        entries is Cons,
        name == entries->Cons_0.0@ || precedes(entries->Cons_0.0@, name),
        name == entries->Cons_0.0@ ==> !contents(*entries->Cons_1).contains_key(name),
    decreases entries,
{
    let first = entries->Cons_0.0@;
    let tail = *entries->Cons_1;
    if contents(tail).contains_key(name) {
        lemma_first_name(tail, name);
        let second = tail->Cons_0.0@;
        assert(is_below(first, tail));
        if name != second {
            lemma_transitive(first, second, name);
        }
        lemma_irreflexive(first);
    }
}

/// Entries in alphabetical order are the same if they stand for the same map, and only then.
proof fn lemma_sorted_entries(
    a: List<(Identifier, Resolution)>,
    b: List<(Identifier, Resolution)>,
)
    requires
        is_sorted(a),
        is_sorted(b),
    ensures
        are_same_entries(a, b) == (contents(a) == contents(b)),
    decreases a,
{
    match (a, b) {
        (List::Cons(x, xs), List::Cons(y, ys)) => {
            lemma_sorted_entries(*xs, *ys);
            assert(contents(a).contains_key(x.0@) && contents(b).contains_key(y.0@));
            lemma_first_name(a, x.0@);
            lemma_first_name(b, y.0@);
            if contents(a) == contents(b) {
                lemma_first_name(a, y.0@);
                lemma_first_name(b, x.0@);
                if x.0@ != y.0@ {
                    lemma_transitive(x.0@, y.0@, x.0@);
                    lemma_irreflexive(x.0@);
                }
                assert(contents(a)[x.0@] == x.1 && contents(b)[x.0@] == y.1);
                assert(contents(*xs) =~= contents(a).remove(x.0@));
                assert(contents(*ys) =~= contents(b).remove(x.0@));
            }
        },
        (List::Cons(x, _), List::Nil) => {
            assert(contents(a).contains_key(x.0@));
        },
        (List::Nil, List::Cons(y, _)) => {
            assert(contents(b).contains_key(y.0@));
        },
        (List::Nil, List::Nil) => {},
    }
}

/// Tables whose names are in alphabetical order are equal if they have the same names with the
/// same meaning, and only then.
pub proof fn tables_are_equal_as_maps(a: FileResolutions, b: FileResolutions)
    requires
        a.wf(),
        b.wf(),
    ensures
        are_same_entries(a.entries, b.entries) == (a@ == b@),
{
    lemma_sorted_entries(a.entries, b.entries);
}

/// Equality of programs is an equivalence, and places do not matter for it.
pub proof fn program_equality_is_equivalence(a: Program, b: Program, c: Program)
    ensures
        is_same_program(a, a),
        is_same_program(a, b) == is_same_program(b, a),
        is_same_program(a, b) && is_same_program(b, c) ==> is_same_program(a, c),
        a.items@ == b.items@ && a.paths@ == b.paths@ && a.resolutions@ == b.resolutions@
            ==> is_same_program(a, b),
{
    assert forall|x: Item, y: Item, z: Item|
        #![trigger is_same_item(x, y), is_same_item(y, z)]
        is_same_item(x, x) && is_same_item(x, y) == is_same_item(y, x) && (is_same_item(x, y)
            && is_same_item(y, z) ==> is_same_item(x, z)) by {
        item_equality_is_equivalence(x, y, z);
    }
    assert forall|x: Item| #[trigger] is_same_item(x, x) by {
        item_equality_is_equivalence(x, x, x);
    }
    assert forall|x: Item, y: Item| #[trigger] is_same_item(x, y) == is_same_item(y, x) by {
        item_equality_is_equivalence(x, y, x);
    }
    assert forall|x: FileResolutions, y: FileResolutions, z: FileResolutions|
        #![trigger are_same_entries(x.entries, y.entries), are_same_entries(y.entries, z.entries)]
        are_same_entries(x.entries, y.entries) && are_same_entries(y.entries, z.entries)
            ==> are_same_entries(x.entries, z.entries) by {
        lemma_entries(x.entries, y.entries, z.entries);
    }
    assert forall|x: FileResolutions| #[trigger] are_same_entries(x.entries, x.entries) by {
        lemma_entries(x.entries, x.entries, x.entries);
    }
    assert forall|x: FileResolutions, y: FileResolutions| #[trigger]
        are_same_entries(x.entries, y.entries) == are_same_entries(y.entries, x.entries) by {
        lemma_entries(x.entries, y.entries, x.entries);
    }
}

} // verus!
