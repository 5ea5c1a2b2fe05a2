//! What linking makes known in each file.
use crate::driver::link::{import_items, Linking, Project};
use crate::driver::project::{full_path, import_of};
use crate::driver::project_laws::lemma_id_of;
use crate::driver::resolutions::Resolution;
use crate::driver::{Function, Item, TypeAlias};
use crate::error::{rich, with_file, Error, ErrorView, RichErrorView};
use crate::list::{shared, List};
use crate::name::names;
use crate::parse;
use crate::parse::{UseDecl, UseItem, UseItems, Visibility};
use crate::source::{SourceFileView, SourceName, SourceNameView};
use vstd::prelude::*;

verus! {

/// Whether a declaration names an item, as its only one or in its list.
pub open spec fn names_item(decl: UseDecl, item: UseItem) -> bool {
    match decl.items {
        UseItems::Single(only) => item == only,
        UseItems::List(list) => list@.contains(item),
    }
}

/// Whether an item of a file introduces a name: it defines it or imports it.
pub open spec fn introduces(item: parse::Item, name: Seq<char>) -> bool {
    match item {
        parse::Item::TypeAlias(alias) => alias.name@ == name,
        parse::Item::Function(function) => function.name@ == name,
        parse::Item::Use(decl) => exists|x: UseItem| #[trigger]
            names_item(decl, x) && x.name@ == name,
        _ => false,
    }
}

/// The visibility with which an item of a file introduces its names.
pub open spec fn visibility_of(item: parse::Item) -> Visibility {
    match item {
        parse::Item::TypeAlias(alias) => alias.visibility,
        parse::Item::Function(function) => function.visibility,
        parse::Item::Use(decl) => decl.visibility,
        _ => Visibility::Private,
    }
}

/// Whether a name is known with a visibility.
pub open spec fn is_known_as(
    known: Map<Seq<char>, Resolution>,
    name: Seq<char>,
    visibility: Visibility,
) -> bool {
    known.contains_key(name) && known[name].visibility == visibility
}

/// Whether a name is known in the same way in two tables.
pub open spec fn is_same_in(
    a: Map<Seq<char>, Resolution>,
    b: Map<Seq<char>, Resolution>,
    name: Seq<char>,
) -> bool {
    &&& a.contains_key(name) <==> b.contains_key(name)
    &&& a.contains_key(name) ==> a[name].visibility == b[name].visibility
}

/// Whether what was linked before is still there: no item and no error went away, other files are
/// as they were, and no name was forgotten.
pub open spec fn extends(a: Linking, b: Linking, file_id: usize) -> bool {
    &&& a.items.is_prefix_of(b.items)
    &&& a.errors.is_prefix_of(b.errors)
    &&& a.resolutions.len() == b.resolutions.len()
    &&& forall|f: int|
        0 <= f < a.resolutions.len() && f != file_id ==> #[trigger] b.resolutions[f]
            == a.resolutions[f]
    &&& forall|name: Seq<char>| #[trigger]
        a.resolutions[file_id as int].contains_key(name) ==> b.resolutions[file_id as int].contains_key(
            name,
        )
}

/// Imports of names change only the names that are known in the importing file, and only those that
/// are imported. If no error is reported, each name was known and public in the file that it comes
/// from, and it is known in the importing file afterwards, with the visibility of the import.
proof fn lemma_imports(
    l: Linking,
    from: usize,
    file_id: usize,
    list: Seq<UseItem>,
    decl: UseDecl,
    source: SourceFileView,
)
    requires
        from < l.resolutions.len(),
        file_id < l.resolutions.len(),
    ensures
        ({
            let after = l.with_imports(from, file_id, list, decl, source);
            let before = l.resolutions[file_id as int];
            let known = after.resolutions[file_id as int];
            &&& extends(l, after, file_id)
            &&& after.items == l.items
            &&& forall|name: Seq<char>|
                #![trigger known.contains_key(name)]
                is_same_in(before, known, name) || is_known_as(known, name, decl.visibility)
                    && exists|i: int| 0 <= i < list.len() && (#[trigger] list[i]).name@ == name
            &&& after.errors.len() == l.errors.len() ==> forall|i: int|
                0 <= i < list.len() ==> is_known_as(
                    l.resolutions[from as int],
                    (#[trigger] list[i]).name@,
                    Visibility::Public,
                ) && is_known_as(known, list[i].name@, decl.visibility)
        }),
    decreases list.len(),
{
    let after = l.with_imports(from, file_id, list, decl, source);
    let before = l.resolutions[file_id as int];
    let known = after.resolutions[file_id as int];
    if list.len() > 0 {
        let shorter = list.drop_last();
        lemma_imports(l, from, file_id, shorter, decl, source);
        let middle = l.with_imports(from, file_id, shorter, decl, source);
        let there = middle.resolutions[file_id as int];
        let last = list.last().name@;
        assert(list[list.len() - 1] == list.last());
        assert forall|i: int| 0 <= i < shorter.len() implies #[trigger] shorter[i] == list[i] by {}
        assert forall|name: Seq<char>|
            #![trigger known.contains_key(name)]
            is_same_in(before, known, name) || is_known_as(known, name, decl.visibility)
                && exists|i: int| 0 <= i < list.len() && (#[trigger] list[i]).name@ == name by {
            assert(there.contains_key(name) || !there.contains_key(name));
            if !is_same_in(before, there, name) {
                let i = choose|i: int| 0 <= i < shorter.len() && (#[trigger] shorter[i]).name@ == name;
                assert(list[i].name@ == name);
            }
        }
        if after.errors.len() == l.errors.len() {
            assert(middle.errors.len() == l.errors.len());
            assert(is_known_as(middle.resolutions[from as int], last, Visibility::Public));
            assert(is_known_as(l.resolutions[from as int], last, Visibility::Public)) by {
                if from == file_id {
                    assert(there.contains_key(last));
                    if !is_same_in(before, there, last) {
                        let i = choose|i: int|
                            0 <= i < shorter.len() && (#[trigger] shorter[i]).name@ == last;
                        assert(is_known_as(
                            l.resolutions[from as int],
                            shorter[i].name@,
                            Visibility::Public,
                        ));
                    }
                }
            }
            assert forall|i: int| 0 <= i < list.len() implies is_known_as(
                l.resolutions[from as int],
                (#[trigger] list[i]).name@,
                Visibility::Public,
            ) && is_known_as(known, list[i].name@, decl.visibility) by {
                if i < shorter.len() {
                    assert(shorter[i] == list[i]);
                }
            }
        }
    }
}

/// The items of a declaration are those that it names.
proof fn lemma_named(decl: UseDecl, x: UseItem)
    ensures
        import_items(decl.items).contains(x) <==> names_item(decl, x),
{
    if let UseItems::Single(only) = decl.items {
        assert(import_items(decl.items)[0] == only);
    }
}

impl Project {
    /// Whether the file from which an item imports names, if it does, is among the first `n` files.
    pub open spec fn is_item_linkable(self, item: parse::Item, n: nat) -> bool {
        item matches parse::Item::Use(decl) ==> match self.imported_file(decl) {
            Ok(Some(from)) => from < n,
            Ok(None) => false,
            Err(_) => true,
        }
    }
}

/// Linking an item changes only what is known in its file, and there only the names that the item
/// introduces.
proof fn lemma_item_linked(
    project: Project,
    file_id: usize,
    source: SourceFileView,
    item: parse::Item,
    l: Linking,
)
    requires
        file_id < l.resolutions.len(),
        project.is_item_linkable(item, l.resolutions.len()),
    ensures
        ({
            let after = project.item_linked(file_id, source, item, l);
            let before = l.resolutions[file_id as int];
            let known = after.resolutions[file_id as int];
            &&& extends(l, after, file_id)
            &&& forall|name: Seq<char>|
                #![trigger known.contains_key(name)]
                is_same_in(before, known, name) || introduces(item, name) && is_known_as(
                    known,
                    name,
                    visibility_of(item),
                )
            &&& after.errors.len() == l.errors.len() ==> forall|name: Seq<char>| #[trigger]
                introduces(item, name) ==> is_known_as(known, name, visibility_of(item))
        }),
{
    let after = project.item_linked(file_id, source, item, l);
    let before = l.resolutions[file_id as int];
    let known = after.resolutions[file_id as int];
    if let parse::Item::Use(decl) = item {
        if let Ok(Some(from)) = project.imported_file(decl) {
            let list = import_items(decl.items);
            lemma_imports(l, from, file_id, list, decl, source);
            assert forall|name: Seq<char>|
                #![trigger known.contains_key(name)]
                is_same_in(before, known, name) || introduces(item, name) && is_known_as(
                    known,
                    name,
                    visibility_of(item),
                ) by {
                if !is_same_in(before, known, name) {
                    let i = choose|i: int| 0 <= i < list.len() && (#[trigger] list[i]).name@ == name;
                    lemma_named(decl, list[i]);
                    assert(names_item(decl, list[i]));
                }
            }
            if after.errors.len() == l.errors.len() {
                assert forall|name: Seq<char>| #[trigger] introduces(item, name) implies is_known_as(
                    known,
                    name,
                    visibility_of(item),
                ) by {
                    let x = choose|x: UseItem| #[trigger] names_item(decl, x) && x.name@ == name;
                    lemma_named(decl, x);
                    let i = choose|i: int| 0 <= i < list.len() && list[i] == x;
                    assert(list[i].name@ == name);
                }
            }
        }
    }
}

/// An import of a name succeeds if and only if the name is known and public in the file that it
/// comes from. It is then known in the importing file with the visibility of the import, and
/// nothing else changes. Otherwise the error says whether the name is missing or private.
pub proof fn import_of_name(
    l: Linking,
    from: usize,
    file_id: usize,
    name: Seq<char>,
    decl: UseDecl,
    source: SourceFileView,
)
    requires
        from < l.resolutions.len(),
        file_id < l.resolutions.len(),
    ensures
        ({
            let after = l.with_import(from, file_id, name, decl, source);
            let there = l.resolutions[from as int];
            &&& after.items == l.items
            &&& is_known_as(there, name, Visibility::Public) ==> after.errors == l.errors
                && after.resolutions == l.resolutions.update(
                file_id as int,
                l.resolutions[file_id as int].insert(
                    name,
                    Resolution { visibility: decl.visibility },
                ),
            )
            &&& !there.contains_key(name) ==> after.resolutions == l.resolutions && after.errors
                == l.errors.push(
                with_file(rich(Error::UnresolvedItem(name), decl.span), source),
            )
            &&& is_known_as(there, name, Visibility::Private) ==> after.resolutions
                == l.resolutions && after.errors == l.errors.push(
                with_file(rich(Error::PrivateItem(name), decl.span), source),
            )
        }),
{
}

/// An import that names a known library leads to the file whose path is that of the library
/// followed by the other names of the import.
pub proof fn imported_file_has_path(project: Project, decl: UseDecl)
    requires
        project.paths.len() <= usize::MAX,
    ensures
        ({
            let path = names(decl.path@);
            match project.imported_file(decl) {
                Ok(Some(from)) => {
                    &&& path.len() > 0
                    &&& project.libraries.contains_key(path[0])
                    &&& from < project.paths.len()
                    &&& project.paths[from as int] == SourceNameView::Real(project.libraries[path[0]] + path.drop_first())
                },
                Ok(None) => {
                    &&& path.len() > 0
                    &&& project.libraries.contains_key(path[0])
                    &&& forall|i: int|
                        0 <= i < project.paths.len() ==> #[trigger] project.paths[i]
                            != SourceNameView::Real(
                            project.libraries[path[0]] + path.drop_first(),
                        )
                },
                Err(_) => path.len() == 0 || !project.libraries.contains_key(path[0]),
            }
        }),
{
    let path = names(decl.path@);
    if path.len() > 0 && project.libraries.contains_key(path[0]) {
        lemma_id_of(
            project.paths,
            SourceName::Real(project.libraries[path[0]] + path.drop_first()),
        );
    }
}

impl Project {
    /// The items of the file at a position of the order.
    pub open spec fn items_at(self, order: Seq<usize>, p: int) -> Seq<parse::Item> {
        self.modules[order[p] as int].parsed_program.items@
    }

    /// What was linked before an item: the files at earlier positions of the order, and the first
    /// `q` items of the file at position `p`.
    pub open spec fn linked_before(self, order: Seq<usize>, p: int, q: int) -> Linking
        decreases q,
    {
        if q <= 0 {
            self.linked(order.take(p), order.len())
        } else {
            self.item_linked(
                order[p],
                self.modules[order[p] as int].source,
                self.items_at(order, p)[q - 1],
                self.linked_before(order, p, q - 1),
            )
        }
    }
}

/// The item at each position can be linked.
proof fn lemma_is_item_linkable(project: Project, items: List<parse::Item>, n: nat, i: int)
    requires
        project.are_linkable(items, n),
        0 <= i < items@.len(),
    ensures
        project.is_item_linkable(items@[i], n),
    decreases items,
{
    if let List::Cons(head, tail) = items {
        if i > 0 {
            assert(items@[i] == tail@[i - 1]);
            lemma_is_item_linkable(project, *tail, n, i - 1);
        } else {
            assert(items@[0] == head);
        }
    }
}

/// Items that are linked one after the other, from the last one backwards.
proof fn lemma_items_linked(
    project: Project,
    order: Seq<usize>,
    p: int,
    rest: List<parse::Item>,
    q: int,
)
    requires
        0 <= p < order.len(),
        0 <= q <= project.items_at(order, p).len(),
        rest@ == project.items_at(order, p).skip(q),
    ensures
        project.items_linked(
            order[p],
            project.modules[order[p] as int].source,
            rest,
            project.linked_before(order, p, q),
        ) == project.linked_before(order, p, project.items_at(order, p).len() as int),
    decreases rest,
{
    let all = project.items_at(order, p);
    match rest {
        List::Nil => {
            assert(all.skip(q).len() == 0);
        },
        List::Cons(head, tail) => {
            assert(rest@[0] == head);
            assert(rest@.len() > 0);
            assert(all.skip(q)[0] == all[q]);
            assert(tail@ =~= rest@.drop_first());
            assert(all.skip(q).drop_first() =~= all.skip(q + 1));
            lemma_items_linked(project, order, p, *tail, q + 1);
        },
    }
}

/// After all items of a file the file is linked.
proof fn lemma_file_linked(project: Project, order: Seq<usize>, p: int)
    requires
        0 <= p < order.len(),
    ensures
        project.linked_before(order, p, project.items_at(order, p).len() as int)
            == project.linked(order.take(p + 1), order.len()),
{
    let module = project.modules[order[p] as int];
    let all = project.items_at(order, p);
    assert(all.skip(0) =~= all);
    lemma_items_linked(project, order, p, shared(module.parsed_program.items), 0);
    assert(order.take(p + 1).drop_last() =~= order.take(p));
    assert(order.take(p + 1).last() == order[p]);
}

/// The number of files stays the same.
proof fn lemma_len(project: Project, order: Seq<usize>, p: int, q: int)
    requires
        project.is_linkable(order),
        0 <= p <= order.len(),
        q <= 0 || p < order.len() && q <= project.items_at(order, p).len(),
    ensures
        project.linked_before(order, p, q).resolutions.len() == order.len(),
    decreases p, q,
{
    if q > 0 {
        let module = project.modules[order[p] as int];
        lemma_len(project, order, p, q - 1);
        lemma_is_item_linkable(
            project,
            shared(module.parsed_program.items),
            order.len(),
            q - 1,
        );
        lemma_item_linked(
            project,
            order[p],
            module.source,
            project.items_at(order, p)[q - 1],
            project.linked_before(order, p, q - 1),
        );
    } else if p > 0 {
        let n = project.items_at(order, p - 1).len() as int;
        lemma_len(project, order, p - 1, n);
        lemma_file_linked(project, order, p - 1);
    } else {
        assert(order.take(0) =~= Seq::empty());
    }
}

/// What linking the next item changes.
proof fn lemma_next(project: Project, order: Seq<usize>, p: int, q: int)
    requires
        project.is_linkable(order),
        0 <= p < order.len(),
        0 <= q < project.items_at(order, p).len(),
    ensures
        ({
            let item = project.items_at(order, p)[q];
            let l = project.linked_before(order, p, q);
            let after = project.linked_before(order, p, q + 1);
            let before = l.resolutions[order[p] as int];
            let known = after.resolutions[order[p] as int];
            &&& l.resolutions.len() == order.len()
            &&& project.is_item_linkable(item, order.len())
            &&& extends(l, after, order[p])
            &&& forall|name: Seq<char>|
                #![trigger known.contains_key(name)]
                is_same_in(before, known, name) || introduces(item, name) && is_known_as(
                    known,
                    name,
                    visibility_of(item),
                )
            &&& after.errors.len() == l.errors.len() ==> forall|name: Seq<char>| #[trigger]
                introduces(item, name) ==> is_known_as(known, name, visibility_of(item))
        }),
{
    let module = project.modules[order[p] as int];
    lemma_len(project, order, p, q);
    lemma_is_item_linkable(project, shared(module.parsed_program.items), order.len(), q);
    lemma_item_linked(
        project,
        order[p],
        module.source,
        project.items_at(order, p)[q],
        project.linked_before(order, p, q),
    );
}

/// Whether no item of a file between two positions introduces a name.
pub open spec fn is_untouched(
    project: Project,
    order: Seq<usize>,
    p: int,
    q: int,
    name: Seq<char>,
) -> bool {
    forall|i: int|
        q <= i < project.items_at(order, p).len() ==> !introduces(
            #[trigger] project.items_at(order, p)[i],
            name,
        )
}

/// What is there before an item is there at the end of its file.
proof fn lemma_kept_in_file(project: Project, order: Seq<usize>, p: int, q: int, name: Seq<char>)
    requires
        project.is_linkable(order),
        0 <= p < order.len(),
        0 <= q <= project.items_at(order, p).len(),
    ensures
        ({
            let l = project.linked_before(order, p, q);
            let end = project.linked(order.take(p + 1), order.len());
            let file = order[p] as int;
            &&& l.resolutions.len() == order.len()
            &&& extends(l, end, order[p])
            &&& is_untouched(project, order, p, q, name) ==> is_same_in(
                l.resolutions[file],
                end.resolutions[file],
                name,
            )
        }),
    decreases project.items_at(order, p).len() - q,
{
    lemma_len(project, order, p, q);
    let all = project.items_at(order, p);
    if q == all.len() {
        lemma_file_linked(project, order, p);
    } else {
        lemma_next(project, order, p, q);
        lemma_kept_in_file(project, order, p, q + 1, name);
        let l = project.linked_before(order, p, q);
        let next = project.linked_before(order, p, q + 1);
        let file = order[p] as int;
        let end = project.linked(order.take(p + 1), order.len());
        assert(next.resolutions[file].contains_key(name) || !next.resolutions[file].contains_key(
            name,
        ));
        lemma_extends(l, next, end, order[p]);
        if is_untouched(project, order, p, q, name) {
            assert(!introduces(all[q], name));
            assert(is_untouched(project, order, p, q + 1, name));
        }
    }
}

/// What extends an extension extends what was there at first.
proof fn lemma_extends(a: Linking, b: Linking, c: Linking, file_id: usize)
    requires
        file_id < a.resolutions.len(),
        extends(a, b, file_id),
        extends(b, c, file_id),
    ensures
        extends(a, c, file_id),
{
    assert(a.items =~= c.items.take(a.items.len() as int));
    assert(a.errors =~= c.errors.take(a.errors.len() as int));
    assert forall|f: int| 0 <= f < a.resolutions.len() && f != file_id implies #[trigger]
        c.resolutions[f] == a.resolutions[f] by {
        assert(b.resolutions[f] == a.resolutions[f]);
    }
    assert forall|name: Seq<char>| #[trigger]
        a.resolutions[file_id as int].contains_key(
            name,
        ) implies c.resolutions[file_id as int].contains_key(name) by {
        assert(b.resolutions[file_id as int].contains_key(name));
    }
}

/// What is there after a file is there at the end, and the names that are known in the file stay as
/// they are if the file is not linked again.
proof fn lemma_kept(project: Project, order: Seq<usize>, p: int, file: int, name: Seq<char>)
    requires
        project.is_linkable(order),
        0 <= p <= order.len(),
        0 <= file < order.len(),
    ensures
        ({
            let l = project.linked(order.take(p), order.len());
            let end = project.linked(order, order.len());
            &&& l.items.is_prefix_of(end.items)
            &&& l.errors.is_prefix_of(end.errors)
            &&& l.resolutions.len() == order.len()
            &&& end.resolutions.len() == order.len()
            &&& l.resolutions[file].contains_key(name) ==> end.resolutions[file].contains_key(name)
            &&& (forall|i: int| p <= i < order.len() ==> #[trigger] order[i] != file)
                ==> end.resolutions[file] == l.resolutions[file]
        }),
    decreases order.len() - p,
{
    lemma_len(project, order, p, 0);
    let l = project.linked(order.take(p), order.len());
    let end = project.linked(order, order.len());
    if p == order.len() {
        assert(order.take(p) =~= order);
    } else {
        lemma_kept(project, order, p + 1, file, name);
        lemma_kept_in_file(project, order, p, 0, name);
        let next = project.linked(order.take(p + 1), order.len());
        assert(l == project.linked_before(order, p, 0));
        assert(l.items =~= end.items.take(l.items.len() as int));
        assert(l.errors =~= end.errors.take(l.errors.len() as int));
        if order[p] != file {
            assert(next.resolutions[file] == l.resolutions[file]);
        }
    }
}

/// What linking the first items leads to is kept up to the end.
proof fn lemma_kept_from(
    project: Project,
    order: Seq<usize>,
    p: int,
    q: int,
    file: int,
    name: Seq<char>,
)
    requires
        project.is_linkable(order),
        0 <= p < order.len(),
        0 <= q <= project.items_at(order, p).len(),
        0 <= file < order.len(),
    ensures
        ({
            let l = project.linked_before(order, p, q);
            let end = project.linked(order, order.len());
            &&& l.items.is_prefix_of(end.items)
            &&& l.errors.is_prefix_of(end.errors)
            &&& l.resolutions[file].contains_key(name) ==> end.resolutions[file].contains_key(name)
            &&& order.no_duplicates() && file == order[p] && is_untouched(
                project,
                order,
                p,
                q,
                name,
            ) ==> is_same_in(l.resolutions[file], end.resolutions[file], name)
        }),
{
    lemma_kept_in_file(project, order, p, q, name);
    lemma_kept(project, order, p + 1, file, name);
    let l = project.linked_before(order, p, q);
    let next = project.linked(order.take(p + 1), order.len());
    let end = project.linked(order, order.len());
    assert(l.items =~= end.items.take(l.items.len() as int));
    assert(l.errors =~= end.errors.take(l.errors.len() as int));
    if file != order[p] {
        assert(next.resolutions[file] == l.resolutions[file]);
    }
    if order.no_duplicates() && file == order[p] {
        assert forall|i: int| p + 1 <= i < order.len() implies #[trigger] order[i] != file by {
            assert(order[p] != order[i]);
        }
    }
}

/// After linking without errors each name that an item of a file introduces, by a definition or by
/// an import of one item or of a list of items, is known in the file. It has the visibility of that
/// item, unless a later item of the file introduces the name again.
pub proof fn introduced_names_are_known(
    project: Project,
    order: Seq<usize>,
    p: int,
    q: int,
    name: Seq<char>,
)
    requires
        project.is_linkable(order),
        order.no_duplicates(),
        project.linked(order, order.len()).errors.len() == 0,
        0 <= p < order.len(),
        0 <= q < project.items_at(order, p).len(),
        introduces(project.items_at(order, p)[q], name),
    ensures
        ({
            let known = project.linked(order, order.len()).resolutions[order[p] as int];
            &&& known.contains_key(name)
            &&& (forall|i: int|
                q < i < project.items_at(order, p).len() ==> !introduces(
                    #[trigger] project.items_at(order, p)[i],
                    name,
                )) ==> known[name].visibility == visibility_of(project.items_at(order, p)[q])
        }),
{
    lemma_next(project, order, p, q);
    lemma_kept_from(project, order, p, q, order[p] as int, name);
    lemma_kept_from(project, order, p, q + 1, order[p] as int, name);
    let item = project.items_at(order, p)[q];
    let after = project.linked_before(order, p, q + 1);
    assert(is_known_as(after.resolutions[order[p] as int], name, visibility_of(item)));
}

/// After linking without errors, each import leads to a file of the project, and each item that it
/// names, as its only one or in its list, was known and public there when it was imported, and is
/// still known there at the end.
pub proof fn imported_names_are_public(
    project: Project,
    order: Seq<usize>,
    p: int,
    q: int,
    decl: UseDecl,
    item: UseItem,
)
    requires
        project.is_linkable(order),
        project.linked(order, order.len()).errors.len() == 0,
        0 <= p < order.len(),
        0 <= q < project.items_at(order, p).len(),
        project.items_at(order, p)[q] == parse::Item::Use(decl),
        names_item(decl, item),
    ensures
        project.imported_file(decl) matches Ok(Some(from)) && from < order.len() && is_known_as(
            project.linked_before(order, p, q).resolutions[from as int],
            item.name@,
            Visibility::Public,
        ) && project.linked(order, order.len()).resolutions[from as int].contains_key(item.name@),
{
    lemma_next(project, order, p, q);
    lemma_kept_from(project, order, p, q, order[p] as int, item.name@);
    lemma_kept_from(project, order, p, q + 1, order[p] as int, item.name@);
    let l = project.linked_before(order, p, q);
    let after = project.linked_before(order, p, q + 1);
    assert(l.errors.len() == 0);
    assert(after.errors.len() == 0);
    match project.imported_file(decl) {
        Ok(Some(from)) => {
            let list = import_items(decl.items);
            lemma_imports(
                l,
                from,
                order[p],
                list,
                decl,
                project.modules[order[p] as int].source,
            );
            lemma_named(decl, item);
            let i = choose|i: int| 0 <= i < list.len() && list[i] == item;
            assert(is_known_as(
                l.resolutions[from as int],
                list[i].name@,
                Visibility::Public,
            ));
            lemma_kept_from(project, order, p, q, from as int, item.name@);
        },
        _ => {},
    }
}

/// Only names that an item of a file introduces are known in the file.
proof fn lemma_known_names_are_introduced(
    project: Project,
    order: Seq<usize>,
    p: int,
    q: int,
    file: int,
    name: Seq<char>,
)
    requires
        project.is_linkable(order),
        0 <= p <= order.len(),
        q <= 0 || p < order.len() && q <= project.items_at(order, p).len(),
        0 <= file < order.len(),
        project.linked_before(order, p, q).resolutions[file].contains_key(name),
    ensures
        exists|i: int, j: int|
            0 <= i < order.len() && order[i] == file && 0 <= j < project.items_at(order, i).len()
                && introduces(#[trigger] project.items_at(order, i)[j], name),
    decreases p, q,
{
    if q > 0 {
        lemma_next(project, order, p, q - 1);
        let l = project.linked_before(order, p, q - 1);
        let after = project.linked_before(order, p, q);
        let item = project.items_at(order, p)[q - 1];
        if l.resolutions[file].contains_key(name) {
            lemma_known_names_are_introduced(project, order, p, q - 1, file, name);
        } else {
            assert(file == order[p]);
            assert(after.resolutions[file].contains_key(name));
            assert(introduces(project.items_at(order, p)[q - 1], name));
        }
    } else if p > 0 {
        lemma_file_linked(project, order, p - 1);
        lemma_known_names_are_introduced(
            project,
            order,
            p - 1,
            project.items_at(order, p - 1).len() as int,
            file,
            name,
        );
    } else {
        assert(order.take(0) =~= Seq::empty());
    }
}

/// A name is known in a file only if an item of the file introduces it.
pub proof fn known_names_are_introduced(
    project: Project,
    order: Seq<usize>,
    file: int,
    name: Seq<char>,
)
    requires
        project.is_linkable(order),
        0 <= file < order.len(),
        project.linked(order, order.len()).resolutions[file].contains_key(name),
    ensures
        exists|i: int, j: int|
            0 <= i < order.len() && order[i] == file && 0 <= j < project.items_at(order, i).len()
                && introduces(#[trigger] project.items_at(order, i)[j], name),
{
    assert(order.take(order.len() as int) =~= order);
    assert(project.linked_before(order, order.len() as int, 0) == project.linked(
        order,
        order.len(),
    ));
    lemma_known_names_are_introduced(project, order, order.len() as int, 0, file, name);
}

/// Each definition of a file is an item of the linked program, behind the definitions of earlier
/// files and the earlier definitions of the same file. It keeps its name and its content, and it
/// has the number of the file. Other items of the file add nothing to the program.
pub proof fn definitions_are_linked(project: Project, order: Seq<usize>, p: int, q: int)
    requires
        project.is_linkable(order),
        0 <= p < order.len(),
        0 <= q < project.items_at(order, p).len(),
    ensures
        ({
            let k = project.linked_before(order, p, q).items.len() as int;
            let next = project.linked_before(order, p, q + 1).items.len();
            let all = project.linked(order, order.len()).items;
            match project.items_at(order, p)[q] {
                parse::Item::TypeAlias(alias) => {
                    &&& next == k + 1 <= all.len()
                    &&& all[k] matches Item::TypeAlias(linked) && linked == (TypeAlias {
                        file_id: order[p],
                        name: alias.name,
                        ty: alias.ty,
                        span: alias.span,
                    })
                },
                parse::Item::Function(function) => {
                    &&& next == k + 1 <= all.len()
                    &&& all[k] matches Item::Function(linked) && linked == (Function {
                        file_id: order[p],
                        name: function.name,
                        params: function.params,
                        ret: function.ret,
                        body: function.body,
                        span: function.span,
                    })
                },
                _ => next == k <= all.len(),
            }
        }),
{
    let file = order[p] as int;
    lemma_next(project, order, p, q);
    lemma_kept_from(project, order, p, q + 1, file, Seq::empty());
    let l = project.linked_before(order, p, q);
    let after = project.linked_before(order, p, q + 1);
    let all = project.linked(order, order.len()).items;
    let k = l.items.len() as int;
    assert(after.items =~= all.take(after.items.len() as int));
    if let parse::Item::Use(decl) = project.items_at(order, p)[q] {
        if let Ok(Some(from)) = project.imported_file(decl) {
            lemma_imports(
                l,
                from,
                order[p],
                import_items(decl.items),
                decl,
                project.modules[file].source,
            );
        }
    } else if after.items.len() == k + 1 {
        assert(after.items[k] == all[k]);
    }
}

/// An import from a library that is not known is reported at its place in the file, by the name of
/// the library. Nothing else comes of it. An import from a known library leads from the directory
/// of the library to the file by the remaining names.
pub proof fn unknown_libraries_are_reported(
    project: Project,
    file_id: usize,
    source: SourceFileView,
    decl: UseDecl,
    l: Linking,
)
    ensures
        ({
            let path = names(decl.path@);
            let after = project.item_linked(file_id, source, parse::Item::Use(decl), l);
            &&& path.len() > 0 && !project.libraries.contains_key(path[0]) ==> {
                &&& after.items == l.items
                &&& after.resolutions == l.resolutions
                &&& after.errors.len() == l.errors.len() + 1
                &&& after.errors.drop_last() == l.errors
                &&& *after.errors.last().error == ErrorView::UnknownLibrary(path[0])
                &&& after.errors.last().span == decl.span
                &&& after.errors.last().source == Some(source)
                &&& import_of(parse::Item::Use(decl), project.libraries).len() == 0
            }
            &&& path.len() > 0 && project.libraries.contains_key(path[0]) ==> full_path(
                project.libraries,
                decl,
            ) == Ok::<Seq<Seq<char>>, RichErrorView>(
                project.libraries[path[0]] + path.subrange(1, path.len() as int),
            )
        }),
{
    let path = names(decl.path@);
    if path.len() > 0 {
        if project.libraries.contains_key(path[0]) {
            assert(path.drop_first() =~= path.subrange(1, path.len() as int));
        } else {
            let after = project.item_linked(file_id, source, parse::Item::Use(decl), l);
            assert(after.errors.drop_last() =~= l.errors);
        }
    }
}

} // verus!
