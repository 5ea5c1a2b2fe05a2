//! The graph of the files of a workspace, and the single program that it is flattened into.
use super::dfs::{load_order, searched};
use super::dfs_laws::load_order_is_bottom_up;
use super::linearize::dependencies_view;
use crate::error::{ErrorCollector, Span};
use crate::list::List;
use crate::name::{names, Identifier};
use crate::parse::{
    is_same_use, Function, Item, Module, Program, TypeAlias, UseDecl, UseItems, Visibility,
};
use crate::path::CanonPath;
use crate::resolution::{path_views, ResolvedUse, ResolvedUseView};
use crate::source::{source_name_text, SourceFile};
use crate::text::{decimal, decimal_text, join, joined, texts};
use std::collections::HashMap;
use std::sync::Arc;
use vstd::prelude::*;

verus! {

/// A file of a workspace.
#[derive(Debug)]
pub struct SourceModule {
    /// The file.
    pub source: SourceFile,
    /// The program in the file.
    pub program: Program,
}

/// The files of a workspace and how they depend on each other.
///
/// Each file has a number. The number of the entry file is zero.
#[derive(Debug)]
pub struct DependencyGraph {
    /// The files.
    pub modules: Vec<SourceModule>,
    /// The path of each file.
    pub paths: Vec<CanonPath>,
    /// The files that each file imports, in the order of its imports.
    pub dependencies: HashMap<usize, Vec<usize>>,
    /// The file and the remaining path that each import was resolved to.
    pub use_cache: Vec<(UseDecl, ResolvedUse)>,
}

/// Why the files of a workspace have no load order.
#[derive(Debug, PartialEq, Eq)]
pub enum LinearizationError {
    /// Raised when a circular dependency (e.g., A -> B -> A) is detected.
    CycleDetected(Vec<String>),
}

/// What an import was resolved to: the first entry for the same import.
pub open spec fn cached(cache: Seq<(UseDecl, ResolvedUse)>, use_decl: UseDecl) -> Option<
    ResolvedUseView,
>
    decreases cache.len(),
{
    if cache.len() == 0 {
        None
    } else if is_same_use(cache[0].0, use_decl) {
        Some(cache[0].1@)
    } else {
        cached(cache.drop_first(), use_decl)
    }
}

/// The name of the module that a file is wrapped in.
pub open spec fn file_module_name(id: nat) -> Seq<char> {
    "file_"@ + decimal(id)
}

impl DependencyGraph {
    /// Whether numbers are those of files.
    pub open spec fn has_files(self, ids: Seq<usize>) -> bool {
        forall|i: int| 0 <= i < ids.len() ==> #[trigger] ids[i] < self.modules@.len()
    }

    /// Whether there is an entry file, and files depend only on files.
    pub open spec fn is_closed(self) -> bool {
        &&& self.modules@.len() > 0
        &&& forall|id: usize|
            self.dependencies@.dom().contains(id) ==> self.has_files(
                (#[trigger] self.dependencies@[id])@,
            )
    }

    /// Whether numbers are those of files whose imports were resolved to one of the files.
    pub open spec fn can_flatten(self, order: Seq<usize>) -> bool {
        &&& self.has_files(order)
        &&& forall|i: int|
            0 <= i < order.len() ==> self.can_rewrite_all(
                *self.modules@[#[trigger] order[i] as int].program.items,
            )
    }

    /// The outcome of the search for a load order: the order, or else files that depend on each
    /// other.
    pub open spec fn search(self) -> Result<Seq<usize>, Seq<usize>> {
        searched(dependencies_view(self.dependencies@), Seq::empty(), Seq::empty(), 0)
    }

    /// Whether an import was resolved to one of the files.
    pub open spec fn can_rewrite_use(self, use_decl: UseDecl) -> bool {
        cached(self.use_cache@, use_decl) matches Some(resolved) && path_views(
            self.paths@,
        ).contains(resolved.path)
    }

    /// Whether all imports in an item were resolved to one of the files.
    pub open spec fn can_rewrite(self, item: Item) -> bool
        decreases item,
    {
        match item {
            Item::Use(use_decl) => self.can_rewrite_use(use_decl),
            Item::Module(module) => self.can_rewrite_all(*module.items),
            _ => true,
        }
    }

    /// Whether all imports in items were resolved to one of the files.
    pub open spec fn can_rewrite_all(self, items: List<Item>) -> bool
        decreases items,
    {
        match items {
            List::Nil => true,
            List::Cons(item, rest) => self.can_rewrite(item) && self.can_rewrite_all(*rest),
        }
    }

    /// The number of the file with a path.
    pub open spec fn file_id(self, path: Seq<Seq<char>>) -> int {
        path_views(self.paths@).index_of_first(path).unwrap()
    }

    /// The path that leads to the items of an import in the flattened program: `crate`, the module
    /// of the file unless it is the entry file, and the remaining path inside the file.
    pub open spec fn flat_path(self, use_decl: UseDecl) -> Seq<Seq<char>> {
        let resolved = cached(self.use_cache@, use_decl).unwrap();
        let id = self.file_id(resolved.path);
        let file = if id == 0 {
            seq!["crate"@]
        } else {
            seq!["crate"@, file_module_name(id as nat)]
        };
        file + resolved.mod_path
    }

    /// Whether an item of the flattened program stands for an item of a file.
    pub open spec fn is_rewritten(self, id: usize, item: Item, result: Item) -> bool
        decreases item,
    {
        match (item, result) {
            (Item::TypeAlias(before), Item::TypeAlias(after)) => after == (TypeAlias {
                file_id: id,
                ..before
            }),
            (Item::Function(before), Item::Function(after)) => after == (Function {
                file_id: id,
                ..before
            }),
            (Item::Use(before), Item::Use(after)) => {
                &&& after.visibility == before.visibility
                &&& names(after.path@) == self.flat_path(before)
                &&& is_copy_of_items(before.items, after.items)
                &&& after.span == before.span
            },
            (Item::Module(before), Item::Module(after)) => {
                &&& after.file_id == id
                &&& after.visibility == before.visibility
                &&& after.name == before.name
                &&& after.span == (Span { start: 0, end: 0 })
                &&& self.are_rewritten(id, *before.items, after.items@)
            },
            _ => false,
        }
    }

    /// Whether items of the flattened program stand for the items of a file, one for each that is
    /// not a placeholder.
    pub open spec fn are_rewritten(self, id: usize, items: List<Item>, result: Seq<Item>) -> bool
        decreases items,
    {
        match items {
            List::Nil => result.len() == 0,
            List::Cons(item, rest) => if item is Ignored {
                self.are_rewritten(id, *rest, result)
            } else {
                result.len() > 0 && self.is_rewritten(id, item, result[0]) && self.are_rewritten(
                    id,
                    *rest,
                    result.drop_first(),
                )
            },
        }
    }

    /// Whether an item of the flattened program is the module that a file is wrapped in.
    pub open spec fn is_file_module(self, id: usize, result: Item) -> bool {
        match result {
            Item::Module(module) => {
                &&& module.file_id == id
                &&& module.visibility == Visibility::Private
                &&& module.name@ == file_module_name(id as nat)
                &&& module.span == (Span { start: 0, end: 0 })
                &&& self.are_rewritten(
                    id,
                    *self.modules@[id as int].program.items,
                    module.items@,
                )
            },
            _ => false,
        }
    }

    /// Whether items are those of the flattened program for a load order: those of the entry file
    /// as they are, and those of each other file in a module of their own.
    pub open spec fn is_flattened(self, order: Seq<usize>, result: Seq<Item>) -> bool
        decreases order.len(),
    {
        if order.len() == 0 {
            result.len() == 0
        } else if order.last() == 0 {
            let n = kept(*self.modules@[0].program.items);
            &&& result.len() >= n
            &&& self.is_flattened(order.drop_last(), result.take(result.len() - n))
            &&& self.are_rewritten(
                0,
                *self.modules@[0].program.items,
                result.skip(result.len() - n),
            )
        } else {
            &&& result.len() > 0
            &&& self.is_flattened(order.drop_last(), result.drop_last())
            &&& self.is_file_module(order.last(), result.last())
        }
    }

    /// The load order of the files, or else the names of files that depend on each other.
    pub open spec fn linearized(self) -> Result<Seq<usize>, Seq<Seq<char>>> {
        match self.search() {
            Ok(order) => Ok(order),
            Err(cycle) => Err(self.file_names(cycle)),
        }
    }

    /// The names of files.
    pub open spec fn file_names(self, ids: Seq<usize>) -> Seq<Seq<char>> {
        Seq::new(ids.len(), |i: int| source_name_text(self.modules@[ids[i] as int].source.name@))
    }
}

/// The number of items that are not placeholders.
pub open spec fn kept(items: List<Item>) -> nat
    decreases items,
{
    match items {
        List::Nil => 0,
        List::Cons(item, rest) => if item is Ignored {
            kept(*rest)
        } else {
            1 + kept(*rest)
        },
    }
}

/// Whether imported items are a copy of others.
pub open spec fn is_copy_of_items(items: UseItems, copy: UseItems) -> bool {
    match (items, copy) {
        (UseItems::Single(x), UseItems::Single(y)) => x == y,
        (UseItems::List(x), UseItems::List(y)) => x@ == y@,
        _ => false,
    }
}

/// The text as a string literal, with quotes around it and with escapes inside: what the `Debug`
/// implementation of `str` in the standard library writes.
pub uninterp spec fn quoted(text: Seq<char>) -> Seq<char>;

/// Write a text as a string literal, by means of the `Debug` implementation of `str`. The result
/// depends on the text alone; which characters are escaped is not stated.
#[verifier::external_body]
fn quote(text: &str) -> (result: String)
    ensures
        result@ == quoted(text@),
{
    format!("{:?}", text)
}

/// The message about a cycle of files, given the string literal of their names.
pub fn cycle_message(literal: &str) -> (message: String)
    ensures
        message@ == "Circular dependency detected: "@ + literal@,
{
    let mut message: String = "Circular dependency detected: ".to_owned();
    message.append(literal);
    message
}

impl LinearizationError {
    /// Write the error.
    pub fn to_string(&self) -> (message: String)
        ensures
            match self {
                LinearizationError::CycleDetected(cycle) => message@
                    == "Circular dependency detected: "@ + quoted(joined(texts(cycle@), " -> "@)),
            },
    {
        match self {
            LinearizationError::CycleDetected(cycle) => {
                cycle_message(quote(join(cycle, " -> ").as_str()).as_str())
            },
        }
    }
}

/// Copy imported items.
fn copy_items(items: &UseItems) -> (copy: UseItems)
    ensures
        is_copy_of_items(*items, copy),
{
    match items {
        UseItems::Single(item) => UseItems::Single(item.clone()),
        UseItems::List(list) => {
            let copies = list.clone();
            assert(copies@ =~= list@);
            UseItems::List(copies)
        },
    }
}

impl DependencyGraph {
    /// Find out what an import was resolved to.
    fn find_cached(&self, use_decl: &UseDecl) -> (result: Option<&ResolvedUse>)
        ensures
            match result {
                Some(resolved) => cached(self.use_cache@, *use_decl) == Some(resolved@),
                None => cached(self.use_cache@, *use_decl) is None,
            },
    {
        let mut i: usize = 0;
        assert(self.use_cache@.skip(0) =~= self.use_cache@);
        while i < self.use_cache.len()
            invariant
                i <= self.use_cache.len(),
                cached(self.use_cache@, *use_decl) == cached(
                    self.use_cache@.skip(i as int),
                    *use_decl,
                ),
            decreases self.use_cache.len() - i,
        {
            assert(self.use_cache@.skip(i as int)[0] == self.use_cache@[i as int]);
            assert(self.use_cache@.skip(i as int).drop_first() =~= self.use_cache@.skip(i + 1));
            let entry = &self.use_cache[i];
            if entry.0.same(use_decl) {
                return Some(&entry.1);
            }
            i = i + 1;
        }
        None
    }

    /// The number of the file with a path.
    fn find_file_id(&self, path: &CanonPath) -> (id: usize)
        requires
            path_views(self.paths@).contains(path@),
        ensures
            id == self.file_id(path@),
            id < self.paths@.len(),
    {
        let ghost all = path_views(self.paths@);
        let mut i: usize = 0;
        proof {
            all.index_of_first_ensures(path@);
        }
        while i < self.paths.len()
            invariant
                i <= self.paths.len(),
                all == path_views(self.paths@),
                all.contains(path@),
                forall|j: int| 0 <= j < i ==> #[trigger] all[j] != path@,
            decreases self.paths.len() - i,
        {
            assert(all[i as int] == self.paths@[i as int]@);
            if self.paths[i].path.same(&path.path) {
                proof {
                    all.index_of_first_ensures(path@);
                    let first = all.index_of_first(path@).unwrap();
                    assert(all[first] == path@);
                }
                return i;
            }
            i = i + 1;
        }
        proof {
            let j = choose|j: int| 0 <= j < all.len() && all[j] == path@;
            assert(all[j] != path@);
        }
        0
    }

    /// The name of the module that a file is wrapped in.
    pub fn get_module_name(source_id: usize) -> (name: Identifier)
        ensures
            name@ == file_module_name(source_id as nat),
    {
        let mut name: String = "file_".to_owned();
        name.append(decimal_text(source_id).as_str());
        Identifier { text: name }
    }

    /// Rewrites a `use` declaration by replacing the name of the dependency with the canonical
    /// `file_N` module name, prepending it to the remaining path from the cache.
    /// If the target is the entry file, the `file_N` segment is omitted.
    ///
    /// ## Example
    ///
    /// `use base_math::simple_op::hash` into `use crate::file_2::hash`
    /// `use crate::inline_mod::item` into `use crate::inline_mod::item`
    pub fn rewrite_use(&self, use_decl: &UseDecl) -> (result: Item)
        requires
            self.can_rewrite_use(*use_decl),
        ensures
            forall|id: usize| #[trigger] self.is_rewritten(id, Item::Use(*use_decl), result),
    {
        let mut path: Vec<Identifier> = Vec::new();
        path.push(Identifier::from_str_unchecked("crate"));
        if let Some(resolved) = self.find_cached(use_decl) {
            let target_id = self.find_file_id(&resolved.path);
            if target_id != 0 {
                path.push(DependencyGraph::get_module_name(target_id));
            }
            let ghost prefix = names(path@);
            let ghost rest = names(resolved.mod_path@);
            proof {
                if target_id == 0 {
                    assert(prefix =~= seq!["crate"@]);
                } else {
                    assert(prefix =~= seq!["crate"@, file_module_name(target_id as nat)]);
                }
                assert(prefix + rest.take(0) =~= prefix);
            }
            let mut i: usize = 0;
            while i < resolved.mod_path.len()
                invariant
                    i <= resolved.mod_path.len(),
                    rest == names(resolved.mod_path@),
                    names(path@) == prefix + rest.take(i as int),
                decreases resolved.mod_path.len() - i,
            {
                let ghost before = path@;
                path.push(resolved.mod_path[i].clone());
                i = i + 1;
                assert(names(path@) =~= names(before).push(rest[i - 1]));
                assert(names(path@) =~= prefix + rest.take(i as int));
            }
            assert(rest.take(i as int) =~= rest);
            assert(names(path@) == self.flat_path(*use_decl));
        }
        Item::Use(
            UseDecl {
                visibility: use_decl.visibility,
                path,
                items: copy_items(&use_decl.items),
                span: use_decl.span,
            },
        )
    }

    /// Rewrites a single item for the flattened single-file representation.
    ///
    /// A placeholder is left out.
    pub fn rewrite_item(&self, source_id: usize, item: &Item) -> (result: Option<Item>)
        requires
            self.can_rewrite(*item),
        ensures
            match result {
                Some(rewritten) => !(item is Ignored) && self.is_rewritten(
                    source_id,
                    *item,
                    rewritten,
                ),
                None => item is Ignored,
            },
        decreases item,
    {
        match item {
            Item::TypeAlias(alias) => {
                let mut alias = alias.clone();
                alias.file_id = source_id;
                Some(Item::TypeAlias(alias))
            },
            Item::Function(function) => {
                let mut function = function.clone();
                function.file_id = source_id;
                Some(Item::Function(function))
            },
            Item::Use(use_decl) => Some(self.rewrite_use(use_decl)),
            Item::Module(module) => {
                let mut items: Vec<Item> = Vec::new();
                self.rewrite_items(source_id, &module.items, &mut items);
                assert(items@.skip(0) =~= items@);
                Some(
                    Item::Module(
                        Module {
                            file_id: source_id,
                            visibility: module.visibility,
                            name: module.name.clone(),
                            items: Arc::new(List::from_vec(items)),
                            span: Span::new(0, 0),
                        },
                    ),
                )
            },
            Item::Ignored => None,
        }
    }

    /// Rewrites items and appends them to others.
    fn rewrite_items(&self, source_id: usize, items: &List<Item>, result: &mut Vec<Item>)
        requires
            self.can_rewrite_all(*items),
        ensures
            final(result)@.len() == old(result)@.len() + kept(*items),
            final(result)@.take(old(result)@.len() as int) == old(result)@,
            self.are_rewritten(
                source_id,
                *items,
                final(result)@.skip(old(result)@.len() as int),
            ),
        decreases items,
    {
        let ghost before = result@;
        match items {
            List::Nil => {
                assert(result@.skip(before.len() as int) =~= Seq::empty());
                assert(result@.take(before.len() as int) =~= before);
            },
            List::Cons(item, rest) => {
                match self.rewrite_item(source_id, item) {
                    Some(rewritten) => {
                        result.push(rewritten);
                        let ghost middle = result@;
                        self.rewrite_items(source_id, rest, result);
                        proof {
                            let after = result@.skip(before.len() as int);
                            assert(after[0] == result@.take(middle.len() as int).last());
                            assert(after.drop_first() =~= result@.skip(middle.len() as int));
                            assert(result@.take(before.len() as int) =~= result@.take(
                                middle.len() as int,
                            ).take(before.len() as int));
                            assert(middle.take(before.len() as int) =~= before);
                        }
                    },
                    None => {
                        self.rewrite_items(source_id, rest, result);
                    },
                }
            },
        }
    }

    /// Constructs the unified items for the entire multi-file program.
    ///
    /// There is no program if errors occurred.
    pub fn build_program(&self, order: &Vec<usize>, handler: &ErrorCollector) -> (result: Option<
        Program,
    >)
        requires
            self.can_flatten(order@),
            handler@.len() == 0 ==> self.modules@.len() > 0,
        ensures
            result is None <==> handler@.len() > 0,
            match result {
                Some(program) => self.is_flattened(order@, program.items@) && program.span
                    == self.modules@[0].program.span,
                None => true,
            },
    {
        let mut items: Vec<Item> = Vec::new();
        let mut i: usize = 0;
        assert(order@.take(0) =~= Seq::empty());
        while i < order.len()
            invariant
                i <= order.len(),
                self.can_flatten(order@),
                self.is_flattened(order@.take(i as int), items@),
            decreases order.len() - i,
        {
            let ghost before = items@;
            let source_id: usize = order[i];
            assert(source_id == order@[i as int]);
            let module = &self.modules[source_id];
            i = i + 1;
            assert(order@.take(i as int).drop_last() =~= order@.take(i - 1));
            if source_id == 0 {
                self.rewrite_items(source_id, &module.program.items, &mut items);
            } else {
                let mut local_items: Vec<Item> = Vec::new();
                self.rewrite_items(source_id, &module.program.items, &mut local_items);
                assert(local_items@.skip(0) =~= local_items@);
                items.push(
                    Item::Module(
                        Module {
                            file_id: source_id,
                            visibility: Visibility::Private,
                            name: DependencyGraph::get_module_name(source_id),
                            items: Arc::new(List::from_vec(local_items)),
                            span: Span::new(0, 0),
                        },
                    ),
                );
                assert(items@.drop_last() =~= before);
            }
        }
        assert(order@.take(i as int) =~= order@);
        if handler.has_errors() {
            None
        } else {
            Some(
                Program {
                    items: Arc::new(List::from_vec(items)),
                    span: self.modules[0].program.span,
                },
            )
        }
    }
}

impl DependencyGraph {
    /// Returns the deterministic, bottom-up load order of dependencies.
    ///
    /// ## Errors
    ///
    /// * [`LinearizationError::CycleDetected`] Files depend on each other.
    pub fn linearize(&self) -> (result: Result<Vec<usize>, LinearizationError>)
        requires
            self.search() matches Err(cycle) ==> self.has_files(cycle),
        ensures
            match (result, self.linearized()) {
                (Ok(order), Ok(expected)) => order@ == expected,
                (Err(LinearizationError::CycleDetected(actual)), Err(expected)) => texts(actual@)
                    == expected,
                _ => false,
            },
    {
        match load_order(&self.dependencies, 0) {
            Ok(order) => Ok(order),
            Err(cycle) => {
                let mut file_names: Vec<String> = Vec::new();
                let mut i: usize = 0;
                assert(texts(file_names@) =~= self.file_names(cycle@).take(0));
                while i < cycle.len()
                    invariant
                        i <= cycle.len(),
                        self.has_files(cycle@),
                        texts(file_names@) == self.file_names(cycle@).take(i as int),
                    decreases cycle.len() - i,
                {
                    let ghost before = file_names@;
                    file_names.push(self.modules[cycle[i]].source.str_name());
                    i = i + 1;
                    assert(texts(file_names@) =~= texts(before).push(
                        self.file_names(cycle@)[i - 1],
                    ));
                    assert(texts(file_names@) =~= self.file_names(cycle@).take(i as int));
                }
                assert(self.file_names(cycle@).take(i as int) =~= self.file_names(cycle@));
                Err(LinearizationError::CycleDetected(file_names))
            },
        }
    }

    /// Resolves the dependency graph and constructs the final program.
    ///
    /// There is no program if errors occurred.
    ///
    /// ## Errors
    ///
    /// Files depend on each other.
    pub fn linearize_and_build(&self, handler: &mut ErrorCollector) -> (result: Result<
        Option<Program>,
        String,
    >)
        requires
            match self.search() {
                Ok(order) => self.can_flatten(order),
                Err(cycle) => self.has_files(cycle),
            },
        ensures
            *final(handler) == *old(handler),
            match (result, self.linearized()) {
                (Ok(program), Ok(order)) => match program {
                    Some(program) => {
                        &&& old(handler)@.len() == 0
                        &&& self.is_flattened(order, program.items@)
                        &&& program.span == self.modules@[0].program.span
                    },
                    None => old(handler)@.len() > 0,
                },
                (Err(message), Err(cycle)) => message@ == "Circular dependency detected: "@
                    + quoted(joined(cycle, " -> "@)),
                _ => false,
            },
    {
        broadcast use vstd::std_specs::hash::axiom_hashmap_view_finite_dom;

        proof {
            let graph = dependencies_view(self.dependencies@);
            assert(graph.dom() =~= self.dependencies@.dom());
            load_order_is_bottom_up(graph, 0);
        }
        match self.linearize() {
            Ok(order) => Ok(self.build_program(&order, handler)),
            Err(err) => Err(err.to_string()),
        }
    }
}

} // verus!
