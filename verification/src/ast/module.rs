//! Namespaces of modules.
use crate::ast::CustomFunction;
use crate::error::{Error, ErrorView};
use crate::list::List;
use crate::name::{names, Identifier, ModuleName, SymbolName};
use crate::name_map::NameMap;
use crate::parse::{UseItem, UseItems, Visibility};
use crate::types::{AliasMap, ResolvedType};
use vstd::prelude::*;

verus! {

/// A value that can be copied as it is.
pub trait Duplicate: Sized {
    /// Copy the value.
    fn duplicate(&self) -> (result: Self)
        ensures
            result == *self,
    ;
}

impl Duplicate for ResolvedType {
    fn duplicate(&self) -> (result: Self) {
        self.clone()
    }
}

impl Duplicate for CustomFunction {
    fn duplicate(&self) -> (result: Self) {
        self.clone()
    }
}

/// A single module namespace. Handles arbitrary nesting via `submodules`.
#[derive(Debug)]
pub struct ModuleScope {
    pub aliases: NameMap<(ResolvedType, Visibility)>,
    pub functions: NameMap<(CustomFunction, Visibility)>,
    /// Nested modules, each of which is a child scope.
    pub submodules: Submodules,
}

/// Nested modules, latest first.
#[derive(Debug)]
pub enum Submodules {
    Nil,
    Cons(ModuleName, Box<ModuleScope>, Visibility, Box<Submodules>),
}

/// What a contract says of a module namespace.
#[verifier::ext_equal]
pub ghost struct ModuleView {
    /// The type aliases, by name.
    pub aliases: AliasMap,
    /// The functions, by name.
    pub functions: Map<Seq<char>, (CustomFunction, Visibility)>,
    /// The nested modules, by name.
    pub submodules: Map<Seq<char>, (ModuleView, Visibility)>,
}

/// The view of a module namespace.
pub open spec fn module_view(module: ModuleScope) -> ModuleView
    decreases module,
{
    ModuleView {
        aliases: module.aliases@,
        functions: module.functions@,
        submodules: submodules_view(module.submodules),
    }
}

/// The views of nested modules.
pub open spec fn submodules_view(modules: Submodules) -> Map<Seq<char>, (ModuleView, Visibility)>
    decreases modules,
{
    match modules {
        Submodules::Nil => Map::empty(),
        Submodules::Cons(name, module, visibility, tail) => submodules_view(*tail).insert(
            name@,
            (module_view(*module), visibility),
        ),
    }
}

impl View for ModuleScope {
    type V = ModuleView;

    open spec fn view(&self) -> ModuleView {
        module_view(*self)
    }
}

/// The namespace without items.
pub open spec fn empty_module() -> ModuleView {
    ModuleView { aliases: Map::empty(), functions: Map::empty(), submodules: Map::empty() }
}

/// The module that the names lead to from `module`, if there is one.
pub open spec fn module_at(module: ModuleView, path: Seq<Seq<char>>) -> Option<ModuleView>
    decreases path.len(),
{
    if path.len() == 0 {
        Some(module)
    } else if module.submodules.contains_key(path[0]) {
        module_at(module.submodules[path[0]].0, path.drop_first())
    } else {
        None
    }
}

/// The namespace in which the module that the names lead to is replaced by `new`.
pub open spec fn replaced_at(
    module: ModuleView,
    path: Seq<Seq<char>>,
    new: ModuleView,
) -> ModuleView
    decreases path.len(),
{
    if path.len() == 0 {
        new
    } else {
        let child = module.submodules[path[0]];
        ModuleView {
            submodules: module.submodules.insert(
                path[0],
                (replaced_at(child.0, path.drop_first(), new), child.1),
            ),
            ..module
        }
    }
}

/// After a module was replaced, its path leads to the replacement.
pub proof fn lemma_replaced_at(module: ModuleView, path: Seq<Seq<char>>, new: ModuleView)
    requires
        module_at(module, path) is Some,
    ensures
        module_at(replaced_at(module, path, new), path) == Some(new),
    decreases path.len(),
{
    if path.len() > 0 {
        lemma_replaced_at(module.submodules[path[0]].0, path.drop_first(), new);
    }
}

/// The item that an import takes from a namespace, with the visibility of the import,
/// or the reason why there is no such item.
pub open spec fn collected<V>(
    source: Map<Seq<char>, (V, Visibility)>,
    name: Seq<char>,
    visibility: Visibility,
) -> Result<(V, Visibility), ErrorView> {
    if !source.contains_key(name) {
        Err(Error::UnresolvedItem(name))
    } else if source[name].1 == Visibility::Private {
        Err(Error::PrivateItem(name))
    } else {
        Ok((source[name].0, visibility))
    }
}

/// The namespace after a collected item was added under a name that was not taken before,
/// or the reason why the item cannot be added.
pub open spec fn inserted<V>(
    item: Result<(V, Visibility), ErrorView>,
    target: Map<Seq<char>, (V, Visibility)>,
    local_name: Seq<char>,
) -> Result<Map<Seq<char>, (V, Visibility)>, ErrorView> {
    match item {
        Err(e) => Err(e),
        Ok(entry) => if target.contains_key(local_name) {
            Err(Error::RedefinedItem(local_name))
        } else {
            Ok(target.insert(local_name, entry))
        },
    }
}

/// The updated namespace, or the namespace before a failed update.
pub open spec fn or_unchanged<V>(
    after: Result<Map<Seq<char>, (V, Visibility)>, ErrorView>,
    before: Map<Seq<char>, (V, Visibility)>,
) -> Map<Seq<char>, (V, Visibility)> {
    match after {
        Ok(map) => map,
        Err(_) => before,
    }
}

/// The error of an import that failed in each of three namespaces.
///
/// An item that is missing is of interest only if it is missing everywhere.
pub open spec fn import_error(first: ErrorView, second: ErrorView, third: ErrorView) -> ErrorView {
    if !(first is UnresolvedItem) {
        first
    } else if !(second is UnresolvedItem) {
        second
    } else if !(third is UnresolvedItem) {
        third
    } else {
        first
    }
}

/// The name under which an imported item is known.
pub open spec fn local_name(item: UseItem) -> Seq<char> {
    match item.alias {
        Some(alias) => alias@,
        None => item.name@,
    }
}

/// The outcome of importing the aliases, functions and modules of a name from `source` into
/// `target`: an error if nothing was imported, and the updated namespace.
pub open spec fn imported_item(
    source: ModuleView,
    target: ModuleView,
    item: UseItem,
    visibility: Visibility,
) -> (Result<(), ErrorView>, ModuleView) {
    let local = local_name(item);
    let aliases = inserted(
        collected(source.aliases, item.name@, visibility),
        target.aliases,
        local,
    );
    let functions = inserted(
        collected(source.functions, item.name@, visibility),
        target.functions,
        local,
    );
    let submodules = inserted(
        collected(source.submodules, item.name@, visibility),
        target.submodules,
        local,
    );
    match (aliases, functions, submodules) {
        (Err(first), Err(second), Err(third)) => (
            Err(import_error(first, second, third)),
            target,
        ),
        _ => (
            Ok(()),
            ModuleView {
                aliases: or_unchanged(aliases, target.aliases),
                functions: or_unchanged(functions, target.functions),
                submodules: or_unchanged(submodules, target.submodules),
            },
        ),
    }
}

/// The outcome of importing items from `source` into `target`, one after the other up to the
/// first error.
pub open spec fn imported_items(
    source: ModuleView,
    target: ModuleView,
    items: Seq<UseItem>,
    visibility: Visibility,
) -> (Result<(), ErrorView>, ModuleView)
    decreases items.len(),
{
    if items.len() == 0 {
        (Ok(()), target)
    } else {
        match imported_item(source, target, items[0], visibility) {
            (Err(e), after) => (Err(e), after),
            (Ok(_), after) => imported_items(source, after, items.drop_first(), visibility),
        }
    }
}

/// The items of an import.
pub open spec fn use_items(items: UseItems) -> Seq<UseItem> {
    match items {
        UseItems::Single(item) => seq![item],
        UseItems::List(list) => list@,
    }
}

/// Copy the entries of a map.
fn duplicate_entries<V: Duplicate>(entries: &List<(Identifier, (V, Visibility))>) -> (result: List<
    (Identifier, (V, Visibility)),
>)
    ensures
        result == *entries,
    decreases entries,
{
    match entries {
        List::Nil => List::Nil,
        List::Cons(entry, tail) => List::Cons(
            (entry.0.clone(), (entry.1.0.duplicate(), entry.1.1)),
            Box::new(duplicate_entries(tail)),
        ),
    }
}

/// Copy nested modules.
fn duplicate_modules(modules: &Submodules) -> (result: Submodules)
    ensures
        result == *modules,
    decreases modules,
{
    match modules {
        Submodules::Nil => Submodules::Nil,
        Submodules::Cons(name, module, visibility, tail) => Submodules::Cons(
            name.clone(),
            Box::new(duplicate_module(module)),
            *visibility,
            Box::new(duplicate_modules(tail)),
        ),
    }
}

/// Copy a namespace.
fn duplicate_module(module: &ModuleScope) -> (result: ModuleScope)
    ensures
        result == *module,
    decreases module,
{
    ModuleScope {
        aliases: NameMap { entries: duplicate_entries(&module.aliases.entries) },
        functions: NameMap { entries: duplicate_entries(&module.functions.entries) },
        submodules: duplicate_modules(&module.submodules),
    }
}

impl Clone for ModuleScope {
    fn clone(&self) -> (result: Self)
        ensures
            result == *self,
    {
        duplicate_module(self)
    }
}

/// Look up a nested module.
fn find_module<'a>(modules: &'a Submodules, name: &ModuleName) -> (result: Option<
    (&'a ModuleScope, Visibility),
>)
    ensures
        match result {
            Some(entry) => submodules_view(*modules).contains_key(name@) && submodules_view(
                *modules,
            )[name@] == (entry.0@, entry.1),
            None => !submodules_view(*modules).contains_key(name@),
        },
    decreases modules,
{
    match modules {
        Submodules::Nil => None,
        Submodules::Cons(first, module, visibility, tail) => {
            if first.same(name) {
                Some((&**module, *visibility))
            } else {
                find_module(tail, name)
            }
        },
    }
}

/// Look up a nested module, for an update.
fn find_module_mut<'a>(modules: &'a mut Submodules, name: &ModuleName) -> (result: Option<
    &'a mut ModuleScope,
>)
    ensures
        match result {
            Some(module) => {
                let before = submodules_view(*old(modules));
                &&& before.contains_key(name@)
                &&& module@ == before[name@].0
                &&& submodules_view(*final(modules)) == before.insert(
                    name@,
                    (final(module)@, before[name@].1),
                )
            },
            None => !submodules_view(*old(modules)).contains_key(name@),
        },
    decreases *old(modules),
{
    match modules {
        Submodules::Nil => None,
        Submodules::Cons(first, module, _, tail) => {
            if first.same(name) {
                Some(&mut **module)
            } else {
                find_module_mut(tail, name)
            }
        },
    }
}

impl ModuleScope {
    /// Create a namespace without items.
    pub fn new() -> (module: ModuleScope)
        ensures
            module@ == empty_module(),
    {
        ModuleScope {
            aliases: NameMap::new(),
            functions: NameMap::new(),
            submodules: Submodules::Nil,
        }
    }

    /// Get a nested module and its visibility.
    pub fn get_submodule(&self, name: &ModuleName) -> (result: Option<(&ModuleScope, Visibility)>)
        ensures
            match result {
                Some(entry) => self@.submodules.contains_key(name@) && self@.submodules[name@] == (
                    entry.0@,
                    entry.1,
                ),
                None => !self@.submodules.contains_key(name@),
            },
    {
        find_module(&self.submodules, name)
    }

    /// Add a nested module.
    pub fn insert_submodule(&mut self, name: ModuleName, module: ModuleScope, visibility: Visibility)
        ensures
            final(self)@ == (ModuleView {
                submodules: old(self)@.submodules.insert(name@, (module@, visibility)),
                ..old(self)@
            }),
    {
        let mut tail = Submodules::Nil;
        std::mem::swap(&mut self.submodules, &mut tail);
        self.submodules = Submodules::Cons(name, Box::new(module), visibility, Box::new(tail));
    }

    /// Get the module that the names from index `from` on lead to.
    pub fn at(&self, path: &Vec<ModuleName>, from: usize) -> (result: &ModuleScope)
        requires
            from <= path.len(),
            module_at(self@, names(path@).skip(from as int)) is Some,
        ensures
            module_at(self@, names(path@).skip(from as int)) == Some(result@),
        decreases path.len() - from,
    {
        if from == path.len() {
            self
        } else {
            assert(names(path@).skip(from as int).drop_first() =~= names(path@).skip(from + 1));
            assert(names(path@).skip(from as int)[0] == path@[from as int]@);
            match self.get_submodule(&path[from]) {
                Some(entry) => entry.0.at(path, from + 1),
                None => self,
            }
        }
    }

    /// Get the module that the names from index `from` on lead to, for an update.
    pub fn at_mut(&mut self, path: &Vec<ModuleName>, from: usize) -> (result: &mut ModuleScope)
        requires
            from <= path.len(),
            module_at(old(self)@, names(path@).skip(from as int)) is Some,
        ensures
            module_at(old(self)@, names(path@).skip(from as int)) == Some(result@),
            final(self)@ == replaced_at(
                old(self)@,
                names(path@).skip(from as int),
                final(result)@,
            ),
        decreases path.len() - from,
    {
        if from == path.len() {
            self
        } else {
            proof {
                assert(names(path@).skip(from as int).drop_first() =~= names(path@).skip(from + 1));
                assert(names(path@).skip(from as int)[0] == path@[from as int]@);
            }
            match find_module_mut(&mut self.submodules, &path[from]) {
                Some(module) => module.at_mut(path, from + 1),
                None => {
                    assert(false);
                    vstd::pervasive::unreached()
                },
            }
        }
    }
}

/// An item that is ready for import: its local name, its value and its visibility.
pub type CollectedItem<V> = (SymbolName, (V, Visibility));

/// What a contract says of an item that is ready for import, or of the error in its place.
pub open spec fn is_collected<V>(
    result: Result<CollectedItem<V>, Error>,
    expected: Result<(V, Visibility), ErrorView>,
    local_name: Seq<char>,
) -> bool {
    match result {
        Ok(item) => item.0@ == local_name && expected == Ok::<(V, Visibility), ErrorView>(item.1),
        Err(e) => expected == Err::<(V, Visibility), ErrorView>(e@),
    }
}

/// Attempts to find `name` in `target_map` and prepare it for import into another scope.
///
/// ## Errors
///
/// * [`Error::UnresolvedItem`] The requested `name` was not found in the `target_map`.
/// * [`Error::PrivateItem`] The requested item exists in the map, but it is private.
fn try_collect_item<V: Duplicate>(
    name: &SymbolName,
    local_name: &SymbolName,
    target_map: &NameMap<(V, Visibility)>,
    use_vis: Visibility,
) -> (result: Result<CollectedItem<V>, Error>)
    ensures
        is_collected(result, collected(target_map@, name@, use_vis), local_name@),
{
    match target_map.get(name) {
        None => Err(Error::UnresolvedItem(name.text.clone())),
        Some(entry) => {
            if entry.1 == Visibility::Private {
                return Err(Error::PrivateItem(name.text.clone()));
            }
            Ok((local_name.clone(), (entry.0.duplicate(), use_vis)))
        },
    }
}

/// Inserts a successfully collected item into the map of the current scope.
///
/// ## Errors
///
/// * [`Error::RedefinedItem`] An item with the same name is already defined in the map.
/// * Propagates the error in place of an item.
fn insert_collected<V>(
    res: Result<CollectedItem<V>, Error>,
    map: &mut NameMap<(V, Visibility)>,
) -> (result: Result<(), Error>)
    ensures
        match res {
            Ok(item) => if old(map)@.contains_key(item.0@) {
                result matches Err(e) && e@ == ErrorView::RedefinedItem(item.0@)
                    && final(map)@ == old(map)@
            } else {
                result is Ok && final(map)@ == old(map)@.insert(item.0@, item.1)
            },
            Err(e) => result == Err::<(), Error>(e) && final(map)@ == old(map)@,
        },
{
    match res {
        Ok(item) => {
            if map.contains_key(&item.0) {
                return Err(Error::RedefinedItem(item.0.text));
            }
            map.insert(item.0, item.1);
            Ok(())
        },
        Err(e) => Err(e),
    }
}

/// Whether the error says that an item is missing.
fn is_unresolved(error: &Error) -> (result: bool)
    ensures
        result == (error@ is UnresolvedItem),
{
    match error {
        Error::UnresolvedItem(_) => true,
        _ => false,
    }
}

/// Evaluates the results of attempting to import an item into multiple namespaces
/// (aliases, functions, submodules) and resolves the final error state.
///
/// ## Errors
///
/// * Returns a specific error (e.g., [`Error::PrivateItem`], [`Error::RedefinedItem`]) if one
///   occurred.
/// * Returns a fallback [`Error::UnresolvedItem`] if the item could not be found in any of the
///   checked namespaces.
fn resolve_processing_use_items_error(
    first: Result<(), Error>,
    second: Result<(), Error>,
    third: Result<(), Error>,
) -> (result: Result<(), Error>)
    ensures
        match (first, second, third) {
            (Err(e1), Err(e2), Err(e3)) => result matches Err(e) && e@ == import_error(
                e1@,
                e2@,
                e3@,
            ),
            _ => result is Ok,
        },
{
    match (first, second, third) {
        (Err(e1), Err(e2), Err(e3)) => {
            if !is_unresolved(&e1) {
                Err(e1)
            } else if !is_unresolved(&e2) {
                Err(e2)
            } else if !is_unresolved(&e3) {
                Err(e3)
            } else {
                Err(e1)
            }
        },
        _ => Ok(()),
    }
}

/// The items of one name that are ready for import: an alias, a function and a module.
pub struct CollectedItems {
    pub alias: Result<CollectedItem<ResolvedType>, Error>,
    pub function: Result<CollectedItem<CustomFunction>, Error>,
    pub module: Result<CollectedItem<ModuleScope>, Error>,
}

/// What a contract says of the items of one name that are ready for import.
pub open spec fn are_collected(
    items: CollectedItems,
    source: ModuleView,
    item: UseItem,
    visibility: Visibility,
) -> bool {
    let local = local_name(item);
    &&& is_collected(items.alias, collected(source.aliases, item.name@, visibility), local)
    &&& is_collected(items.function, collected(source.functions, item.name@, visibility), local)
    &&& is_collected_module(
        items.module,
        collected(source.submodules, item.name@, visibility),
        local,
    )
}

/// What a contract says of a module that is ready for import, or of the error in its place.
pub open spec fn is_collected_module(
    result: Result<CollectedItem<ModuleScope>, Error>,
    expected: Result<(ModuleView, Visibility), ErrorView>,
    local_name: Seq<char>,
) -> bool {
    match result {
        Ok(item) => item.0@ == local_name && expected == Ok::<(ModuleView, Visibility), ErrorView>(
            (item.1.0@, item.1.1),
        ),
        Err(e) => expected == Err::<(ModuleView, Visibility), ErrorView>(e@),
    }
}

impl ModuleScope {
    /// Attempts to find a nested module and prepare it for import into another scope.
    ///
    /// ## Errors
    ///
    /// * [`Error::UnresolvedItem`] There is no nested module of the name.
    /// * [`Error::PrivateItem`] The nested module is private.
    fn try_collect_module(
        &self,
        name: &SymbolName,
        local_name: &SymbolName,
        use_vis: Visibility,
    ) -> (result: Result<CollectedItem<ModuleScope>, Error>)
        ensures
            is_collected_module(
                result,
                collected(self@.submodules, name@, use_vis),
                local_name@,
            ),
    {
        match self.get_submodule(name) {
            None => Err(Error::UnresolvedItem(name.text.clone())),
            Some(entry) => {
                if entry.1 == Visibility::Private {
                    return Err(Error::PrivateItem(name.text.clone()));
                }
                Ok((local_name.clone(), (duplicate_module(entry.0), use_vis)))
            },
        }
    }

    /// Inserts a successfully collected module.
    ///
    /// ## Errors
    ///
    /// * [`Error::RedefinedItem`] A nested module with the same name is already defined.
    /// * Propagates the error in place of a module.
    fn insert_collected_module(&mut self, res: Result<CollectedItem<ModuleScope>, Error>) -> (result:
        Result<(), Error>)
        ensures
            match res {
                Ok(item) => if old(self)@.submodules.contains_key(item.0@) {
                    result matches Err(e) && e@ == ErrorView::RedefinedItem(item.0@)
                        && final(self)@ == old(self)@
                } else {
                    result is Ok && final(self)@ == (ModuleView {
                        submodules: old(self)@.submodules.insert(
                            item.0@,
                            (item.1.0@, item.1.1),
                        ),
                        ..old(self)@
                    })
                },
                Err(e) => result == Err::<(), Error>(e) && final(self)@ == old(self)@,
            },
    {
        match res {
            Ok(item) => {
                if self.get_submodule(&item.0).is_some() {
                    return Err(Error::RedefinedItem(item.0.text));
                }
                self.insert_submodule(item.0, item.1.0, item.1.1);
                Ok(())
            },
            Err(e) => Err(e),
        }
    }

    /// Prepare the items of a name for import into another scope.
    pub fn collect(&self, item: &UseItem, use_vis: Visibility) -> (result: CollectedItems)
        ensures
            are_collected(result, self@, *item, use_vis),
    {
        let local = match &item.alias {
            Some(alias) => alias,
            None => &item.name,
        };
        CollectedItems {
            alias: try_collect_item(&item.name, local, &self.aliases, use_vis),
            function: try_collect_item(&item.name, local, &self.functions, use_vis),
            module: self.try_collect_module(&item.name, local, use_vis),
        }
    }

    /// Insert the collected items of a name.
    ///
    /// ## Errors
    ///
    /// Nothing could be inserted.
    pub fn insert_items(&mut self, items: CollectedItems) -> (result: Result<(), Error>)
        ensures
            forall|source: ModuleView, item: UseItem, visibility: Visibility| #[trigger]
                are_collected(items, source, item, visibility) ==> {
                    let expected = imported_item(source, old(self)@, item, visibility);
                    &&& final(self)@ == expected.1
                    &&& match result {
                        Ok(_) => expected.0 is Ok,
                        Err(e) => expected.0 == Err::<(), ErrorView>(e@),
                    }
                },
    {
        let alias = insert_collected(items.alias, &mut self.aliases);
        let function = insert_collected(items.function, &mut self.functions);
        let module = self.insert_collected_module(items.module);
        resolve_processing_use_items_error(alias, function, module)
    }
}

} // verus!
