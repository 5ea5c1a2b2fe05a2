//! Linking of the files of a project.
use crate::driver::linearize::{dependencies_view, linearize_module, linearized, C3Error};
use crate::driver::linearize_laws::linearization_is_ordered;
use crate::driver::project::{
    full_path, get_full_path, id_of, module_views, name_views, Libraries, ModuleView, ProjectGraph,
};
use crate::driver::resolutions::{FileResolutions, Resolution};
use crate::driver::{alias_of, function_of, Function, Item, Program, TypeAlias};
use crate::error::{rich, with_file, Error, ErrorCollector, RichError, RichErrorView, WithSource};
use crate::list::List;
use crate::name::{names, Identifier};
use crate::parse;
use crate::parse::{UseDecl, UseItem, UseItems, Visibility};
use crate::source::{without_extension, SourceFile, SourceFileView, SourceName, SourceNameView};
use crate::text::{join, joined, texts};
use vstd::prelude::*;

verus! {

/// What was linked so far.
pub ghost struct Linking {
    /// The items of the program.
    pub items: Seq<Item>,
    /// The names that are known in each file.
    pub resolutions: Seq<Map<Seq<char>, Resolution>>,
    /// The errors that occurred.
    pub errors: Seq<RichErrorView>,
}

/// The names that are known in each file after a name was made known in a file.
pub open spec fn with_name(
    resolutions: Seq<Map<Seq<char>, Resolution>>,
    file_id: usize,
    name: Seq<char>,
    visibility: Visibility,
) -> Seq<Map<Seq<char>, Resolution>> {
    resolutions.update(
        file_id as int,
        resolutions[file_id as int].insert(name, Resolution { visibility }),
    )
}

/// The names that are known in each file after a name was imported from the file of number `from`
/// into the file of number `file_id`.
///
/// The name must be known in the former file, and it must be public there.
pub open spec fn import_outcome(
    resolutions: Seq<Map<Seq<char>, Resolution>>,
    from: usize,
    file_id: usize,
    name: Seq<char>,
    decl: UseDecl,
) -> Result<Seq<Map<Seq<char>, Resolution>>, RichErrorView> {
    let known = resolutions[from as int];
    if !known.contains_key(name) {
        Err(rich(Error::UnresolvedItem(name), decl.span))
    } else if known[name].visibility == Visibility::Private {
        Err(rich(Error::PrivateItem(name), decl.span))
    } else {
        Ok(with_name(resolutions, file_id, name, decl.visibility))
    }
}

impl Linking {
    /// Nothing was linked yet.
    pub open spec fn initial(n: nat) -> Linking {
        Linking {
            items: Seq::empty(),
            resolutions: Seq::new(n, |i: int| Map::empty()),
            errors: Seq::empty(),
        }
    }

    /// An error occurred.
    pub open spec fn with_error(self, error: RichErrorView) -> Linking {
        Linking { errors: self.errors.push(error), ..self }
    }

    /// An item was defined in a file.
    pub open spec fn with_item(
        self,
        item: Item,
        file_id: usize,
        name: Seq<char>,
        visibility: Visibility,
    ) -> Linking {
        Linking {
            items: self.items.push(item),
            resolutions: with_name(self.resolutions, file_id, name, visibility),
            ..self
        }
    }

    /// A name was imported from the file of number `from` into the file of number `file_id`.
    pub open spec fn with_import(
        self,
        from: usize,
        file_id: usize,
        name: Seq<char>,
        decl: UseDecl,
        source: SourceFileView,
    ) -> Linking {
        match import_outcome(self.resolutions, from, file_id, name, decl) {
            Ok(resolutions) => Linking { resolutions, ..self },
            Err(e) => self.with_error(with_file(e, source)),
        }
    }

    /// Names were imported, one after the other.
    pub open spec fn with_imports(
        self,
        from: usize,
        file_id: usize,
        items: Seq<UseItem>,
        decl: UseDecl,
        source: SourceFileView,
    ) -> Linking
        decreases items.len(),
    {
        if items.len() == 0 {
            self
        } else {
            self.with_imports(from, file_id, items.drop_last(), decl, source).with_import(
                from,
                file_id,
                items.last().name@,
                decl,
                source,
            )
        }
    }
}

/// The items of an import.
pub open spec fn import_items(items: UseItems) -> Seq<UseItem> {
    match items {
        UseItems::Single(item) => seq![item],
        UseItems::List(list) => list@,
    }
}

/// What the linking of a project depends on.
pub ghost struct Project {
    /// The files.
    pub modules: Seq<ModuleView>,
    /// The libraries.
    pub libraries: Libraries,
    /// The names of the files.
    pub paths: Seq<SourceNameView>,
}

impl Project {
    /// The number of the file from which names are imported, if the library is known.
    pub open spec fn imported_file(self, decl: UseDecl) -> Result<Option<usize>, RichErrorView> {
        match full_path(self.libraries, decl) {
            Ok(path) => Ok(id_of(self.paths, SourceName::Real(path))),
            Err(e) => Err(e),
        }
    }

    /// An item of a file was linked.
    pub open spec fn item_linked(
        self,
        file_id: usize,
        source: SourceFileView,
        item: parse::Item,
        l: Linking,
    ) -> Linking {
        match item {
            parse::Item::Use(decl) => match self.imported_file(decl) {
                Err(e) => l.with_error(with_file(e, source)),
                Ok(from) => l.with_imports(
                    from->0,
                    file_id,
                    import_items(decl.items),
                    decl,
                    source,
                ),
            },
            parse::Item::TypeAlias(alias) => l.with_item(
                Item::TypeAlias(alias_of(alias, file_id)),
                file_id,
                alias.name@,
                alias.visibility,
            ),
            parse::Item::Function(function) => l.with_item(
                Item::Function(function_of(function, file_id)),
                file_id,
                function.name@,
                function.visibility,
            ),
            _ => l,
        }
    }

    /// Items of a file were linked, one after the other.
    pub open spec fn items_linked(
        self,
        file_id: usize,
        source: SourceFileView,
        items: List<parse::Item>,
        l: Linking,
    ) -> Linking
        decreases items,
    {
        match items {
            List::Nil => l,
            List::Cons(head, tail) => self.items_linked(
                file_id,
                source,
                *tail,
                self.item_linked(file_id, source, head, l),
            ),
        }
    }

    /// Files were linked in the given order.
    pub open spec fn linked(self, order: Seq<usize>, n: nat) -> Linking
        decreases order.len(),
    {
        if order.len() == 0 {
            Linking::initial(n)
        } else {
            let module = self.modules[order.last() as int];
            self.items_linked(
                order.last(),
                module.source,
                *module.parsed_program.items,
                self.linked(order.drop_last(), n),
            )
        }
    }

    /// Whether the files from which the items import names are among the first `n` files.
    pub open spec fn are_linkable(self, items: List<parse::Item>, n: nat) -> bool
        decreases items,
    {
        match items {
            List::Nil => true,
            List::Cons(head, tail) => {
                &&& match head {
                    parse::Item::Use(decl) => match self.imported_file(decl) {
                        Ok(Some(from)) => from < n,
                        Ok(None) => false,
                        Err(_) => true,
                    },
                    _ => true,
                }
                &&& self.are_linkable(*tail, n)
            },
        }
    }

    /// Whether the order has only files of the project whose numbers are smaller than the number
    /// of files in the order, and these files import names only from such files.
    pub open spec fn is_linkable(self, order: Seq<usize>) -> bool {
        forall|i: int|
            #![trigger order[i]]
            0 <= i < order.len() ==> {
                &&& order[i] < self.modules.len()
                &&& order[i] < order.len()
                &&& self.are_linkable(
                    *self.modules[order[i] as int].parsed_program.items,
                    order.len(),
                )
            }
    }
}

/// The names that are known in each file, as a contract sees them.
pub open spec fn resolution_views(resolutions: Seq<FileResolutions>) -> Seq<
    Map<Seq<char>, Resolution>,
> {
    Seq::new(resolutions.len(), |i: int| resolutions[i]@)
}

/// Whether the names of each file are in alphabetical order.
pub open spec fn are_wf(resolutions: Seq<FileResolutions>) -> bool {
    forall|i: int| 0 <= i < resolutions.len() ==> (#[trigger] resolutions[i]).wf()
}

/// Make a name known in a file.
fn insert_name(
    resolutions: &mut Vec<FileResolutions>,
    file_id: usize,
    name: Identifier,
    visibility: Visibility,
)
    requires
        file_id < old(resolutions).len(),
        are_wf(old(resolutions)@),
    ensures
        are_wf(final(resolutions)@),
        final(resolutions).len() == old(resolutions).len(),
        resolution_views(final(resolutions)@) == with_name(
            resolution_views(old(resolutions)@),
            file_id,
            name@,
            visibility,
        ),
{
    resolutions[file_id].insert(name, Resolution { visibility });
    assert(resolution_views(resolutions@) =~= with_name(
        resolution_views(old(resolutions)@),
        file_id,
        name@,
        visibility,
    ));
}

/// The linking that items, names and errors stand for.
pub open spec fn linking_of(
    items: Seq<Item>,
    resolutions: Seq<FileResolutions>,
    errors: Seq<RichErrorView>,
) -> Linking {
    Linking { items, resolutions: resolution_views(resolutions), errors }
}

impl ProjectGraph {
    /// What the linking of the graph depends on.
    pub open spec fn project(self) -> Project {
        Project {
            modules: module_views(self.modules@),
            libraries: self.libraries@,
            paths: name_views(self.paths@),
        }
    }

    /// Find the number of a file by its name without extension.
    pub fn lookup(&self, name: &SourceName) -> (result: Option<usize>)
        ensures
            result == id_of(name_views(self.paths@), name@),
    {
        crate::driver::project::find_id(&self.paths, name)
    }

    /// Linearize the files of the project, beginning with the main file.
    ///
    /// ## Errors
    ///
    /// * [`C3Error::CycleDetected`] Files import each other in a cycle.
    /// * [`C3Error::InconsistentLinearization`] Files demand contradictory orders.
    pub fn c3_linearize(&self) -> (result: Result<Vec<usize>, C3Error>)
        ensures
            match (result, linearized(dependencies_view(self.dependencies@), Seq::empty(), 0)) {
                (Ok(order), Ok(expected)) => order@ == expected,
                (Err(e), Err(expected)) => e@ == expected,
                _ => false,
            },
    {
        linearize_module(&self.dependencies, 0)
    }

    /// Import a name from the file of number `ind` into the file of number `file_id`.
    ///
    /// ## Errors
    ///
    /// * [`Error::UnresolvedItem`] The name is not known in the former file.
    /// * [`Error::PrivateItem`] The name is private there.
    fn process_use_item(
        resolutions: &mut Vec<FileResolutions>,
        file_id: usize,
        ind: usize,
        elem: &Identifier,
        use_decl: &UseDecl,
    ) -> (result: Option<RichError>)
        requires
            file_id < old(resolutions).len(),
            ind < old(resolutions).len(),
            are_wf(old(resolutions)@),
        ensures
            are_wf(final(resolutions)@),
            final(resolutions).len() == old(resolutions).len(),
            match (
                result,
                import_outcome(
                    resolution_views(old(resolutions)@),
                    ind,
                    file_id,
                    elem@,
                    *use_decl,
                ),
            ) {
                (None, Ok(expected)) => resolution_views(final(resolutions)@) == expected,
                (Some(e), Err(expected)) => e@ == expected && resolution_views(
                    final(resolutions)@,
                ) == resolution_views(old(resolutions)@),
                _ => false,
            },
    {
        match resolutions[ind].get(elem) {
            None => {
                return Some(
                    RichError::new(Error::UnresolvedItem(elem.text.clone()), use_decl.span),
                );
            },
            Some(resolution) => {
                if resolution.visibility == Visibility::Private {
                    return Some(
                        RichError::new(Error::PrivateItem(elem.text.clone()), use_decl.span),
                    );
                }
            },
        }
        insert_name(resolutions, file_id, elem.clone(), use_decl.visibility);
        None
    }

    /// Import the items of a declaration.
    fn process_use_items(
        resolutions: &mut Vec<FileResolutions>,
        file_id: usize,
        ind: usize,
        use_decl: &UseDecl,
        source: &SourceFile,
        handler: &mut ErrorCollector,
        items: Ghost<Seq<Item>>,
    )
        requires
            file_id < old(resolutions).len(),
            ind < old(resolutions).len(),
            are_wf(old(resolutions)@),
        ensures
            are_wf(final(resolutions)@),
            final(resolutions).len() == old(resolutions).len(),
            linking_of(items@, final(resolutions)@, final(handler)@) == linking_of(
                items@,
                old(resolutions)@,
                old(handler)@,
            ).with_imports(ind, file_id, import_items(use_decl.items), *use_decl, source@),
    {
        let ghost targets = import_items(use_decl.items);
        let ghost start = linking_of(items@, resolutions@, handler@);
        match &use_decl.items {
            UseItems::Single(elem) => {
                assert(targets.drop_last() =~= Seq::empty());
                reveal_with_fuel(Linking::with_imports, 2);
                if let Some(err) = ProjectGraph::process_use_item(
                    resolutions,
                    file_id,
                    ind,
                    &elem.name,
                    use_decl,
                ) {
                    handler.push(err.with_source(source.clone()));
                }
            },
            UseItems::List(elems) => {
                let mut i: usize = 0;
                assert(targets.take(0) =~= Seq::empty());
                while i < elems.len()
                    invariant
                        i <= elems.len(),
                        targets == elems@,
                        file_id < resolutions.len(),
                        ind < resolutions.len(),
                        resolutions.len() == old(resolutions).len(),
                        are_wf(resolutions@),
                        linking_of(items@, resolutions@, handler@) == start.with_imports(
                            ind,
                            file_id,
                            targets.take(i as int),
                            *use_decl,
                            source@,
                        ),
                    decreases elems.len() - i,
                {
                    assert(targets.take(i + 1).drop_last() =~= targets.take(i as int));
                    if let Some(err) = ProjectGraph::process_use_item(
                        resolutions,
                        file_id,
                        ind,
                        &elems[i].name,
                        use_decl,
                    ) {
                        handler.push(err.with_source(source.clone()));
                    }
                    i = i + 1;
                }
                assert(targets.take(i as int) =~= targets);
            },
        }
    }

    /// Add the definition of a file.
    fn register_def(
        items: &mut Vec<Item>,
        resolutions: &mut Vec<FileResolutions>,
        file_id: usize,
        item: Item,
        name: Identifier,
        vis: Visibility,
        errors: Ghost<Seq<RichErrorView>>,
    )
        requires
            file_id < old(resolutions).len(),
            are_wf(old(resolutions)@),
        ensures
            are_wf(final(resolutions)@),
            final(resolutions).len() == old(resolutions).len(),
            linking_of(final(items)@, final(resolutions)@, errors@) == linking_of(
                old(items)@,
                old(resolutions)@,
                errors@,
            ).with_item(item, file_id, name@, vis),
    {
        items.push(item);
        insert_name(resolutions, file_id, name, vis);
    }

    /// Link the items of a file.
    fn link_items(
        &self,
        file_id: usize,
        source: &SourceFile,
        program_items: &List<parse::Item>,
        items: &mut Vec<Item>,
        resolutions: &mut Vec<FileResolutions>,
        handler: &mut ErrorCollector,
    )
        requires
            file_id < old(resolutions).len(),
            are_wf(old(resolutions)@),
            self.project().are_linkable(*program_items, old(resolutions)@.len()),
        ensures
            are_wf(final(resolutions)@),
            final(resolutions).len() == old(resolutions).len(),
            linking_of(final(items)@, final(resolutions)@, final(handler)@)
                == self.project().items_linked(
                file_id,
                source@,
                *program_items,
                linking_of(old(items)@, old(resolutions)@, old(handler)@),
            ),
        decreases program_items,
    {
        if let List::Cons(elem, tail) = program_items {
            match elem {
                parse::Item::Use(use_decl) => match get_full_path(&self.libraries, use_decl) {
                    Err(err) => {
                        handler.push(err.with_source(source.clone()));
                    },
                    Ok(path) => {
                        if let Some(ind) = self.lookup(&SourceName::Real(path)) {
                            ProjectGraph::process_use_items(
                                resolutions,
                                file_id,
                                ind,
                                use_decl,
                                source,
                                handler,
                                Ghost(items@),
                            );
                        }
                    },
                },
                parse::Item::TypeAlias(alias) => ProjectGraph::register_def(
                    items,
                    resolutions,
                    file_id,
                    Item::TypeAlias(TypeAlias::from_parse(alias, file_id)),
                    alias.name.clone(),
                    alias.visibility,
                    Ghost(handler@),
                ),
                parse::Item::Function(function) => ProjectGraph::register_def(
                    items,
                    resolutions,
                    file_id,
                    Item::Function(Function::from_parse(function, file_id)),
                    function.name.clone(),
                    function.visibility,
                    Ghost(handler@),
                ),
                parse::Item::Module(_) => {},
                parse::Item::Ignored => {},
            }
            self.link_items(file_id, source, tail, items, resolutions, handler);
        }
    }

    /// Link files in the given order.
    ///
    /// ## Errors
    ///
    /// * [`Error::UnresolvedItem`] A name is imported from a file in which it is not known.
    /// * [`Error::PrivateItem`] A name is imported from a file in which it is private.
    /// * [`Error::UnknownLibrary`] A name is imported from an unknown library.
    pub fn build_program(&self, order: &Vec<usize>, handler: &mut ErrorCollector) -> (result: Option<
        Program,
    >)
        requires
            self.project().is_linkable(order@),
            old(handler)@.len() == 0 ==> self.modules.len() > 0,
        ensures
            ({
                let l = self.project().linked(order@, order@.len());
                &&& final(handler)@ == old(handler)@ + l.errors
                &&& match result {
                    Some(program) => {
                        &&& final(handler)@.len() == 0
                        &&& program.items@ == l.items
                        &&& resolution_views(program.resolutions@) == l.resolutions
                        &&& are_wf(program.resolutions@)
                        &&& name_views(program.paths@) == name_views(self.paths@)
                        &&& program.span == self.modules@[0].parsed_program.span
                    },
                    None => final(handler)@.len() > 0,
                }
            }),
    {
        let mut items: Vec<Item> = Vec::new();
        let mut resolutions: Vec<FileResolutions> = Vec::new();
        let mut errors = ErrorCollector::new();
        let ghost n = order@.len();
        let mut i: usize = 0;
        while i < order.len()
            invariant
                i <= order.len(),
                resolutions.len() == i,
                are_wf(resolutions@),
                forall|j: int| 0 <= j < i ==> #[trigger] resolutions@[j]@ == Map::<
                    Seq<char>,
                    Resolution,
                >::empty(),
            decreases order.len() - i,
        {
            resolutions.push(FileResolutions::new());
            i = i + 1;
        }
        assert(resolution_views(resolutions@) =~= Linking::initial(n).resolutions);
        assert(order@.take(0) =~= Seq::empty());
        i = 0;
        while i < order.len()
            invariant
                i <= order.len(),
                n == order@.len(),
                resolutions.len() == n,
                are_wf(resolutions@),
                self.project().is_linkable(order@),
                linking_of(items@, resolutions@, errors@) == self.project().linked(
                    order@.take(i as int),
                    n,
                ),
            decreases order.len() - i,
        {
            let file_id: usize = order[i];
            assert(order@.take(i + 1).drop_last() =~= order@.take(i as int));
            assert(order@.take(i + 1).last() == order@[i as int]);
            let module = &self.modules[file_id];
            assert(self.project().modules[file_id as int] == module@);
            self.link_items(
                file_id,
                &module.source,
                &module.parsed_program.items,
                &mut items,
                &mut resolutions,
                &mut errors,
            );
            i = i + 1;
        }
        assert(order@.take(i as int) =~= order@);
        handler.extend(errors);
        if handler.has_errors() {
            None
        } else {
            Some(
                Program {
                    items,
                    paths: copy_names(&self.paths),
                    resolutions,
                    span: self.modules[0].parsed_program.span,
                },
            )
        }
    }

    /// Link the files of the project, each file after those that it depends on.
    pub fn resolve_complication_order(&self, handler: &mut ErrorCollector) -> (result: Option<
        Program,
    >)
        requires
            linearized(dependencies_view(self.dependencies@), Seq::empty(), 0) matches Ok(order)
                && self.project().is_linkable(order.reverse()),
        ensures
            ({
                let order = linearized(
                    dependencies_view(self.dependencies@),
                    Seq::empty(),
                    0,
                )->Ok_0.reverse();
                let l = self.project().linked(order, order.len());
                &&& final(handler)@ == old(handler)@ + l.errors
                &&& match result {
                    Some(program) => {
                        &&& final(handler)@.len() == 0
                        &&& program.items@ == l.items
                        &&& resolution_views(program.resolutions@) == l.resolutions
                        &&& are_wf(program.resolutions@)
                        &&& name_views(program.paths@) == name_views(self.paths@)
                        &&& program.span == self.modules@[0].parsed_program.span
                    },
                    None => final(handler)@.len() > 0,
                }
            }),
    {
        broadcast use vstd::std_specs::hash::axiom_hashmap_view_finite_dom;

        match self.c3_linearize() {
            Ok(order) => {
                proof {
                    let graph = dependencies_view(self.dependencies@);
                    assert(graph.dom() =~= self.dependencies@.dom());
                    linearization_is_ordered(graph, 0);
                    assert(order@.reverse()[0] < self.project().modules.len());
                }
                let reversed = reverse(&order);
                self.build_program(&reversed, handler)
            },
            Err(_) => None,
        }
    }
}

/// Reverse a list.
fn reverse(list: &Vec<usize>) -> (result: Vec<usize>)
    ensures
        result@ == list@.reverse(),
{
    let mut result: Vec<usize> = Vec::new();
    let mut i: usize = list.len();
    while i > 0
        invariant
            i <= list.len(),
            result.len() == list.len() - i,
            forall|j: int| 0 <= j < result.len() ==> result@[j] == list@[list.len() - 1 - j],
        decreases i,
    {
        i = i - 1;
        result.push(list[i]);
    }
    assert(result@ =~= list@.reverse());
    result
}

/// Copy the names of files.
fn copy_names(paths: &Vec<SourceName>) -> (result: Vec<SourceName>)
    ensures
        name_views(result@) == name_views(paths@),
{
    let mut result: Vec<SourceName> = Vec::new();
    let mut i: usize = 0;
    while i < paths.len()
        invariant
            i <= paths.len(),
            result.len() == i,
            forall|j: int| 0 <= j < i ==> #[trigger] result@[j]@ == paths@[j]@,
        decreases paths.len() - i,
    {
        result.push(paths[i].clone());
        i = i + 1;
    }
    assert(name_views(result@) =~= name_views(paths@));
    result
}

/// The text of the path of an import.
pub open spec fn import_path_text(decl: UseDecl) -> Seq<char> {
    joined(names(decl.path@), "/"@)
}

/// An item of a program of a single file was linked. Such a program imports nothing, and its items
/// are public.
pub open spec fn single_item_linked(item: parse::Item, l: Linking) -> Linking {
    match item {
        parse::Item::Use(decl) => l.with_error(
            rich(Error::UnknownLibrary(import_path_text(decl)), decl.span),
        ),
        parse::Item::TypeAlias(alias) => l.with_item(
            Item::TypeAlias(alias_of(alias, 0)),
            0,
            alias.name@,
            Visibility::Public,
        ),
        parse::Item::Function(function) => l.with_item(
            Item::Function(function_of(function, 0)),
            0,
            function.name@,
            Visibility::Public,
        ),
        _ => l,
    }
}

/// Items of a program of a single file were linked, one after the other.
pub open spec fn single_items_linked(items: List<parse::Item>, l: Linking) -> Linking
    decreases items,
{
    match items {
        List::Nil => l,
        List::Cons(head, tail) => single_items_linked(*tail, single_item_linked(head, l)),
    }
}

/// Write the path of an import.
fn write_import_path(decl: &UseDecl) -> (text: String)
    ensures
        text@ == import_path_text(*decl),
{
    let mut parts: Vec<String> = Vec::new();
    let mut i: usize = 0;
    while i < decl.path.len()
        invariant
            i <= decl.path.len(),
            parts.len() == i,
            forall|j: int| 0 <= j < i ==> #[trigger] parts@[j]@ == decl.path@[j]@,
        decreases decl.path.len() - i,
    {
        parts.push(decl.path[i].text.clone());
        i = i + 1;
    }
    assert(texts(parts@) =~= names(decl.path@));
    join(&parts, "/")
}

/// Link the items of a program of a single file.
fn link_single_items(
    program_items: &List<parse::Item>,
    items: &mut Vec<Item>,
    resolutions: &mut Vec<FileResolutions>,
    handler: &mut ErrorCollector,
)
    requires
        old(resolutions).len() > 0,
        are_wf(old(resolutions)@),
    ensures
        are_wf(final(resolutions)@),
        linking_of(final(items)@, final(resolutions)@, final(handler)@) == single_items_linked(
            *program_items,
            linking_of(old(items)@, old(resolutions)@, old(handler)@),
        ),
    decreases program_items,
{
    if let List::Cons(item, tail) = program_items {
        match item {
            parse::Item::Use(use_decl) => {
                let bug_report = RichError::new(
                    Error::UnknownLibrary(write_import_path(use_decl)),
                    use_decl.span,
                );
                handler.push(bug_report);
            },
            parse::Item::TypeAlias(alias) => ProjectGraph::register_def(
                items,
                resolutions,
                0,
                Item::TypeAlias(TypeAlias::from_parse(alias, 0)),
                alias.name.clone(),
                Visibility::Public,
                Ghost(handler@),
            ),
            parse::Item::Function(function) => ProjectGraph::register_def(
                items,
                resolutions,
                0,
                Item::Function(Function::from_parse(function, 0)),
                function.name.clone(),
                Visibility::Public,
                Ghost(handler@),
            ),
            parse::Item::Module(_) => {},
            parse::Item::Ignored => {},
        }
        link_single_items(tail, items, resolutions, handler);
    }
}

impl Program {
    /// Create a program from a single file. Its items are public.
    ///
    /// ## Errors
    ///
    /// * [`Error::UnknownLibrary`] The file imports something.
    pub fn from_parse(
        parsed: &parse::Program,
        source: SourceFile,
        handler: &mut ErrorCollector,
    ) -> (result: Option<Program>)
        ensures
            ({
                let l = single_items_linked(*parsed.items, Linking::initial(1));
                &&& final(handler)@ == old(handler)@ + l.errors
                &&& match result {
                    Some(program) => {
                        &&& final(handler)@.len() == 0
                        &&& program.items@ == l.items
                        &&& resolution_views(program.resolutions@) == l.resolutions
                        &&& are_wf(program.resolutions@)
                        &&& name_views(program.paths@) == seq![without_extension(source@.name)]
                        &&& program.span == parsed.span
                    },
                    None => final(handler)@.len() > 0,
                }
            }),
    {
        let root_path = source.name.without_extension();
        let mut items: Vec<Item> = Vec::new();
        let mut resolutions: Vec<FileResolutions> = Vec::new();
        resolutions.push(FileResolutions::new());
        let mut errors = ErrorCollector::new();
        assert(resolution_views(resolutions@) =~= Linking::initial(1).resolutions);
        link_single_items(&parsed.items, &mut items, &mut resolutions, &mut errors);
        handler.extend(errors);
        if handler.has_errors() {
            None
        } else {
            let mut paths: Vec<SourceName> = Vec::new();
            paths.push(root_path);
            assert(name_views(paths@) =~= seq![without_extension(source@.name)]);
            Some(Program { items, paths, resolutions, span: parsed.span })
        }
    }
}

} // verus!
