//! The files of a project and the graph of their imports.
use crate::driver::linearize::{dependencies_view, Dependencies};
use crate::error::{
    rich, with_file, Error, ErrorCollector, RichError, RichErrorView, Span,
};
use crate::list::{shared, List};
use crate::name::{names, Identifier};
use crate::name_map::NameMap;
use crate::parse;
use crate::parse::UseDecl;
use crate::path::{with_extension, FilePath};
use crate::source::{without_extension, SourceFile, SourceFileView, SourceName, SourceNameView};
use std::collections::HashMap;
use vstd::prelude::*;
use vstd::set_lib::{lemma_int_range, lemma_len_subset, set_int_range};

verus! {

/// The libraries of a project: for each name the directory of the library.
#[derive(Debug)]
pub struct LibTable {
    pub roots: NameMap<FilePath>,
}

/// What a contract says of the libraries of a project.
pub type Libraries = Map<Seq<char>, Seq<Seq<char>>>;

impl View for LibTable {
    type V = Libraries;

    open spec fn view(&self) -> Libraries {
        self.roots@.map_values(|root: FilePath| root@)
    }
}

impl LibTable {
    /// Create a table without libraries.
    pub fn new() -> (table: LibTable)
        ensures
            table@ == Map::<Seq<char>, Seq<Seq<char>>>::empty(),
    {
        let table = LibTable { roots: NameMap::new() };
        assert(table@ =~= Map::<Seq<char>, Seq<Seq<char>>>::empty());
        table
    }

    /// Add a library.
    pub fn insert(&mut self, name: &str, root: FilePath)
        ensures
            final(self)@ == old(self)@.insert(name@, root@),
    {
        self.roots.insert(Identifier::from_str_unchecked(name), root);
        assert(self@ =~= old(self)@.insert(name@, root@));
    }
}

/// The path of the file that is imported, without its extension.
///
/// The first name of an import is that of a library. The other names lead from the directory of
/// the library to the file.
pub open spec fn full_path(libraries: Libraries, decl: UseDecl) -> Result<
    Seq<Seq<char>>,
    RichErrorView,
> {
    let path = names(decl.path@);
    if path.len() == 0 {
        Err(rich(Error::UnknownLibrary(""@), decl.span))
    } else if libraries.contains_key(path[0]) {
        Ok(libraries[path[0]] + path.drop_first())
    } else {
        Err(rich(Error::UnknownLibrary(path[0]), decl.span))
    }
}

/// Get the path of the file that is imported, without its extension.
///
/// ## Errors
///
/// * [`Error::UnknownLibrary`] The first name of the import is not that of a library.
pub fn get_full_path(libraries: &LibTable, use_decl: &UseDecl) -> (result: Result<
    FilePath,
    RichError,
>)
    ensures
        match (result, full_path(libraries@, *use_decl)) {
            (Ok(path), Ok(expected)) => path@ == expected,
            (Err(e), Err(expected)) => e@ == expected,
            _ => false,
        },
{
    let path = &use_decl.path;
    if path.len() == 0 {
        return Err(RichError::new(Error::UnknownLibrary("".to_owned()), use_decl.span));
    }
    assert(names(path@)[0] == path@[0]@);
    match libraries.roots.get(&path[0]) {
        None => Err(RichError::new(Error::UnknownLibrary(path[0].text.clone()), use_decl.span)),
        Some(root) => {
            let mut full = root.clone();
            let mut i: usize = 1;
            let ghost expected = root@ + names(path@).drop_first();
            assert(full@ =~= expected.take(root@.len() as int));
            while i < path.len()
                invariant
                    1 <= i <= path.len(),
                    expected == root@ + names(path@).drop_first(),
                    full@ == expected.take(root@.len() + i - 1),
                decreases path.len() - i,
            {
                full = full.join(path[i].as_inner());
                i = i + 1;
                assert(full@ =~= expected.take(root@.len() + i - 1));
            }
            assert(expected.take(root@.len() + i - 1) =~= expected);
            Ok(full)
        },
    }
}

/// What was found at a path: errors are of type `Errors` and contents of type `Text`.
#[derive(Debug)]
pub enum FileContent<Errors = Vec<RichError>, Text = String> {
    /// There is no such file, or it cannot be read.
    NotFound,
    /// The content of the file is no program.
    Invalid(Errors),
    /// The content of the file and the program that it stands for.
    Parsed(Text, parse::Program),
}

/// What a contract says of the content of a file.
pub type FileContentView = FileContent<Seq<RichErrorView>, Seq<char>>;

/// What a contract says of errors.
pub open spec fn error_views(errors: Seq<RichError>) -> Seq<RichErrorView> {
    Seq::new(errors.len(), |i: int| errors[i]@)
}

impl View for FileContent {
    type V = FileContentView;

    open spec fn view(&self) -> FileContentView {
        match *self {
            FileContent::NotFound => FileContent::NotFound,
            FileContent::Invalid(errors) => FileContent::Invalid(error_views(errors@)),
            FileContent::Parsed(text, program) => FileContent::Parsed(text@, program),
        }
    }
}

/// The files of a project that were looked for.
#[derive(Debug)]
pub struct FileTable {
    pub files: Vec<(FilePath, FileContent)>,
}

/// What a contract says of the files of a project.
pub type Files = Seq<(Seq<Seq<char>>, FileContentView)>;

impl View for FileTable {
    type V = Files;

    open spec fn view(&self) -> Files {
        Seq::new(self.files@.len(), |i: int| (self.files@[i].0@, self.files@[i].1@))
    }
}

/// Whether the file was looked for.
pub open spec fn was_read(files: Files, path: Seq<Seq<char>>) -> bool {
    exists|i: int| 0 <= i < files.len() && #[trigger] files[i].0 == path
}

/// The content of a file. A file that was not looked for is taken to be missing.
pub open spec fn content_of(files: Files, path: Seq<Seq<char>>) -> FileContentView
    decreases files.len(),
{
    if files.len() == 0 {
        FileContent::NotFound
    } else if files[0].0 == path {
        files[0].1
    } else {
        content_of(files.drop_first(), path)
    }
}

impl FileTable {
    /// Create a table without files.
    pub fn new() -> (table: FileTable)
        ensures
            table@ == Seq::<(Seq<Seq<char>>, FileContentView)>::empty(),
    {
        let table = FileTable { files: Vec::new() };
        assert(table@ =~= Seq::<(Seq<Seq<char>>, FileContentView)>::empty());
        table
    }

    /// Add what was found at a path.
    pub fn push(&mut self, path: FilePath, content: FileContent)
        ensures
            final(self)@ == old(self)@.push((path@, content@)),
    {
        self.files.push((path, content));
        assert(self@ =~= old(self)@.push((path@, content@)));
    }

    /// Find a file.
    fn find(&self, path: &FilePath) -> (result: Option<usize>)
        ensures
            match result {
                Some(i) => {
                    &&& i < self@.len()
                    &&& self@[i as int].0 == path@
                    &&& content_of(self@, path@) == self@[i as int].1
                },
                None => !was_read(self@, path@) && content_of(self@, path@)
                    == FileContentView::NotFound,
            },
    {
        let mut i: usize = 0;
        assert(self@.skip(0) =~= self@);
        while i < self.files.len()
            invariant
                i <= self.files.len(),
                content_of(self@, path@) == content_of(self@.skip(i as int), path@),
                forall|j: int| 0 <= j < i ==> #[trigger] self@[j].0 != path@,
            decreases self.files.len() - i,
        {
            assert(self@.skip(i as int)[0] == self@[i as int]);
            assert(self@.skip(i as int).drop_first() =~= self@.skip(i + 1));
            if self.files[i].0.same(path) {
                return Some(i);
            }
            i = i + 1;
        }
        None
    }
}

/// The files that the items import from libraries, each with the place of the import.
pub open spec fn imports(items: List<parse::Item>, libraries: Libraries) -> Seq<
    (Seq<Seq<char>>, Span),
>
    decreases items,
{
    match items {
        List::Nil => Seq::empty(),
        List::Cons(head, tail) => import_of(head, libraries) + imports(*tail, libraries),
    }
}

/// The file that an item imports from a library, with its extension.
pub open spec fn import_of(item: parse::Item, libraries: Libraries) -> Seq<(Seq<Seq<char>>, Span)> {
    match item {
        parse::Item::Use(decl) => match full_path(libraries, decl) {
            Ok(path) => seq![(with_extension(path, "simf"@), decl.span)],
            Err(_) => Seq::empty(),
        },
        _ => Seq::empty(),
    }
}

/// Files with the places of their imports, as a contract sees them.
pub open spec fn import_views(list: Seq<(FilePath, Span)>) -> Seq<(Seq<Seq<char>>, Span)> {
    Seq::new(list.len(), |i: int| (list[i].0@, list[i].1))
}

/// Collect the files that the items import from libraries.
fn collect_imports(
    items: &List<parse::Item>,
    libraries: &LibTable,
    out: &mut Vec<(FilePath, Span)>,
)
    ensures
        import_views(final(out)@) == import_views(old(out)@) + imports(*items, libraries@),
    decreases items,
{
    match items {
        List::Nil => {
            assert(import_views(out@) =~= import_views(out@) + Seq::empty());
        },
        List::Cons(head, tail) => {
            let ghost start = import_views(out@);
            if let parse::Item::Use(use_decl) = head {
                if let Ok(path) = get_full_path(libraries, use_decl) {
                    out.push((path.with_extension("simf"), use_decl.span));
                }
            }
            assert(import_views(out@) =~= start + import_of(*head, libraries@));
            collect_imports(tail, libraries, out);
            assert(import_views(out@) =~= start + imports(*items, libraries@));
        },
    }
}

/// Graph Node: One file = One module
#[derive(Debug)]
pub struct Module<File = SourceFile> {
    pub source: File,
    pub parsed_program: parse::Program,
}

/// What a contract says of a module.
pub type ModuleView = Module<SourceFileView>;

impl View for Module {
    type V = ModuleView;

    open spec fn view(&self) -> ModuleView {
        Module { source: self.source@, parsed_program: self.parsed_program }
    }
}

impl Clone for Module {
    fn clone(&self) -> (result: Self)
        ensures
            result@ == self@,
    {
        Module { source: self.source.clone(), parsed_program: self.parsed_program.clone() }
    }
}

/// The Dependency Graph itself
#[derive(Debug)]
pub struct ProjectGraph {
    /// Arena Pattern: the data itself lies here. Vector guarantees data lives in one place.
    pub modules: Vec<Module>,
    /// The libraries of the project.
    pub libraries: LibTable,
    /// The name of each file without its extension. A file has the number of its name in this
    /// list, so that no file is parsed twice.
    pub paths: Vec<SourceName>,
    /// Adjacency list: Who depends on whom
    pub dependencies: HashMap<usize, Vec<usize>>,
}

/// The modules of a project, as a contract sees them.
pub open spec fn module_views(modules: Seq<Module>) -> Seq<ModuleView> {
    Seq::new(modules.len(), |i: int| modules[i]@)
}

/// The names of files, as a contract sees them.
pub open spec fn name_views(paths: Seq<SourceName>) -> Seq<SourceNameView> {
    Seq::new(paths.len(), |i: int| paths[i]@)
}

/// The number of a file, if the file is known.
pub open spec fn id_of(paths: Seq<SourceNameView>, name: SourceNameView) -> Option<usize>
    decreases paths.len(),
{
    if paths.len() == 0 {
        None
    } else {
        match id_of(paths.drop_last(), name) {
            Some(id) => Some(id),
            None => if paths.last() == name {
                Some((paths.len() - 1) as usize)
            } else {
                None
            },
        }
    }
}

/// The name of a file in a graph: its path without the extension.
pub open spec fn key_of(file: Seq<Seq<char>>) -> SourceNameView {
    without_extension(SourceName::Real(file))
}

/// How far the imports of a project were followed.
pub ghost struct Exploration {
    /// The files that were found.
    pub modules: Seq<ModuleView>,
    /// The names of the files that were found.
    pub paths: Seq<SourceNameView>,
    /// For each file whose imports were followed the files that it depends on.
    pub dependencies: Seq<Seq<usize>>,
    /// The errors that occurred.
    pub errors: Seq<RichErrorView>,
}

/// The exploration after an import was followed, and the files that the importing file depends on.
///
/// A file that is known already is not read again.
pub open spec fn import_followed(
    e: Exploration,
    found: Seq<usize>,
    importer: SourceFileView,
    import: (Seq<Seq<char>>, Span),
    files: Files,
) -> (Exploration, Seq<usize>) {
    let key = key_of(import.0);
    match id_of(e.paths, key) {
        Some(id) => if found.contains(id) {
            (e, found)
        } else {
            (e, found.push(id))
        },
        None => match content_of(files, import.0) {
            FileContent::NotFound => (
                Exploration {
                    errors: e.errors.push(
                        with_file(rich(Error::FileNotFound(import.0), import.1), importer),
                    ),
                    ..e
                },
                found,
            ),
            FileContent::Invalid(errors) => (
                Exploration { errors: e.errors + errors, ..e },
                found,
            ),
            FileContent::Parsed(text, program) => (
                Exploration {
                    modules: e.modules.push(
                        Module {
                            source: SourceFile { name: key, content: text },
                            parsed_program: program,
                        },
                    ),
                    paths: e.paths.push(key),
                    ..e
                },
                found.push(e.modules.len() as usize),
            ),
        },
    }
}

/// The exploration after imports were followed, one after the other, and the files that the
/// importing file depends on.
pub open spec fn imports_followed(
    e: Exploration,
    importer: SourceFileView,
    list: Seq<(Seq<Seq<char>>, Span)>,
    files: Files,
) -> (Exploration, Seq<usize>)
    decreases list.len(),
{
    if list.len() == 0 {
        (e, Seq::empty())
    } else {
        let (before, found) = imports_followed(e, importer, list.drop_last(), files);
        import_followed(before, found, importer, list.last(), files)
    }
}

/// The exploration after the imports of the first `n` files were followed. Files are numbered in
/// the order in which they are found, beginning with the main file.
pub open spec fn explored(
    root: ModuleView,
    libraries: Libraries,
    files: Files,
    n: nat,
) -> Exploration
    decreases n,
{
    if n == 0 {
        Exploration {
            modules: seq![root],
            paths: seq![without_extension(root.source.name)],
            dependencies: Seq::empty(),
            errors: Seq::empty(),
        }
    } else {
        let before = explored(root, libraries, files, (n - 1) as nat);
        if n <= before.modules.len() {
            let module = before.modules[n - 1];
            let (after, found) = imports_followed(
                before,
                module.source,
                imports(*module.parsed_program.items, libraries),
                files,
            );
            Exploration { dependencies: before.dependencies.push(found), ..after }
        } else {
            before
        }
    }
}

/// Whether the imports of `n` files were followed and there are no other files.
pub open spec fn is_complete(e: Exploration, n: nat) -> bool {
    e.modules.len() == n
}

/// The dependencies of the files. The main file and the files with dependencies have an entry.
pub open spec fn dependency_table(found: Seq<Seq<usize>>) -> Dependencies {
    Map::new(
        |id: usize| id < found.len() && (id == 0 || found[id as int].len() > 0),
        |id: usize| found[id as int],
    )
}

impl ProjectGraph {
    /// The graph holds what was found by an exploration.
    pub open spec fn is_result_of(self, e: Exploration) -> bool {
        &&& module_views(self.modules@) == e.modules
        &&& name_views(self.paths@) == e.paths
        &&& dependencies_view(self.dependencies@) == dependency_table(e.dependencies)
    }
}

/// Find the number of a file.
pub fn find_id(paths: &Vec<SourceName>, name: &SourceName) -> (result: Option<usize>)
    ensures
        result == id_of(name_views(paths@), name@),
        result matches Some(id) ==> id < paths.len() && paths@[id as int]@ == name@,
        result is None ==> !name_views(paths@).contains(name@),
{
    let ghost all = name_views(paths@);
    let mut i: usize = 0;
    while i < paths.len()
        invariant
            i <= paths.len(),
            all == name_views(paths@),
            id_of(all.take(i as int), name@) is None,
            forall|j: int| 0 <= j < i ==> #[trigger] all[j] != name@,
        decreases paths.len() - i,
    {
        assert(all.take(i + 1).drop_last() =~= all.take(i as int));
        if paths[i].same(name) {
            proof {
                lemma_id_stays(all, i + 1, name@);
            }
            return Some(i);
        }
        i = i + 1;
    }
    assert(all.take(i as int) =~= all);
    None
}

/// The number of a file stays the same when further files are found.
proof fn lemma_id_stays(paths: Seq<SourceNameView>, n: int, name: SourceNameView)
    requires
        0 <= n <= paths.len(),
        id_of(paths.take(n), name) is Some,
    ensures
        id_of(paths, name) == id_of(paths.take(n), name),
    decreases paths.len() - n,
{
    if n == paths.len() {
        assert(paths.take(n) =~= paths);
    } else {
        assert(paths.take(n + 1).drop_last() =~= paths.take(n));
        lemma_id_stays(paths, n + 1, name);
    }
}

/// Check whether a list has a number.
fn contains(list: &Vec<usize>, id: usize) -> (result: bool)
    ensures
        result == list@.contains(id),
{
    let mut i: usize = 0;
    while i < list.len()
        invariant
            i <= list.len(),
            forall|j: int| 0 <= j < i ==> list@[j] != id,
        decreases list.len() - i,
    {
        if list[i] == id {
            return true;
        }
        i = i + 1;
    }
    false
}

/// The part of a graph that was built so far.
struct Builder {
    modules: Vec<Module>,
    paths: Vec<SourceName>,
    errors: Vec<RichError>,
}

impl Builder {
    /// The exploration that the builder stands for.
    spec fn exploration(self, dependencies: Seq<Seq<usize>>) -> Exploration {
        Exploration {
            modules: module_views(self.modules@),
            paths: name_views(self.paths@),
            dependencies,
            errors: error_views(self.errors@),
        }
    }

    /// Each file but the main file was taken from an entry of the table of its own.
    spec fn is_bounded(self, files: Files, used: Set<int>) -> bool {
        &&& self.modules.len() == self.paths.len()
        &&& used.subset_of(set_int_range(0, files.len() as int))
        &&& used.finite()
        &&& used.len() + 1 == self.modules.len()
        &&& forall|j: int| #[trigger]
            used.contains(j) ==> name_views(self.paths@).contains(key_of(files[j].0))
    }

    /// Follow an import.
    fn follow(
        &mut self,
        importer: &SourceFile,
        import: (FilePath, Span),
        files: &FileTable,
        found: &mut Vec<usize>,
        dependencies: Ghost<Seq<Seq<usize>>>,
        used: Ghost<Set<int>>,
    ) -> (now_used: Ghost<Set<int>>)
        requires
            old(self).is_bounded(files@, used@),
        ensures
            final(self).is_bounded(files@, now_used@),
            (final(self).exploration(dependencies@), final(found)@) == import_followed(
                old(self).exploration(dependencies@),
                old(found)@,
                importer@,
                (import.0@, import.1),
                files@,
            ),
    {
        let (file, span) = import;
        let key = SourceName::Real(file.clone()).without_extension();
        if let Some(existing_id) = find_id(&self.paths, &key) {
            if !contains(found, existing_id) {
                found.push(existing_id);
            }
            return used;
        }
        let ghost known = name_views(self.paths@);
        let ghost before = *self;
        match files.find(&file) {
            None => {
                let error = RichError::new(Error::FileNotFound(file), span).with_source(
                    importer.clone(),
                );
                self.errors.push(error);
                assert(error_views(self.errors@) =~= error_views(before.errors@).push(error@));
                used
            },
            Some(i) => match &files.files[i].1 {
                FileContent::NotFound => {
                    let error = RichError::new(Error::FileNotFound(file), span).with_source(
                        importer.clone(),
                    );
                    self.errors.push(error);
                    assert(error_views(self.errors@) =~= error_views(before.errors@).push(error@));
                    used
                },
                FileContent::Invalid(errors) => {
                    let mut copies = errors.clone();
                    assert(error_views(copies@) =~= error_views(errors@));
                    self.errors.append(&mut copies);
                    assert(error_views(self.errors@) =~= error_views(before.errors@)
                        + error_views(errors@));
                    used
                },
                FileContent::Parsed(text, program) => {
                    proof {
                        assert(files@[i as int].0 == file@);
                        assert(!used@.contains(i as int));
                    }
                    let last_ind: usize = self.modules.len();
                    let source = SourceFile::new(key.clone(), text.clone());
                    self.modules.push(Module { source, parsed_program: program.clone() });
                    self.paths.push(key);
                    found.push(last_ind);
                    proof {
                        assert(module_views(self.modules@) =~= module_views(before.modules@).push(
                            self.modules@.last()@,
                        ));
                        assert(name_views(self.paths@) =~= known.push(key@));
                        assert forall|j: int| #[trigger]
                            used@.insert(i as int).contains(j) implies name_views(
                            self.paths@,
                        ).contains(key_of(files@[j].0)) by {
                            if j == i {
                                assert(name_views(self.paths@)[known.len() as int] == key@);
                            } else {
                                let k = choose|k: int|
                                    0 <= k < known.len() && known[k] == key_of(files@[j].0);
                                assert(name_views(self.paths@)[k] == known[k]);
                            }
                        }
                    }
                    Ghost(used@.insert(i as int))
                },
            },
        }
    }
}

/// What the construction of a graph results in: the graph of a complete exploration, unless there
/// are errors.
pub open spec fn is_graph_of(
    result: Option<ProjectGraph>,
    root: ModuleView,
    libraries: Libraries,
    files: Files,
    errors_before: Seq<RichErrorView>,
    errors_after: Seq<RichErrorView>,
    n: nat,
) -> bool {
    let e = explored(root, libraries, files, n);
    &&& is_complete(e, n)
    &&& errors_after == errors_before + e.errors
    &&& match result {
        Some(graph) => {
            &&& errors_after.len() == 0
            &&& graph.is_result_of(e)
            &&& graph.libraries@ == libraries
        },
        None => errors_after.len() > 0,
    }
}

impl ProjectGraph {
    /// Build the graph of a project by following the imports of its main file.
    ///
    /// The files that the project consists of were read and parsed before: `files` holds what was
    /// found. [`ProjectGraph::unread_files`] tells which files are still to be read.
    ///
    /// Imports from unknown libraries are skipped.
    ///
    /// ## Errors
    ///
    /// * [`Error::FileNotFound`] An imported file does not exist.
    /// * Propagates errors of files whose content is no program.
    pub fn new(
        root_source: SourceFile,
        libraries: LibTable,
        root_program: &parse::Program,
        files: &FileTable,
        handler: &mut ErrorCollector,
    ) -> (result: Option<ProjectGraph>)
        ensures
            exists|n: nat|
                is_graph_of(
                    result,
                    Module { source: root_source@, parsed_program: *root_program },
                    libraries@,
                    files@,
                    old(handler)@,
                    final(handler)@,
                    n,
                ),
    {
        broadcast use vstd::std_specs::hash::group_hash_axioms;

        let ghost root: ModuleView = Module {
            source: root_source@,
            parsed_program: *root_program,
        };
        let ghost libs = libraries@;
        let root_name_no_ext = root_source.name.without_extension();
        let mut builder = Builder { modules: Vec::new(), paths: Vec::new(), errors: Vec::new() };
        builder.modules.push(Module { source: root_source, parsed_program: root_program.clone() });
        builder.paths.push(root_name_no_ext);
        let mut dependencies: HashMap<usize, Vec<usize>> = HashMap::new();
        let mut used: Ghost<Set<int>> = Ghost(Set::empty());
        let ghost mut all_found: Seq<Seq<usize>> = Seq::empty();
        let mut curr_id: usize = 0;
        proof {
            assert(module_views(builder.modules@) =~= seq![root]);
            assert(name_views(builder.paths@) =~= seq![without_extension(root.source.name)]);
            assert(error_views(builder.errors@) =~= Seq::<RichErrorView>::empty());
            assert(dependencies_view(dependencies@) =~= dependency_table(all_found));
        }
        while curr_id < builder.modules.len()
            invariant
                libs == libraries@,
                curr_id <= builder.modules.len(),
                all_found.len() == curr_id,
                builder.is_bounded(files@, used@),
                builder.exploration(all_found) == explored(root, libs, files@, curr_id as nat),
                dependencies_view(dependencies@) == dependency_table(all_found),
                vstd::std_specs::hash::obeys_key_model::<usize>(),
                vstd::std_specs::hash::builds_valid_hashers::<std::hash::RandomState>(),
            decreases files@.len() + 1 - curr_id,
        {
            let ghost before = builder.exploration(all_found);
            let importer_source = builder.modules[curr_id].source.clone();
            let mut valid_imports: Vec<(FilePath, Span)> = Vec::new();
            let program_items = builder.modules[curr_id].parsed_program.items.clone();
            collect_imports(&program_items, &libraries, &mut valid_imports);
            let ghost list = imports(shared(program_items), libs);
            assert(import_views(valid_imports@) =~= list);
            assert(importer_source@ == before.modules[curr_id as int].source);
            let mut found: Vec<usize> = Vec::new();
            assert(list.take(0) =~= Seq::empty());
            for import in it: valid_imports
                invariant
                    it.seq() == valid_imports@,
                    import_views(valid_imports@) == list,
                    builder.is_bounded(files@, used@),
                    (builder.exploration(all_found), found@) == imports_followed(
                        before,
                        importer_source@,
                        list.take(it.index() as int),
                        files@,
                    ),
            {
                let ghost i = it.index() as int;
                assert(list.take(i + 1).drop_last() =~= list.take(i));
                assert(list.take(i + 1).last() == list[i]);
                used = builder.follow(
                    &importer_source,
                    import,
                    files,
                    &mut found,
                    Ghost(all_found),
                    used,
                );
            }
            let ghost table = dependencies@;
            proof {
                assert(list.take(list.len() as int) =~= list);
                lemma_table(all_found, found@);
                lemma_int_range(0, files@.len() as int);
                lemma_len_subset(used@, set_int_range(0, files@.len() as int));
                all_found = all_found.push(found@);
                lemma_grows(before, importer_source@, list, files@);
            }
            if curr_id == 0 || found.len() > 0 {
                dependencies.insert(curr_id, found);
                assert(dependencies_view(dependencies@) =~= dependencies_view(table).insert(
                    curr_id,
                    found@,
                ));
            }
            curr_id = curr_id + 1;
        }
        let Builder { modules, paths, errors } = builder;
        let ghost new_errors = error_views(errors@);
        for error in it: errors
            invariant
                it.seq() == errors@,
                new_errors == error_views(errors@),
                handler@ == old(handler)@ + new_errors.take(it.index() as int),
        {
            let ghost i = it.index() as int;
            handler.push(error);
            assert(handler@ =~= old(handler)@ + new_errors.take(i + 1));
        }
        assert(new_errors.take(new_errors.len() as int) =~= new_errors);
        let result = if handler.has_errors() {
            None
        } else {
            Some(ProjectGraph { modules, libraries, paths, dependencies })
        };
        assert(is_graph_of(
            result,
            root,
            libs,
            files@,
            old(handler)@,
            handler@,
            curr_id as nat,
        ));
        result
    }
}

/// The entry of a further file in the table of dependencies.
proof fn lemma_table(found: Seq<Seq<usize>>, last: Seq<usize>)
    requires
        found.len() <= usize::MAX,
    ensures
        dependency_table(found.push(last)) == if found.len() == 0 || last.len() > 0 {
            dependency_table(found).insert(found.len() as usize, last)
        } else {
            dependency_table(found)
        },
{
    let id = found.len() as usize;
    let expected = if found.len() == 0 || last.len() > 0 {
        dependency_table(found).insert(id, last)
    } else {
        dependency_table(found)
    };
    assert forall|k: usize| #[trigger]
        dependency_table(found.push(last)).contains_key(k) == expected.contains_key(k) && (
    expected.contains_key(k) ==> dependency_table(found.push(last))[k] == expected[k]) by {
        if k < found.len() {
            assert(found.push(last)[k as int] == found[k as int]);
        }
    }
    assert(dependency_table(found.push(last)) =~= expected);
}

/// Following imports forgets no file.
proof fn lemma_grows(
    e: Exploration,
    importer: SourceFileView,
    list: Seq<(Seq<Seq<char>>, Span)>,
    files: Files,
)
    ensures
        e.modules.len() <= imports_followed(e, importer, list, files).0.modules.len(),
    decreases list.len(),
{
    if list.len() > 0 {
        lemma_grows(e, importer, list.drop_last(), files);
    }
}

/// Whether the items import the file from a library.
pub open spec fn has_import(
    items: List<parse::Item>,
    libraries: Libraries,
    file: Seq<Seq<char>>,
) -> bool {
    exists|i: int|
        0 <= i < imports(items, libraries).len() && #[trigger] imports(items, libraries)[i].0
            == file
}

/// Whether the main file or a file of the table imports the file.
pub open spec fn is_imported(
    root: parse::Program,
    libraries: Libraries,
    files: Files,
    file: Seq<Seq<char>>,
) -> bool {
    ||| has_import(*root.items, libraries, file)
    ||| exists|j: int|
        0 <= j < files.len() && (#[trigger] files[j].1 matches FileContent::Parsed(_, program)
            && has_import(*program.items, libraries, file))
}

/// The paths of a list, as a contract sees them.
pub open spec fn path_views(list: Seq<FilePath>) -> Seq<Seq<Seq<char>>> {
    Seq::new(list.len(), |i: int| list[i]@)
}

/// Append the files that the items import and that were not read yet.
fn push_unread(
    items: &List<parse::Item>,
    libraries: &LibTable,
    files: &FileTable,
    out: &mut Vec<FilePath>,
)
    ensures
        forall|file: Seq<Seq<char>>| #[trigger]
            path_views(final(out)@).contains(file) <==> (path_views(old(out)@).contains(file)
                || has_import(*items, libraries@, file) && !was_read(files@, file)),
{
    let mut list: Vec<(FilePath, Span)> = Vec::new();
    collect_imports(items, libraries, &mut list);
    let ghost all = imports(*items, libraries@);
    assert(import_views(list@) =~= all);
    let mut i: usize = 0;
    while i < list.len()
        invariant
            i <= list.len(),
            import_views(list@) == all,
            forall|file: Seq<Seq<char>>| #[trigger]
                path_views(out@).contains(file) <==> (path_views(old(out)@).contains(file) || (
                !was_read(files@, file) && exists|j: int|
                    0 <= j < i && #[trigger] all[j].0 == file)),
        decreases list.len() - i,
    {
        let ghost before = path_views(out@);
        let ghost file = list@[i as int].0@;
        assert(all[i as int].0 == file);
        match files.find(&list[i].0) {
            Some(k) => {
                assert(files@[k as int].0 == file);
            },
            None => {
                out.push(list[i].0.clone());
                assert(path_views(out@) =~= before.push(file));
                assert forall|x: Seq<Seq<char>>| #[trigger]
                    path_views(out@).contains(x) <==> (before.contains(x) || x == file) by {
                    if before.contains(x) {
                        let k = choose|k: int| 0 <= k < before.len() && before[k] == x;
                        assert(path_views(out@)[k] == x);
                    }
                    assert(path_views(out@)[before.len() as int] == file);
                }
            },
        }
        i = i + 1;
    }
}

impl ProjectGraph {
    /// List the files that are imported and that were not read yet.
    pub fn unread_files(root: &parse::Program, libraries: &LibTable, files: &FileTable) -> (list:
        Vec<FilePath>)
        ensures
            forall|file: Seq<Seq<char>>| #[trigger]
                path_views(list@).contains(file) <==> is_imported(
                    *root,
                    libraries@,
                    files@,
                    file,
                ) && !was_read(files@, file),
    {
        let mut list: Vec<FilePath> = Vec::new();
        push_unread(&root.items, libraries, files, &mut list);
        let mut i: usize = 0;
        while i < files.files.len()
            invariant
                i <= files.files.len(),
                forall|file: Seq<Seq<char>>| #[trigger]
                    path_views(list@).contains(file) <==> !was_read(files@, file) && (has_import(
                        *root.items,
                        libraries@,
                        file,
                    ) || exists|j: int|
                        0 <= j < i && (#[trigger] files@[j].1 matches FileContent::Parsed(
                            _,
                            program,
                        ) && has_import(*program.items, libraries@, file))),
            decreases files.files.len() - i,
        {
            assert(files@[i as int].1 == files.files@[i as int].1@);
            if let FileContent::Parsed(_, program) = &files.files[i].1 {
                push_unread(&program.items, libraries, files, &mut list);
            }
            i = i + 1;
        }
        list
    }
}

} // verus!
