//! Resolution of imports to files on disk.
use crate::disk::{entry_at, is_dir, Disk, DiskView};
use crate::error::{rich, Error, ErrorView, RichError, Span};
use crate::lexer::{is_keyword, is_keyword_text};
use crate::name::{names, Identifier};
use crate::order::{
    lemma_path_irreflexive, lemma_path_transitive, lemma_transitive, path_precedes, precedes,
    relate, relate_paths, Relation,
};
use crate::parse::UseDecl;
use crate::path::{byte_len, parent, path_text, with_extension, CanonPath, FilePath};
use vstd::prelude::*;

pub mod laws;
pub mod walk_laws;

verus! {

/// This defines how a specific dependency root path (e.g. "math")
/// should be resolved to a physical path on the disk, restricted to
/// files executing within the `context_prefix`.
///
/// Paths are of type `Path` and names of type `Text`.
#[derive(Debug, PartialEq, Eq)]
pub struct Remapping<Path = CanonPath, Text = String> {
    /// The base directory that owns this dependency mapping.
    pub context_prefix: Path,
    /// The dependency root path name used in the `use` statement (e.g., "math").
    pub drp_name: Text,
    /// The physical path this dependency root path points to.
    pub target: Path,
}

/// What a contract says of a remapping.
pub type RemappingView = Remapping<Seq<Seq<char>>, Seq<char>>;

impl View for Remapping {
    type V = RemappingView;

    open spec fn view(&self) -> RemappingView {
        Remapping {
            context_prefix: self.context_prefix@,
            drp_name: self.drp_name@,
            target: self.target@,
        }
    }
}

impl Clone for Remapping {
    fn clone(&self) -> (result: Self)
        ensures
            result@ == self@,
    {
        Remapping {
            context_prefix: self.context_prefix.clone(),
            drp_name: self.drp_name.clone(),
            target: self.target.clone(),
        }
    }
}

/// What a contract says of remappings.
pub open spec fn remapping_views(list: Seq<Remapping>) -> Seq<RemappingView> {
    Seq::new(list.len(), |i: int| list[i]@)
}

/// What a contract says of paths.
pub open spec fn path_views(list: Seq<CanonPath>) -> Seq<Seq<Seq<char>>> {
    Seq::new(list.len(), |i: int| list[i]@)
}

/// Whether a character is an ASCII letter.
pub open spec fn is_letter(c: char) -> bool {
    'a' <= c <= 'z' || 'A' <= c <= 'Z'
}

/// Whether a character can occur in an identifier, apart from its first place.
pub open spec fn is_identifier_char(c: char) -> bool {
    is_letter(c) || '0' <= c <= '9' || c == '_'
}

/// Whether a text can be the name of a dependency: it is an ASCII identifier and no keyword.
pub open spec fn is_dependency_identifier(text: Seq<char>) -> bool {
    &&& text.len() > 0
    &&& is_letter(text[0]) || text[0] == '_'
    &&& forall|i: int| 0 <= i < text.len() ==> is_identifier_char(#[trigger] text[i])
    &&& !is_keyword_text(text)
}

/// Check whether a text can be the name of a dependency.
pub fn is_valid_dependency_identifier(s: &str) -> (result: bool)
    ensures
        result == is_dependency_identifier(s@),
{
    if s.is_empty() {
        return false;
    }
    let first = s.get_char(0);
    if !(('a' <= first && first <= 'z') || ('A' <= first && first <= 'Z') || first == '_') {
        return false;
    }
    for c in it: s.chars()
        invariant
            it.seq() == s@,
            forall|i: int| 0 <= i < it.index() ==> is_identifier_char(#[trigger] s@[i]),
    {
        if !(('a' <= c && c <= 'z') || ('A' <= c && c <= 'Z') || ('0' <= c && c <= '9') || c
            == '_') {
            assert(!is_identifier_char(s@[it.index() as int]));
            return false;
        }
    }
    !is_keyword(s)
}

/// Whether a root comes before another one: longer paths first, and paths of the same length in
/// alphabetical order.
pub open spec fn root_before(a: Seq<Seq<char>>, b: Seq<Seq<char>>) -> bool {
    byte_len(a) > byte_len(b) || byte_len(a) == byte_len(b) && path_precedes(a, b)
}

/// Whether a remapping comes before another one: that of the longer context first, contexts of the
/// same length in alphabetical order, and names of the same context in alphabetical order.
pub open spec fn remapping_before(a: RemappingView, b: RemappingView) -> bool {
    root_before(a.context_prefix, b.context_prefix) || a.context_prefix == b.context_prefix
        && precedes(a.drp_name, b.drp_name)
}

/// Roots are ordered.
proof fn lemma_roots(a: Seq<Seq<char>>, b: Seq<Seq<char>>, c: Seq<Seq<char>>)
    ensures
        !root_before(a, a),
        root_before(a, b) && root_before(b, c) ==> root_before(a, c),
{
    lemma_path_irreflexive(a);
    if byte_len(a) == byte_len(b) && byte_len(b) == byte_len(c) && path_precedes(a, b)
        && path_precedes(b, c) {
        lemma_path_transitive(a, b, c);
    }
}

/// Remappings are ordered.
proof fn lemma_remappings(a: RemappingView, b: RemappingView, c: RemappingView)
    ensures
        remapping_before(a, b) && remapping_before(b, c) ==> remapping_before(a, c),
{
    lemma_roots(a.context_prefix, b.context_prefix, c.context_prefix);
    if a.context_prefix == b.context_prefix && b.context_prefix == c.context_prefix && precedes(
        a.drp_name,
        b.drp_name,
    ) && precedes(b.drp_name, c.drp_name) {
        lemma_transitive(a.drp_name, b.drp_name, c.drp_name);
    }
}

/// Whether each root comes before those behind it.
pub open spec fn are_sorted_roots(roots: Seq<Seq<Seq<char>>>) -> bool {
    forall|i: int, j: int|
        0 <= i < j < roots.len() ==> root_before(#[trigger] roots[i], #[trigger] roots[j])
}

/// Whether each remapping comes before those behind it.
pub open spec fn are_sorted_remappings(list: Seq<RemappingView>) -> bool {
    forall|i: int, j: int|
        0 <= i < j < list.len() ==> remapping_before(#[trigger] list[i], #[trigger] list[j])
}

/// Compare two roots.
fn relate_roots(a: &CanonPath, b: &CanonPath) -> (relation: Relation)
    ensures
        match relation {
            Relation::Before => root_before(a@, b@),
            Relation::Same => a@ == b@,
            Relation::After => root_before(b@, a@),
        },
{
    let len_a: u128 = a.path.byte_len();
    let len_b: u128 = b.path.byte_len();
    if len_a > len_b {
        Relation::Before
    } else if len_a < len_b {
        Relation::After
    } else {
        relate_paths(&a.path, &b.path)
    }
}

/// Compare two remappings by context and name.
fn relate_remappings(a: &Remapping, b: &Remapping) -> (relation: Relation)
    ensures
        match relation {
            Relation::Before => remapping_before(a@, b@),
            Relation::Same => a.context_prefix@ == b.context_prefix@ && a.drp_name@ == b.drp_name@,
            Relation::After => remapping_before(b@, a@),
        },
{
    match relate_roots(&a.context_prefix, &b.context_prefix) {
        Relation::Same => relate(a.drp_name.as_str(), b.drp_name.as_str()),
        other => other,
    }
}

/// Add a root to sorted roots, unless it is there already.
fn insert_root(roots: &mut Vec<CanonPath>, root: CanonPath)
    requires
        are_sorted_roots(path_views(old(roots)@)),
    ensures
        are_sorted_roots(path_views(final(roots)@)),
        path_views(final(roots)@).to_set() == path_views(old(roots)@).to_set().insert(root@),
{
    let ghost before = path_views(roots@);
    let mut i: usize = 0;
    while i < roots.len()
        invariant_except_break
            i <= roots.len(),
            before == path_views(roots@),
            roots@ == old(roots)@,
            are_sorted_roots(before),
            forall|j: int| 0 <= j < i ==> root_before(#[trigger] before[j], root@),
        ensures
            i <= roots.len(),
            roots@ == old(roots)@,
            forall|j: int| 0 <= j < i ==> root_before(#[trigger] before[j], root@),
            i < roots.len() ==> root_before(root@, before[i as int]),
        decreases roots.len() - i,
    {
        assert(before[i as int] == roots@[i as int]@);
        match relate_roots(&root, &roots[i]) {
            Relation::Before => {
                break;
            },
            Relation::Same => {
                proof {
                    assert(before.to_set() =~= before.to_set().insert(root@));
                }
                return;
            },
            Relation::After => {},
        }
        i = i + 1;
    }
    roots.insert(i, root);
    proof {
        let after = path_views(roots@);
        assert(after =~= before.insert(i as int, root@));
        assert forall|j: int, k: int| 0 <= j < k < after.len() implies root_before(
            #[trigger] after[j],
            #[trigger] after[k],
        ) by {
            let old_j = if j < i { j } else { j - 1 };
            let old_k = if k < i { k } else { k - 1 };
            if j != i {
                assert(after[j] == before[old_j]);
            }
            if k != i {
                assert(after[k] == before[old_k]);
            }
            if j == i {
                if old_k > i {
                    assert(root_before(before[i as int], before[old_k]));
                    lemma_roots(root@, before[i as int], before[old_k]);
                }
            } else if k != i {
                assert(root_before(before[old_j], before[old_k]));
            }
        }
        lemma_insert_to_set(before, i as int, root@);
    }
}

/// The elements of a sequence into which an element was inserted.
proof fn lemma_insert_to_set<T>(list: Seq<T>, n: int, element: T)
    requires
        0 <= n <= list.len(),
    ensures
        list.insert(n, element).to_set() == list.to_set().insert(element),
{
    let after = list.insert(n, element);
    assert forall|x: T| #[trigger]
        after.to_set().contains(x) <==> list.to_set().insert(element).contains(x) by {
        if after.contains(x) {
            let i = choose|i: int| 0 <= i < after.len() && after[i] == x;
            if i < n {
                assert(list[i] == x);
            } else if i > n {
                assert(list[i - 1] == x);
            }
        }
        if list.contains(x) {
            let i = choose|i: int| 0 <= i < list.len() && list[i] == x;
            if i < n {
                assert(after[i] == x);
            } else {
                assert(after[i + 1] == x);
            }
        }
        assert(after[n] == element);
    }
    assert(after.to_set() =~= list.to_set().insert(element));
}

/// Whether two remappings are of the same name in the same context.
pub open spec fn is_same_alias(a: RemappingView, b: RemappingView) -> bool {
    a.context_prefix == b.context_prefix && a.drp_name == b.drp_name
}

/// Add a remapping to sorted remappings.
fn insert_remapping(list: &mut Vec<Remapping>, remapping: Remapping)
    requires
        are_sorted_remappings(remapping_views(old(list)@)),
        forall|i: int|
            0 <= i < old(list)@.len() ==> !is_same_alias(
                (#[trigger] old(list)@[i])@,
                remapping@,
            ),
    ensures
        are_sorted_remappings(remapping_views(final(list)@)),
        remapping_views(final(list)@).to_multiset() == remapping_views(
            old(list)@,
        ).to_multiset().insert(remapping@),
{
    let ghost before = remapping_views(list@);
    let mut i: usize = 0;
    while i < list.len()
        invariant_except_break
            i <= list.len(),
            before == remapping_views(list@),
            list@ == old(list)@,
            forall|j: int|
                0 <= j < list@.len() ==> !is_same_alias((#[trigger] list@[j])@, remapping@),
            forall|j: int| 0 <= j < i ==> remapping_before(#[trigger] before[j], remapping@),
        ensures
            i <= list.len(),
            list@ == old(list)@,
            forall|j: int| 0 <= j < i ==> remapping_before(#[trigger] before[j], remapping@),
            i < list.len() ==> remapping_before(remapping@, before[i as int]),
        decreases list.len() - i,
    {
        assert(before[i as int] == list@[i as int]@);
        match relate_remappings(&remapping, &list[i]) {
            Relation::Before => {
                break;
            },
            Relation::Same => {
                assert(is_same_alias(list@[i as int]@, remapping@));
            },
            Relation::After => {},
        }
        i = i + 1;
    }
    list.insert(i, remapping);
    proof {
        let after = remapping_views(list@);
        assert(after =~= before.insert(i as int, remapping@));
        assert forall|j: int, k: int| 0 <= j < k < after.len() implies remapping_before(
            #[trigger] after[j],
            #[trigger] after[k],
        ) by {
            let old_j = if j < i { j } else { j - 1 };
            let old_k = if k < i { k } else { k - 1 };
            if j != i {
                assert(after[j] == before[old_j]);
            }
            if k != i {
                assert(after[k] == before[old_k]);
            }
            if j == i {
                if old_k > i {
                    assert(remapping_before(before[i as int], before[old_k]));
                    lemma_remappings(remapping@, before[i as int], before[old_k]);
                }
            } else if k != i {
                assert(remapping_before(before[old_j], before[old_k]));
            }
        }
        vstd::seq_lib::to_multiset_insert(before, i as int, remapping@);
    }
}

/// A router for resolving dependencies across multi-file workspaces.
///
/// Mappings are strictly sorted by the longest `context_prefix` match.
/// This ensures that if multiple nested directories define the same dependency root path,
/// the most specific (deepest) context wins.
/// This struct must always be constructed via [`DependencyMapBuilder`].
#[derive(Debug)]
pub struct DependencyMap {
    /// External dependency remappings (e.g., `use math::...`)
    pub remappings: Vec<Remapping>,
    /// Package roots for resolving local workspace paths (`crate::...`).
    ///
    /// In a multi-file workspace with nested dependencies,
    /// a file might be part of an external dependency package rather than the top-level
    /// project. These paths are sorted by descending length, allowing the compiler to
    /// match a file to its closest (most deeply nested) owning package root.
    /// This prevents symlink escapes and ensures `crate::` correctly resolves relative
    /// to the dependency's own root directory, rather than the parent workspace root.
    pub package_roots: Vec<CanonPath>,
}

/// What a contract says of a dependency map.
pub ghost struct DependencyMapView {
    pub remappings: Seq<RemappingView>,
    pub package_roots: Seq<Seq<Seq<char>>>,
}

impl View for DependencyMap {
    type V = DependencyMapView;

    open spec fn view(&self) -> DependencyMapView {
        DependencyMapView {
            remappings: remapping_views(self.remappings@),
            package_roots: path_views(self.package_roots@),
        }
    }
}

impl Clone for DependencyMap {
    fn clone(&self) -> (result: Self)
        ensures
            result@ == self@,
    {
        let result = DependencyMap {
            remappings: self.remappings.clone(),
            package_roots: self.package_roots.clone(),
        };
        assert(result@.remappings =~= self@.remappings);
        assert(result@.package_roots =~= self@.package_roots);
        result
    }
}

impl DependencyMapView {
    /// The remappings and the package roots are sorted.
    pub open spec fn wf(self) -> bool {
        are_sorted_remappings(self.remappings) && are_sorted_roots(self.package_roots)
    }
}

/// Pre-validated, frozen dependencies without an entry root.
///
/// Built once from [`DependencyMapBuilder::validate_deps`]: all checks and the sorting are done at
/// this stage.
#[derive(Debug)]
pub struct ValidatedDeps {
    /// Already validated and sorted by longest context prefix.
    pub remappings: Vec<Remapping>,
    /// Package roots contributed by deps only; entry root is excluded here
    /// because it changes per call. Already deduped and sorted.
    pub dep_roots: Vec<CanonPath>,
}

impl ValidatedDeps {
    /// The remappings and the roots are sorted.
    pub open spec fn wf(self) -> bool {
        are_sorted_remappings(remapping_views(self.remappings@)) && are_sorted_roots(
            path_views(self.dep_roots@),
        )
    }
}

impl Clone for ValidatedDeps {
    fn clone(&self) -> (result: Self)
        ensures
            remapping_views(result.remappings@) == remapping_views(self.remappings@),
            path_views(result.dep_roots@) == path_views(self.dep_roots@),
    {
        let result = ValidatedDeps {
            remappings: self.remappings.clone(),
            dep_roots: self.dep_roots.clone(),
        };
        assert(remapping_views(result.remappings@) =~= remapping_views(self.remappings@));
        assert(path_views(result.dep_roots@) =~= path_views(self.dep_roots@));
        result
    }
}

/// Builder for [`DependencyMap`].
///
/// Supports two usage patterns:
///
/// - **Single entry root**: call [`build`](Self::build) directly.
/// - **Multiple entry roots with shared deps**: call [`validate_deps`](Self::validate_deps)
///   once, then call [`with_root`](ValidatedDeps::with_root) for each entry point.
#[derive(Debug)]
pub struct DependencyMapBuilder {
    pub deps: Vec<Remapping>,
}

/// Why a path is not that of a directory.
pub open spec fn dir_error(disk: DiskView, path: Seq<Seq<char>>) -> Option<ErrorView> {
    match entry_at(disk, path) {
        None => Some(Error::DependencyPathNotFound(path)),
        Some(entry) => if entry.is_dir {
            None
        } else {
            Some(Error::DependencyNotADirectory(path))
        },
    }
}

/// Why a text cannot be the name of a dependency.
pub open spec fn identifier_error(text: Seq<char>) -> Option<ErrorView> {
    if is_dependency_identifier(text) {
        None
    } else if text == "crate"@ {
        Some(Error::ReservedDependencyKeyword(text))
    } else {
        Some(Error::InvalidDependencyIdentifier(text))
    }
}

/// Why a dependency cannot be added behind the given ones: a path is not that of a directory, the
/// name cannot be that of a dependency, or it is taken in the context.
pub open spec fn dependency_error(
    disk: DiskView,
    earlier: Seq<RemappingView>,
    dep: RemappingView,
) -> Option<ErrorView> {
    match dir_error(disk, dep.context_prefix) {
        Some(e) => Some(e),
        None => match dir_error(disk, dep.target) {
            Some(e) => Some(e),
            None => match identifier_error(dep.drp_name) {
                Some(e) => Some(e),
                None => if exists|i: int|
                    0 <= i < earlier.len() && is_same_alias(#[trigger] earlier[i], dep) {
                    Some(
                        Error::DuplicateDependencyAlias(
                            dep.drp_name,
                            path_text(dep.context_prefix),
                        ),
                    )
                } else {
                    None
                },
            },
        },
    }
}

/// The first error of a list of dependencies.
pub open spec fn dependencies_error(disk: DiskView, deps: Seq<RemappingView>) -> Option<ErrorView>
    decreases deps.len(),
{
    if deps.len() == 0 {
        None
    } else {
        match dependencies_error(disk, deps.drop_last()) {
            Some(e) => Some(e),
            None => dependency_error(disk, deps.drop_last(), deps.last()),
        }
    }
}

/// The targets of dependencies.
pub open spec fn targets(deps: Seq<RemappingView>) -> Seq<Seq<Seq<char>>> {
    Seq::new(deps.len(), |i: int| deps[i].target)
}

/// The first error of a longer list of dependencies is that of a shorter one.
proof fn lemma_first_dependency_error(disk: DiskView, deps: Seq<RemappingView>, n: int)
    requires
        0 <= n <= deps.len(),
    ensures
        dependencies_error(disk, deps.take(n)) is Some ==> dependencies_error(disk, deps)
            == dependencies_error(disk, deps.take(n)),
    decreases deps.len() - n,
{
    if n == deps.len() {
        assert(deps.take(n) =~= deps);
    } else {
        lemma_first_dependency_error(disk, deps, n + 1);
        assert(deps.take(n + 1).drop_last() =~= deps.take(n));
    }
}

impl Clone for DependencyMapBuilder {
    fn clone(&self) -> (result: Self)
        ensures
            remapping_views(result.deps@) == remapping_views(self.deps@),
    {
        let result = DependencyMapBuilder { deps: self.deps.clone() };
        assert(remapping_views(result.deps@) =~= remapping_views(self.deps@));
        result
    }
}

impl Default for DependencyMapBuilder {
    fn default() -> (builder: Self)
        ensures
            remapping_views(builder.deps@) == Seq::<RemappingView>::empty(),
    {
        DependencyMapBuilder::new()
    }
}

impl DependencyMapBuilder {
    /// Create a builder without dependencies.
    pub fn new() -> (builder: DependencyMapBuilder)
        ensures
            remapping_views(builder.deps@) == Seq::<RemappingView>::empty(),
    {
        let builder = DependencyMapBuilder { deps: Vec::new() };
        assert(remapping_views(builder.deps@) =~= Seq::<RemappingView>::empty());
        builder
    }

    /// Add a dependency: inside the directory `context`, the name `alias` stands for the directory
    /// `target`.
    pub fn add_dependency(&mut self, context: CanonPath, alias: String, target: CanonPath) -> (this:
        &mut DependencyMapBuilder)
        ensures
            remapping_views(this.deps@) == remapping_views(old(self).deps@).push(
                Remapping { context_prefix: context@, drp_name: alias@, target: target@ },
            ),
            *final(self) == *final(this),
    {
        self.deps.push(Remapping { context_prefix: context, drp_name: alias, target });
        assert(remapping_views(self.deps@) =~= remapping_views(old(self).deps@).push(
            Remapping { context_prefix: context@, drp_name: alias@, target: target@ },
        ));
        self
    }

    /// Validates and freezes all dependencies into a reusable [`ValidatedDeps`].
    ///
    /// Performs all checks and sorting exactly once.
    /// The result can then be combined with any number of entry roots via
    /// [`ValidatedDeps::with_root`] without repeating this work.
    ///
    /// ## Errors
    ///
    /// * [`Error::DependencyPathNotFound`] A path does not exist.
    /// * [`Error::DependencyNotADirectory`] A path is not that of a directory.
    /// * [`Error::ReservedDependencyKeyword`] A dependency is called `crate`.
    /// * [`Error::InvalidDependencyIdentifier`] The name of a dependency is no identifier.
    /// * [`Error::DuplicateDependencyAlias`] Two dependencies of a context have the same name.
    pub fn validate_deps(self, disk: &Disk) -> (result: Result<ValidatedDeps, Error>)
        ensures
            ({
                let deps = remapping_views(self.deps@);
                match result {
                    Ok(validated) => {
                        &&& dependencies_error(disk@, deps) is None
                        &&& validated.wf()
                        &&& remapping_views(validated.remappings@).to_multiset()
                            == deps.to_multiset()
                        &&& path_views(validated.dep_roots@).to_set() == targets(deps).to_set()
                    },
                    Err(e) => dependencies_error(disk@, deps) == Some(e@),
                }
            }),
    {
        let ghost all = remapping_views(self.deps@);
        let mut dep_roots: Vec<CanonPath> = Vec::new();
        let mut remappings: Vec<Remapping> = Vec::new();
        let mut i: usize = 0;
        proof {
            assert(all.take(0) =~= Seq::empty());
            assert(remapping_views(remappings@) =~= Seq::empty());
            assert(path_views(dep_roots@) =~= Seq::empty());
            assert(targets(all.take(0)) =~= Seq::empty());
        }
        while i < self.deps.len()
            invariant
                i <= self.deps.len(),
                all == remapping_views(self.deps@),
                dependencies_error(disk@, all.take(i as int)) is None,
                are_sorted_remappings(remapping_views(remappings@)),
                are_sorted_roots(path_views(dep_roots@)),
                remapping_views(remappings@).to_multiset() == all.take(i as int).to_multiset(),
                path_views(dep_roots@).to_set() == targets(all.take(i as int)).to_set(),
            decreases self.deps.len() - i,
        {
            let dep = &self.deps[i];
            proof {
                assert(all.take(i + 1).drop_last() =~= all.take(i as int));
                assert(all.take(i + 1).last() == dep@);
                lemma_first_dependency_error(disk@, all, i + 1);
            }
            DependencyMapBuilder::validate_dir(&dep.context_prefix, disk)?;
            DependencyMapBuilder::validate_dir(&dep.target, disk)?;
            DependencyMapBuilder::validate_dependency_identifier(dep.drp_name.as_str())?;
            if self.is_taken(i) {
                return Err(
                    Error::DuplicateDependencyAlias(
                        dep.drp_name.clone(),
                        dep.context_prefix.path.to_text(),
                    ),
                );
            }
            proof {
                lemma_untaken(all.take(i as int), remapping_views(remappings@), dep@);
                assert forall|j: int| 0 <= j < remappings@.len() implies !is_same_alias(
                    (#[trigger] remappings@[j])@,
                    dep@,
                ) by {
                    assert(remapping_views(remappings@)[j] == remappings@[j]@);
                }
                assert(all.take(i + 1) =~= all.take(i as int).push(dep@));
                vstd::seq_lib::to_multiset_build(all.take(i as int), dep@);
                assert(targets(all.take(i + 1)) =~= targets(all.take(i as int)).push(dep@.target));
                lemma_insert_to_set(
                    targets(all.take(i as int)),
                    i as int,
                    dep@.target,
                );
                assert(targets(all.take(i as int)).push(dep@.target) =~= targets(
                    all.take(i as int),
                ).insert(i as int, dep@.target));
            }
            insert_root(&mut dep_roots, dep.target.clone());
            insert_remapping(&mut remappings, dep.clone());
            i = i + 1;
        }
        assert(all.take(i as int) =~= all);
        Ok(ValidatedDeps { remappings, dep_roots })
    }

    /// Check whether the name of a dependency is taken by an earlier one of the same context.
    fn is_taken(&self, n: usize) -> (result: bool)
        requires
            n < self.deps.len(),
        ensures
            ({
                let all = remapping_views(self.deps@);
                let earlier = all.take(n as int);
                result == exists|i: int|
                    0 <= i < earlier.len() && is_same_alias(#[trigger] earlier[i], all[n as int])
            }),
    {
        let ghost all = remapping_views(self.deps@);
        let ghost earlier = all.take(n as int);
        let mut i: usize = 0;
        while i < n
            invariant
                i <= n < self.deps.len(),
                all == remapping_views(self.deps@),
                earlier == all.take(n as int),
                forall|j: int| 0 <= j < i ==> !is_same_alias(#[trigger] earlier[j], all[n as int]),
            decreases n - i,
        {
            assert(earlier[i as int] == self.deps@[i as int]@);
            if self.deps[i].context_prefix.path.same(&self.deps[n].context_prefix.path)
                && self.deps[i].drp_name == self.deps[n].drp_name {
                assert(is_same_alias(earlier[i as int], all[n as int]));
                return true;
            }
            i = i + 1;
        }
        false
    }

    /// Convenience method for single-root use cases
    pub fn build(self, entry_root: CanonPath, disk: &Disk) -> (result: Result<DependencyMap, Error>)
        ensures
            ({
                let deps = remapping_views(self.deps@);
                match result {
                    Ok(map) => {
                        &&& dependencies_error(disk@, deps) is None
                        &&& dir_error(disk@, entry_root@) is None
                        &&& map@.wf()
                        &&& map@.remappings.to_multiset() == deps.to_multiset()
                        &&& map@.package_roots.to_set() == targets(deps).to_set().insert(
                            entry_root@,
                        )
                    },
                    Err(e) => match dependencies_error(disk@, deps) {
                        Some(expected) => e@ == expected,
                        None => dir_error(disk@, entry_root@) == Some(e@),
                    },
                }
            }),
    {
        self.validate_deps(disk)?.with_root(entry_root, disk)
    }

    /// Check that a path is that of a directory.
    ///
    /// ## Errors
    ///
    /// * [`Error::DependencyPathNotFound`] The path does not exist.
    /// * [`Error::DependencyNotADirectory`] The path is not that of a directory.
    pub fn validate_dir(path: &CanonPath, disk: &Disk) -> (result: Result<(), Error>)
        ensures
            match result {
                Ok(_) => dir_error(disk@, path@) is None,
                Err(e) => dir_error(disk@, path@) == Some(e@),
            },
    {
        match disk.find(path.as_path()) {
            None => Err(Error::DependencyPathNotFound(path.path.clone())),
            Some(entry) => {
                if entry.is_dir {
                    Ok(())
                } else {
                    Err(Error::DependencyNotADirectory(path.path.clone()))
                }
            },
        }
    }

    /// Check that a text can be the name of a dependency.
    ///
    /// ## Errors
    ///
    /// * [`Error::ReservedDependencyKeyword`] The text is `crate`.
    /// * [`Error::InvalidDependencyIdentifier`] The text is no identifier, or another keyword.
    pub fn validate_dependency_identifier(alias: &str) -> (result: Result<(), Error>)
        ensures
            match result {
                Ok(_) => identifier_error(alias@) is None,
                Err(e) => identifier_error(alias@) == Some(e@),
            },
    {
        if is_valid_dependency_identifier(alias) {
            return Ok(());
        }
        if alias.to_owned() == "crate".to_owned() {
            Err(Error::ReservedDependencyKeyword(alias.to_owned()))
        } else {
            Err(Error::InvalidDependencyIdentifier(alias.to_owned()))
        }
    }
}

/// A name that no dependency has is not taken among the same dependencies in another order.
proof fn lemma_untaken(list: Seq<RemappingView>, sorted: Seq<RemappingView>, dep: RemappingView)
    requires
        list.to_multiset() == sorted.to_multiset(),
        forall|i: int| 0 <= i < list.len() ==> !is_same_alias(#[trigger] list[i], dep),
    ensures
        forall|i: int| 0 <= i < sorted.len() ==> !is_same_alias(#[trigger] sorted[i], dep),
{
    assert forall|i: int| 0 <= i < sorted.len() implies !is_same_alias(
        #[trigger] sorted[i],
        dep,
    ) by {
        vstd::seq_lib::to_multiset_contains(sorted, sorted[i]);
        vstd::seq_lib::to_multiset_contains(list, sorted[i]);
        assert(sorted.contains(sorted[i]));
        assert(list.contains(sorted[i]));
        let j = choose|j: int| 0 <= j < list.len() && list[j] == sorted[i];
        assert(!is_same_alias(list[j], dep));
    }
}

impl ValidatedDeps {
    /// Attaches a new entry root and produces a [`DependencyMap`].
    ///
    /// Only validates the root directory: all dependency checks were done once
    /// in [`DependencyMapBuilder::validate_deps`] and are not repeated here.
    ///
    /// ## Errors
    ///
    /// * [`Error::DependencyPathNotFound`] The entry root does not exist.
    /// * [`Error::DependencyNotADirectory`] The entry root is not a directory.
    pub fn with_root(&self, entry_root: CanonPath, disk: &Disk) -> (result: Result<
        DependencyMap,
        Error,
    >)
        requires
            self.wf(),
        ensures
            match result {
                Ok(map) => {
                    &&& dir_error(disk@, entry_root@) is None
                    &&& map@.wf()
                    &&& map@.remappings == remapping_views(self.remappings@)
                    &&& map@.package_roots.to_set() == path_views(
                        self.dep_roots@,
                    ).to_set().insert(entry_root@)
                },
                Err(e) => dir_error(disk@, entry_root@) == Some(e@),
            },
    {
        DependencyMapBuilder::validate_dir(&entry_root, disk)?;
        let mut package_roots: Vec<CanonPath> = self.dep_roots.clone();
        assert(path_views(package_roots@) =~= path_views(self.dep_roots@));
        insert_root(&mut package_roots, entry_root);
        let remappings = self.remappings.clone();
        assert(remapping_views(remappings@) =~= remapping_views(self.remappings@));
        Ok(DependencyMap { remappings, package_roots })
    }
}

/// Represents a fully resolved `use` declaration, split into two parts:
/// the physical file on disk and the remaining inline path within it.
///
/// Paths are of type `Path` and lists of names of type `Names`.
///
/// # Example
///
/// ``` md
/// use drp_name::dir1::dir2::simf_file::first_mod::item;
/// //  |______________________________| |______________|
/// //              path                     mod_path
/// ```
#[derive(Debug, PartialEq, Eq)]
pub struct ResolvedUse<Path = CanonPath, Names = Vec<Identifier>> {
    /// The resolved `.simf` file this `use` points to.
    /// Represents the root `crate` directory if this is the root file.
    pub path: Path,
    /// Path segments after the file boundary: inline `mod` names and the final item.
    /// Empty if the `use` points directly to a file-level item.
    pub mod_path: Names,
}

/// What a contract says of a resolved import.
pub type ResolvedUseView = ResolvedUse<Seq<Seq<char>>, Seq<Seq<char>>>;

impl View for ResolvedUse {
    type V = ResolvedUseView;

    open spec fn view(&self) -> ResolvedUseView {
        ResolvedUse { path: self.path@, mod_path: names(self.mod_path@) }
    }
}

impl Clone for ResolvedUse {
    fn clone(&self) -> (result: Self)
        ensures
            result@ == self@,
    {
        let mod_path = self.mod_path.clone();
        assert(names(mod_path@) =~= names(self.mod_path@));
        ResolvedUse { path: self.path.clone(), mod_path }
    }
}

/// The first of the roots that a file is in.
pub open spec fn package_root(roots: Seq<Seq<Seq<char>>>, file: Seq<Seq<char>>) -> Option<
    Seq<Seq<char>>,
>
    decreases roots.len(),
{
    if roots.len() == 0 {
        None
    } else if roots[0].is_prefix_of(file) {
        Some(roots[0])
    } else {
        package_root(roots.drop_first(), file)
    }
}

/// Whether a remapping applies to a name in a file.
pub open spec fn is_applicable(
    remapping: RemappingView,
    file: Seq<Seq<char>>,
    name: Seq<char>,
) -> bool {
    remapping.context_prefix.is_prefix_of(file) && remapping.drp_name == name
}

/// The first remapping that applies to a name in a file.
pub open spec fn applicable(
    list: Seq<RemappingView>,
    file: Seq<Seq<char>>,
    name: Seq<char>,
) -> Option<RemappingView>
    decreases list.len(),
{
    if list.len() == 0 {
        None
    } else if is_applicable(list[0], file, name) {
        Some(list[0])
    } else {
        applicable(list.drop_first(), file, name)
    }
}

/// Where names lead from a directory `path` inside `base`: through directories as far as there
/// are any, and then to a file that is inside `base` too. The remaining names lead to an item
/// inside the file. If there is no such file, the result is the path that it would have.
pub open spec fn located(
    disk: DiskView,
    base: Seq<Seq<char>>,
    path: Seq<Seq<char>>,
    parts: Seq<Seq<char>>,
) -> Result<ResolvedUseView, Seq<Seq<char>>>
    decreases parts.len(),
{
    if parts.len() == 0 {
        Err(path)
    } else {
        let joined = path.push(parts[0]);
        if is_dir(disk, joined) {
            located(disk, base, joined, parts.drop_first())
        } else {
            let candidate = with_extension(joined, "simf"@);
            match entry_at(disk, candidate) {
                None => Err(candidate),
                Some(entry) => if base.is_prefix_of(entry.canonical) {
                    Ok(ResolvedUse { path: entry.canonical, mod_path: parts.drop_first() })
                } else {
                    Err(candidate)
                },
            }
        }
    }
}

impl DependencyMapView {
    /// The root of the package that a file belongs to.
    pub open spec fn package_root(self, file: Seq<Seq<char>>) -> Option<Seq<Seq<char>>> {
        package_root(self.package_roots, file)
    }

    /// Whether two files are known to belong to the same package.
    pub open spec fn is_same_package(self, a: Seq<Seq<char>>, b: Seq<Seq<char>>) -> bool {
        self.package_root(a) is Some && self.package_root(a) == self.package_root(b)
    }

    /// Where an import that starts with the name of a dependency leads.
    pub open spec fn external_use(
        self,
        disk: DiskView,
        remapping: RemappingView,
        file: Seq<Seq<char>>,
        path: Seq<Seq<char>>,
    ) -> Result<ResolvedUseView, ErrorView> {
        match located(disk, remapping.target, remapping.target, path.drop_first()) {
            Err(failed) => Err(Error::ExternalFileNotFound(path[0], failed)),
            Ok(resolved) => if self.is_same_package(file, resolved.path) {
                Err(Error::LocalFileImportedAsExternal(resolved.path))
            } else {
                Ok(resolved)
            },
        }
    }

    /// Where an import that starts with `crate` leads.
    pub open spec fn crate_use(
        self,
        disk: DiskView,
        file: Seq<Seq<char>>,
        path: Seq<Seq<char>>,
    ) -> Result<ResolvedUseView, ErrorView> {
        match self.package_root(file) {
            None => Err(
                Error::Internal("The 'crate' root path was not configured by the compiler."@),
            ),
            Some(root) => match located(disk, root, root, path.drop_first()) {
                Ok(resolved) => Ok(resolved),
                Err(failed) => if parent(file) == Some(root) {
                    Ok(ResolvedUse { path: file, mod_path: path.drop_first() })
                } else {
                    Err(Error::FileNotFound(failed))
                },
            },
        }
    }

    /// Where an import in a file leads.
    pub open spec fn resolved_use(
        self,
        disk: DiskView,
        file: Seq<Seq<char>>,
        path: Seq<Seq<char>>,
    ) -> Result<ResolvedUseView, ErrorView> {
        if path.len() == 0 {
            Err(Error::CannotParse("Missing dependency root path name"@))
        } else if path[0] == "crate"@ {
            self.crate_use(disk, file, path)
        } else {
            match applicable(self.remappings, file, path[0]) {
                None => Err(Error::UnknownLibrary(path[0])),
                Some(remapping) => self.external_use(disk, remapping, file, path),
            }
        }
    }
}

/// Whether the outcome of resolving an import is the expected one, with an error at its place.
pub open spec fn is_resolved(
    result: Result<ResolvedUse, RichError>,
    expected: Result<ResolvedUseView, ErrorView>,
    span: Span,
) -> bool {
    match (result, expected) {
        (Ok(actual), Ok(resolved)) => actual@ == resolved,
        (Err(actual), Err(e)) => actual@ == rich(e, span),
        _ => false,
    }
}

/// The names of a path without the first one.
fn without_first(path: &Vec<Identifier>) -> (result: Vec<Identifier>)
    requires
        path@.len() > 0,
    ensures
        names(result@) == names(path@).drop_first(),
{
    names_from(path, 1)
}

/// The names of a path from a position on.
fn names_from(path: &Vec<Identifier>, start: usize) -> (result: Vec<Identifier>)
    requires
        start <= path@.len(),
    ensures
        names(result@) == names(path@).skip(start as int),
{
    let mut result: Vec<Identifier> = Vec::new();
    let mut i: usize = start;
    while i < path.len()
        invariant
            start <= i <= path.len(),
            names(result@) == names(path@).subrange(start as int, i as int),
        decreases path.len() - i,
    {
        let ghost before = result@;
        result.push(path[i].clone());
        i = i + 1;
        assert(names(result@) =~= names(before).push(names(path@)[i - 1]));
        assert(names(result@) =~= names(path@).subrange(start as int, i as int));
    }
    assert(names(path@).subrange(start as int, i as int) =~= names(path@).skip(start as int));
    result
}

impl DependencyMap {
    /// Returns the package root for the given file, which corresponds to the
    /// target directory of the most specific dependency or the entry root.
    pub fn get_package_root(&self, current_file: &CanonPath) -> (result: Option<&CanonPath>)
        ensures
            match result {
                Some(root) => self@.package_root(current_file@) == Some(root@),
                None => self@.package_root(current_file@) is None,
            },
    {
        let ghost roots = self@.package_roots;
        let mut i: usize = 0;
        assert(roots.skip(0) =~= roots);
        while i < self.package_roots.len()
            invariant
                i <= self.package_roots.len(),
                roots == path_views(self.package_roots@),
                package_root(roots, current_file@) == package_root(
                    roots.skip(i as int),
                    current_file@,
                ),
            decreases self.package_roots.len() - i,
        {
            assert(roots.skip(i as int)[0] == self.package_roots@[i as int]@);
            assert(roots.skip(i as int).drop_first() =~= roots.skip(i + 1));
            if current_file.starts_with(&self.package_roots[i]) {
                return Some(&self.package_roots[i]);
            }
            i = i + 1;
        }
        None
    }

    /// Find the first remapping that applies to a name in a file.
    fn find_remapping(&self, current_file: &CanonPath, drp_name: &str) -> (result: Option<
        &Remapping,
    >)
        ensures
            match result {
                Some(remapping) => applicable(self@.remappings, current_file@, drp_name@) == Some(
                    remapping@,
                ),
                None => applicable(self@.remappings, current_file@, drp_name@) is None,
            },
    {
        let ghost list = self@.remappings;
        let mut i: usize = 0;
        assert(list.skip(0) =~= list);
        while i < self.remappings.len()
            invariant
                i <= self.remappings.len(),
                list == remapping_views(self.remappings@),
                applicable(list, current_file@, drp_name@) == applicable(
                    list.skip(i as int),
                    current_file@,
                    drp_name@,
                ),
            decreases self.remappings.len() - i,
        {
            let remapping = &self.remappings[i];
            assert(list.skip(i as int)[0] == remapping@);
            assert(list.skip(i as int).drop_first() =~= list.skip(i + 1));
            if current_file.starts_with(&remapping.context_prefix) && remapping.drp_name
                == drp_name.to_owned() {
                return Some(remapping);
            }
            i = i + 1;
        }
        None
    }

    /// Resolve `use dependency_root_path_name::...` into a physical file path by finding the
    /// most specific library context that owns the current file.
    ///
    /// ## Errors
    ///
    /// * [`Error::CannotParse`] The import has an empty path.
    /// * [`Error::UnknownLibrary`] There is no dependency of that name.
    /// * [`Error::ExternalFileNotFound`] The dependency has no such file.
    /// * [`Error::LocalFileImportedAsExternal`] The file belongs to the package of the current
    ///   file.
    /// * [`Error::Internal`] The current file belongs to no package.
    /// * [`Error::FileNotFound`] The package of the current file has no such file.
    pub fn resolve_path(
        &self,
        current_file: &CanonPath,
        use_decl: &UseDecl,
        disk: &Disk,
    ) -> (result: Result<CanonPath, RichError>)
        ensures
            match (
                result,
                self@.resolved_use(disk@, current_file@, names(use_decl.path@)),
            ) {
                (Ok(path), Ok(resolved)) => path@ == resolved.path,
                (Err(actual), Err(e)) => actual@ == rich(e, use_decl.span),
                _ => false,
            },
    {
        match self.resolve_path_internal(current_file, use_decl, disk) {
            Ok(resolved) => Ok(resolved.path),
            Err(e) => Err(e),
        }
    }

    /// Resolve an import into a physical file path and the remaining path inside the file.
    ///
    /// The errors are those of [`DependencyMap::resolve_path`].
    pub fn resolve_path_internal(
        &self,
        current_file: &CanonPath,
        use_decl: &UseDecl,
        disk: &Disk,
    ) -> (result: Result<ResolvedUse, RichError>)
        ensures
            is_resolved(
                result,
                self@.resolved_use(disk@, current_file@, names(use_decl.path@)),
                use_decl.span,
            ),
    {
        let drp_name = match use_decl.drp_name() {
            Ok(drp_name) => drp_name,
            Err(e) => {
                return Err(e);
            },
        };
        if drp_name.to_owned() == "crate".to_owned() {
            return self.resolve_crate_path(current_file, use_decl, disk);
        }
        // Because the remappings are sorted by longest prefix, the first match is the right one.
        match self.find_remapping(current_file, drp_name) {
            None => Err(
                RichError::new(Error::UnknownLibrary(drp_name.to_owned()), use_decl.span),
            ),
            Some(remapping) => self.resolve_external_path(
                remapping,
                current_file,
                use_decl,
                disk,
            ),
        }
    }

    /// Resolve an import that starts with the name of a dependency.
    ///
    /// ## Errors
    ///
    /// * [`Error::CannotParse`] The import has an empty path.
    /// * [`Error::ExternalFileNotFound`] The dependency has no such file.
    /// * [`Error::LocalFileImportedAsExternal`] The file belongs to the package of the current
    ///   file.
    pub fn resolve_external_path(
        &self,
        remapping: &Remapping,
        current_file: &CanonPath,
        use_decl: &UseDecl,
        disk: &Disk,
    ) -> (result: Result<ResolvedUse, RichError>)
        ensures
            is_resolved(
                result,
                if use_decl.path@.len() == 0 {
                    Err(Error::CannotParse("Missing dependency root path name"@))
                } else {
                    self@.external_use(disk@, remapping@, current_file@, names(use_decl.path@))
                },
                use_decl.span,
            ),
    {
        let drp_name = match use_decl.drp_name() {
            Ok(drp_name) => drp_name,
            Err(e) => {
                return Err(e);
            },
        };
        let parts_without_drp_name = without_first(&use_decl.path);
        let resolved = match DependencyMap::build_and_verify_path(
            &remapping.target,
            &parts_without_drp_name,
            disk,
        ) {
            Ok(resolved) => resolved,
            Err(failed_path) => {
                return Err(
                    RichError::new(
                        Error::ExternalFileNotFound(drp_name.to_owned(), failed_path),
                        use_decl.span,
                    ),
                );
            },
        };
        match self.check_local_file_imported_as_external(
            current_file,
            &resolved.path,
            &use_decl.span,
        ) {
            Ok(_) => Ok(resolved),
            Err(e) => Err(e),
        }
    }

    /// Resolves `crate::...` imports into a physical file path.
    ///
    /// Attempts physical file resolution first. If that fails and the current file
    /// is at the package root, it falls back to resolving inline items from the main scope.
    ///
    /// ## Errors
    ///
    /// * [`Error::Internal`] The current file belongs to no package.
    /// * [`Error::FileNotFound`] The package of the current file has no such file.
    pub fn resolve_crate_path(
        &self,
        current_file: &CanonPath,
        use_decl: &UseDecl,
        disk: &Disk,
    ) -> (result: Result<ResolvedUse, RichError>)
        requires
            use_decl.path@.len() > 0,
        ensures
            is_resolved(
                result,
                self@.crate_use(disk@, current_file@, names(use_decl.path@)),
                use_decl.span,
            ),
    {
        let root = match self.get_package_root(current_file) {
            Some(root) => root,
            None => {
                return Err(
                    RichError::new(
                        Error::Internal(
                            "The 'crate' root path was not configured by the compiler.".to_owned(),
                        ),
                        use_decl.span,
                    ),
                );
            },
        };
        let parts_without_drp_name = without_first(&use_decl.path);
        let failed_path = match DependencyMap::build_and_verify_path(
            root,
            &parts_without_drp_name,
            disk,
        ) {
            Ok(resolved) => {
                return Ok(resolved);
            },
            Err(path) => path,
        };
        // Fallback: check if the current file sits directly inside the root directory.
        if current_file.path.is_directly_in(&root.path) {
            return Ok(
                ResolvedUse { path: current_file.clone(), mod_path: parts_without_drp_name },
            );
        }
        Err(RichError::new(Error::FileNotFound(failed_path), use_decl.span))
    }

    /// Enforces that a local file is imported via `crate::` and not via an external alias.
    ///
    /// ## Errors
    ///
    /// * [`Error::LocalFileImportedAsExternal`] The files belong to the same package.
    pub fn check_local_file_imported_as_external(
        &self,
        current_file: &CanonPath,
        resolved: &CanonPath,
        use_decl_span: &Span,
    ) -> (result: Result<(), RichError>)
        ensures
            match result {
                Ok(_) => !self@.is_same_package(current_file@, resolved@),
                Err(e) => self@.is_same_package(current_file@, resolved@) && e@ == rich(
                    Error::LocalFileImportedAsExternal(resolved@),
                    *use_decl_span,
                ),
            },
    {
        if let Some(curr) = self.get_package_root(current_file) {
            if let Some(res) = self.get_package_root(resolved) {
                if curr.path.same(&res.path) {
                    return Err(
                        RichError::new(
                            Error::LocalFileImportedAsExternal(resolved.path.clone()),
                            *use_decl_span,
                        ),
                    );
                }
            }
        }
        Ok(())
    }

    /// Walks `module_parts` greedily. Directories first, then the first matching `.simf` file.
    /// Remaining segments after the file boundary are collected as inline `mod_path`.
    ///
    /// # Errors
    ///
    /// Returns the path of the file that is missing, without any additional context.
    /// The caller is responsible for enriching this into a [`RichError`] with the appropriate
    /// span, library name, and any other diagnostic information.
    pub fn build_and_verify_path(
        base_target: &CanonPath,
        module_parts: &Vec<Identifier>,
        disk: &Disk,
    ) -> (result: Result<ResolvedUse, FilePath>)
        ensures
            match (
                result,
                located(disk@, base_target@, base_target@, names(module_parts@)),
            ) {
                (Ok(actual), Ok(resolved)) => actual@ == resolved,
                (Err(actual), Err(path)) => actual@ == path,
                _ => false,
            },
    {
        let ghost parts = names(module_parts@);
        let mut path: FilePath = base_target.path.clone();
        let mut i: usize = 0;
        assert(parts.skip(0) =~= parts);
        while i < module_parts.len()
            invariant
                i <= module_parts.len(),
                parts == names(module_parts@),
                located(disk@, base_target@, base_target@, parts) == located(
                    disk@,
                    base_target@,
                    path@,
                    parts.skip(i as int),
                ),
            decreases module_parts.len() - i,
        {
            assert(parts.skip(i as int)[0] == module_parts@[i as int]@);
            assert(parts.skip(i as int).drop_first() =~= parts.skip(i + 1));
            let joined = path.join(module_parts[i].as_inner());
            i = i + 1;
            if disk.is_dir(&joined) {
                path = joined;
            } else {
                let file_candidate = joined.with_extension("simf");
                let resolved = match disk.find(&file_candidate) {
                    Some(entry) => entry.canonical.clone(),
                    None => {
                        return Err(file_candidate);
                    },
                };
                if !resolved.starts_with(base_target) {
                    return Err(file_candidate);
                }
                return Ok(
                    ResolvedUse { path: resolved, mod_path: names_from(module_parts, i) },
                );
            }
        }
        Err(path)
    }
}

/// The paths that are looked at to find out where names lead from a directory: for each number
/// of names the path that they lead to, and that of the file of that name.
pub open spec fn probed(base: Seq<Seq<char>>, parts: Seq<Seq<char>>) -> Seq<Seq<Seq<char>>>
    decreases parts.len(),
{
    if parts.len() == 0 {
        Seq::empty()
    } else {
        probed(base, parts.drop_last()).push(base + parts).push(
            with_extension(base + parts, "simf"@),
        )
    }
}

impl DependencyMapView {
    /// The paths that are looked at to find out where an import leads.
    pub open spec fn probes(self, file: Seq<Seq<char>>, path: Seq<Seq<char>>) -> Seq<
        Seq<Seq<char>>,
    > {
        if path.len() == 0 {
            Seq::empty()
        } else if path[0] == "crate"@ {
            match self.package_root(file) {
                None => Seq::empty(),
                Some(root) => probed(root, path.drop_first()),
            }
        } else {
            match applicable(self.remappings, file, path[0]) {
                None => Seq::empty(),
                Some(remapping) => probed(remapping.target, path.drop_first()),
            }
        }
    }
}

/// What a contract says of paths that may hold symbolic links.
pub open spec fn file_views(list: Seq<FilePath>) -> Seq<Seq<Seq<char>>> {
    Seq::new(list.len(), |i: int| list[i]@)
}

/// The paths that are looked at to find out where names lead from a directory.
fn probe(base: &CanonPath, parts: &Vec<Identifier>) -> (result: Vec<FilePath>)
    ensures
        file_views(result@) == probed(base@, names(parts@)),
{
    let ghost all = names(parts@);
    let mut result: Vec<FilePath> = Vec::new();
    let mut path: FilePath = base.path.clone();
    let mut i: usize = 0;
    proof {
        assert(all.take(0) =~= Seq::empty());
        assert(file_views(result@) =~= Seq::empty());
        assert(base@ + all.take(0) =~= base@);
    }
    while i < parts.len()
        invariant
            i <= parts.len(),
            all == names(parts@),
            path@ == base@ + all.take(i as int),
            file_views(result@) == probed(base@, all.take(i as int)),
        decreases parts.len() - i,
    {
        let ghost before = result@;
        path = path.join(parts[i].as_inner());
        i = i + 1;
        proof {
            assert(all.take(i as int).drop_last() =~= all.take(i - 1));
            assert(path@ =~= base@ + all.take(i as int));
        }
        result.push(path.clone());
        result.push(path.with_extension("simf"));
        assert(file_views(result@) =~= file_views(before).push(path@).push(
            with_extension(path@, "simf"@),
        ));
    }
    assert(all.take(i as int) =~= all);
    result
}

impl DependencyMap {
    /// The paths that have to be looked at on disk to resolve an import.
    pub fn probes(&self, current_file: &CanonPath, use_decl: &UseDecl) -> (result: Vec<FilePath>)
        ensures
            file_views(result@) == self@.probes(current_file@, names(use_decl.path@)),
    {
        if use_decl.path.len() == 0 {
            let result: Vec<FilePath> = Vec::new();
            assert(file_views(result@) =~= Seq::empty());
            return result;
        }
        let base: Option<&CanonPath> = if use_decl.path[0].is("crate") {
            self.get_package_root(current_file)
        } else {
            match self.find_remapping(current_file, use_decl.path[0].as_inner()) {
                Some(remapping) => Some(&remapping.target),
                None => None,
            }
        };
        match base {
            Some(base) => probe(base, &without_first(&use_decl.path)),
            None => {
                let result: Vec<FilePath> = Vec::new();
                assert(file_views(result@) =~= Seq::empty());
                result
            },
        }
    }
}

} // verus!
