//! What holds of the resolution of imports.
use super::{
    applicable, dependencies_error, dir_error, identifier_error, is_applicable,
    is_dependency_identifier, is_identifier_char, is_letter, is_same_alias, located, package_root,
    probed, remapping_before, root_before, DependencyMapView, RemappingView,
};
use crate::disk::{entry_at, DiskView};
use crate::error::ErrorView;
use crate::lexer::is_keyword_text;
use crate::order::{lemma_irreflexive, lemma_path_irreflexive};
use crate::path::{byte_len, is_root, names_len, parent, with_extension};
use crate::position::{lemma_utf8_len, utf8_len};
use vstd::prelude::*;
use vstd::utf8::encode_utf8;

verus! {

/// Whether no name in a path is empty but that of the root.
pub open spec fn has_names(path: Seq<Seq<char>>) -> bool {
    forall|i: int| 1 <= i < path.len() ==> #[trigger] path[i].len() > 0
}

/// A directory has a shorter path than what is in it.
proof fn lemma_byte_len(path: Seq<Seq<char>>, n: int)
    requires
        has_names(path),
        0 <= n < path.len(),
    ensures
        byte_len(path.take(n)) < byte_len(path),
    decreases path.len(),
{
    lemma_utf8_len(path.last());
    let shorter = path.drop_last();
    if path.len() > 1 {
        assert(path[path.len() - 1].len() > 0);
        assert(utf8_len(path.last()) > 0);
        assert(is_root(shorter) ==> names_len(shorter) == encode_utf8(path[0]).len());
        if n < shorter.len() {
            lemma_byte_len(shorter, n);
            assert(shorter.take(n) =~= path.take(n));
        } else {
            assert(path.take(n) =~= shorter);
        }
    } else {
        assert(path.take(n) =~= Seq::empty());
        assert(path[0] == path.last());
        if path[0].len() == 0 {
            reveal_strlit("");
            assert(path[0] =~= ""@);
        }
    }
}

/// Of two directories that a file is in, that with the longer path is in the other one.
proof fn lemma_nested(file: Seq<Seq<char>>, inner: Seq<Seq<char>>, outer: Seq<Seq<char>>)
    requires
        has_names(file),
        inner.is_prefix_of(file),
        outer.is_prefix_of(file),
        byte_len(inner) >= byte_len(outer),
    ensures
        outer.is_prefix_of(inner),
{
    if outer.len() > inner.len() {
        assert(inner =~= outer.take(inner.len() as int));
        lemma_byte_len(outer, inner.len() as int);
    }
    assert(outer =~= inner.subrange(0, outer.len() as int));
}

/// The first root that a file is in is one of the roots, and the file is in none of those in front
/// of it.
proof fn lemma_package_root(roots: Seq<Seq<Seq<char>>>, file: Seq<Seq<char>>)
    ensures
        match package_root(roots, file) {
            Some(root) => exists|i: int|
                0 <= i < roots.len() && roots[i] == root && root.is_prefix_of(file) && forall|j: int|
                    0 <= j < i ==> !(#[trigger] roots[j]).is_prefix_of(file),
            None => forall|j: int|
                0 <= j < roots.len() ==> !(#[trigger] roots[j]).is_prefix_of(file),
        },
    decreases roots.len(),
{
    if roots.len() > 0 && !roots[0].is_prefix_of(file) {
        let rest = roots.drop_first();
        lemma_package_root(rest, file);
        match package_root(rest, file) {
            Some(root) => {
                let i = choose|i: int|
                    0 <= i < rest.len() && rest[i] == root && root.is_prefix_of(file) && forall|
                        j: int,
                    |
                        0 <= j < i ==> !(#[trigger] rest[j]).is_prefix_of(file);
                assert forall|j: int| 0 <= j < i + 1 implies !(
                #[trigger] roots[j]).is_prefix_of(file) by {
                    if j > 0 {
                        assert(rest[j - 1] == roots[j]);
                    }
                }
                assert(roots[i + 1] == root);
            },
            None => {
                assert forall|j: int| 0 <= j < roots.len() implies !(
                #[trigger] roots[j]).is_prefix_of(file) by {
                    if j > 0 {
                        assert(rest[j - 1] == roots[j]);
                    }
                }
            },
        }
    }
}

/// The first remapping that applies is one of the remappings, and none of those in front of it
/// applies.
proof fn lemma_applicable(list: Seq<RemappingView>, file: Seq<Seq<char>>, name: Seq<char>)
    ensures
        match applicable(list, file, name) {
            Some(remapping) => exists|i: int|
                0 <= i < list.len() && list[i] == remapping && is_applicable(remapping, file, name)
                    && forall|j: int| 0 <= j < i ==> !is_applicable(#[trigger] list[j], file, name),
            None => forall|j: int|
                0 <= j < list.len() ==> !is_applicable(#[trigger] list[j], file, name),
        },
    decreases list.len(),
{
    if list.len() > 0 && !is_applicable(list[0], file, name) {
        let rest = list.drop_first();
        lemma_applicable(rest, file, name);
        match applicable(rest, file, name) {
            Some(remapping) => {
                let i = choose|i: int|
                    0 <= i < rest.len() && rest[i] == remapping && is_applicable(
                        remapping,
                        file,
                        name,
                    ) && forall|j: int|
                        0 <= j < i ==> !is_applicable(#[trigger] rest[j], file, name);
                assert forall|j: int| 0 <= j < i + 1 implies !is_applicable(
                    #[trigger] list[j],
                    file,
                    name,
                ) by {
                    if j > 0 {
                        assert(rest[j - 1] == list[j]);
                    }
                }
                assert(list[i + 1] == remapping);
            },
            None => {
                assert forall|j: int| 0 <= j < list.len() implies !is_applicable(
                    #[trigger] list[j],
                    file,
                    name,
                ) by {
                    if j > 0 {
                        assert(rest[j - 1] == list[j]);
                    }
                }
            },
        }
    }
}

/// A file belongs to the package with the closest root: there is such a package if and only if
/// there is a root that the file is in, and all such roots contain the closest one.
pub proof fn closest_package_root(map: DependencyMapView, file: Seq<Seq<char>>)
    requires
        map.wf(),
        has_names(file),
    ensures
        match map.package_root(file) {
            Some(root) => {
                &&& map.package_roots.contains(root)
                &&& root.is_prefix_of(file)
                &&& forall|i: int|
                    0 <= i < map.package_roots.len()
                        && (#[trigger] map.package_roots[i]).is_prefix_of(file)
                        ==> map.package_roots[i].is_prefix_of(root)
            },
            None => forall|i: int|
                0 <= i < map.package_roots.len()
                    ==> !(#[trigger] map.package_roots[i]).is_prefix_of(file),
        },
{
    let roots = map.package_roots;
    lemma_package_root(roots, file);
    match package_root(roots, file) {
        Some(root) => {
            let i = choose|i: int|
                0 <= i < roots.len() && roots[i] == root && root.is_prefix_of(file) && forall|
                    j: int,
                |
                    0 <= j < i ==> !(#[trigger] roots[j]).is_prefix_of(file);
            assert forall|j: int|
                0 <= j < roots.len() && (#[trigger] roots[j]).is_prefix_of(
                    file,
                ) implies roots[j].is_prefix_of(root) by {
                if j > i {
                    assert(root_before(roots[i], roots[j]));
                }
                lemma_nested(file, root, roots[j]);
            }
        },
        None => {},
    }
}

/// The most specific context wins: the name of a dependency is known in a file if and only if a
/// directory that the file is in defines it, and all such directories contain the one whose
/// definition counts.
pub proof fn most_specific_context_wins(
    map: DependencyMapView,
    file: Seq<Seq<char>>,
    name: Seq<char>,
)
    requires
        map.wf(),
        has_names(file),
    ensures
        match applicable(map.remappings, file, name) {
            Some(remapping) => {
                &&& map.remappings.contains(remapping)
                &&& remapping.drp_name == name
                &&& remapping.context_prefix.is_prefix_of(file)
                &&& forall|i: int|
                    0 <= i < map.remappings.len() && (#[trigger] map.remappings[i]).drp_name == name
                        && map.remappings[i].context_prefix.is_prefix_of(file)
                        ==> map.remappings[i].context_prefix.is_prefix_of(remapping.context_prefix)
            },
            None => forall|i: int|
                0 <= i < map.remappings.len() ==> (#[trigger] map.remappings[i]).drp_name != name
                    || !map.remappings[i].context_prefix.is_prefix_of(file),
        },
{
    let list = map.remappings;
    lemma_applicable(list, file, name);
    match applicable(list, file, name) {
        Some(remapping) => {
            let i = choose|i: int|
                0 <= i < list.len() && list[i] == remapping && is_applicable(remapping, file, name)
                    && forall|j: int| 0 <= j < i ==> !is_applicable(#[trigger] list[j], file, name);
            assert forall|j: int|
                0 <= j < list.len() && is_applicable(
                    #[trigger] list[j],
                    file,
                    name,
                ) implies list[j].context_prefix.is_prefix_of(remapping.context_prefix) by {
                if j > i {
                    assert(remapping_before(list[i], list[j]));
                }
                lemma_nested(file, remapping.context_prefix, list[j].context_prefix);
            }
        },
        None => {},
    }
}

/// A file that names lead to is inside the directory that they start from, and the names of the
/// import end with those that lead to the item inside the file.
proof fn lemma_located(
    disk: DiskView,
    base: Seq<Seq<char>>,
    path: Seq<Seq<char>>,
    parts: Seq<Seq<char>>,
)
    ensures
        match located(disk, base, path, parts) {
            Ok(resolved) => base.is_prefix_of(resolved.path) && resolved.mod_path.len()
                < parts.len() && resolved.mod_path.is_suffix_of(parts),
            Err(_) => true,
        },
    decreases parts.len(),
{
    if parts.len() > 0 {
        let joined = path.push(parts[0]);
        let rest = parts.drop_first();
        lemma_located(disk, base, joined, rest);
        match located(disk, base, path, parts) {
            Ok(resolved) => {
                if resolved.mod_path.is_suffix_of(rest) {
                    assert(resolved.mod_path =~= parts.subrange(
                        parts.len() - resolved.mod_path.len(),
                        parts.len() as int,
                    ));
                }
                assert(rest =~= parts.subrange(1, parts.len() as int));
            },
            Err(_) => {},
        }
    }
}

/// An import never leaves the package that it names. An import that starts with `crate` leads into
/// the package of the importing file; one that starts with the name of a dependency leads into the
/// directory of the dependency, and not into the package of the importing file.
pub proof fn import_stays_in_package(
    map: DependencyMapView,
    disk: DiskView,
    file: Seq<Seq<char>>,
    path: Seq<Seq<char>>,
)
    ensures
        match map.resolved_use(disk, file, path) {
            Ok(resolved) => if path[0] == "crate"@ {
                match map.package_root(file) {
                    Some(root) => root.is_prefix_of(resolved.path),
                    None => false,
                }
            } else {
                match applicable(map.remappings, file, path[0]) {
                    Some(remapping) => remapping.target.is_prefix_of(resolved.path) && (
                    map.package_root(file) is None || map.package_root(file) != map.package_root(
                        resolved.path,
                    )),
                    None => false,
                }
            },
            Err(_) => true,
        },
{
    if path.len() > 0 {
        if path[0] == "crate"@ {
            lemma_package_root(map.package_roots, file);
            if let Some(root) = map.package_root(file) {
                lemma_located(disk, root, root, path.drop_first());
                if parent(file) == Some(root) {
                    assert(root =~= file.subrange(0, root.len() as int));
                }
            }
        } else if let Some(remapping) = applicable(map.remappings, file, path[0]) {
            lemma_located(disk, remapping.target, remapping.target, path.drop_first());
        }
    }
}

/// The names that an import has behind the file that it leads to are the last ones of its path.
pub proof fn import_keeps_remaining_names(
    map: DependencyMapView,
    disk: DiskView,
    file: Seq<Seq<char>>,
    path: Seq<Seq<char>>,
)
    ensures
        match map.resolved_use(disk, file, path) {
            Ok(resolved) => resolved.mod_path.len() < path.len() && resolved.mod_path.is_suffix_of(
                path,
            ),
            Err(_) => true,
        },
{
    if path.len() > 0 {
        let parts = path.drop_first();
        assert(parts =~= path.subrange(1, path.len() as int));
        if path[0] == "crate"@ {
            if let Some(root) = map.package_root(file) {
                lemma_located(disk, root, root, parts);
            }
        } else if let Some(remapping) = applicable(map.remappings, file, path[0]) {
            lemma_located(disk, remapping.target, remapping.target, parts);
        }
        match map.resolved_use(disk, file, path) {
            Ok(resolved) => {
                if resolved.mod_path.is_suffix_of(parts) {
                    assert(resolved.mod_path =~= path.subrange(
                        path.len() - resolved.mod_path.len(),
                        path.len() as int,
                    ));
                }
            },
            Err(_) => {},
        }
    }
}

/// The paths that are looked at for some of the names are looked at for all of them.
proof fn lemma_probed(base: Seq<Seq<char>>, parts: Seq<Seq<char>>, n: int)
    requires
        0 < n <= parts.len(),
    ensures
        probed(base, parts).contains(base + parts.take(n)),
        probed(base, parts).contains(with_extension(base + parts.take(n), "simf"@)),
    decreases parts.len(),
{
    let list = probed(base, parts);
    if n == parts.len() {
        assert(parts.take(n) =~= parts);
        assert(list[list.len() - 2] == base + parts);
        assert(list[list.len() - 1] == with_extension(base + parts, "simf"@));
    } else {
        let shorter = probed(base, parts.drop_last());
        lemma_probed(base, parts.drop_last(), n);
        assert(parts.drop_last().take(n) =~= parts.take(n));
        let dir = base + parts.take(n);
        let file = with_extension(dir, "simf"@);
        let i = choose|i: int| 0 <= i < shorter.len() && shorter[i] == dir;
        let j = choose|j: int| 0 <= j < shorter.len() && shorter[j] == file;
        assert(list[i] == dir);
        assert(list[j] == file);
    }
}

/// Whether there is the same on two disks at all the given paths.
pub open spec fn agree(a: DiskView, b: DiskView, paths: Seq<Seq<Seq<char>>>) -> bool {
    forall|path: Seq<Seq<char>>| #[trigger]
        paths.contains(path) ==> entry_at(a, path) == entry_at(b, path)
}

/// Where names lead is found out from the paths that are looked at.
proof fn lemma_located_agree(
    a: DiskView,
    b: DiskView,
    base: Seq<Seq<char>>,
    parts: Seq<Seq<char>>,
    n: int,
)
    requires
        agree(a, b, probed(base, parts)),
        0 <= n <= parts.len(),
    ensures
        located(a, base, base + parts.take(n), parts.skip(n)) == located(
            b,
            base,
            base + parts.take(n),
            parts.skip(n),
        ),
    decreases parts.len() - n,
{
    if n < parts.len() {
        lemma_probed(base, parts, n + 1);
        lemma_located_agree(a, b, base, parts, n + 1);
        assert(parts.skip(n)[0] == parts[n]);
        assert(parts.skip(n).drop_first() =~= parts.skip(n + 1));
        assert((base + parts.take(n)).push(parts[n]) =~= base + parts.take(n + 1));
    }
}

/// Where an import leads depends only on what exists at the paths that are looked at.
pub proof fn resolution_reads_probes(
    map: DependencyMapView,
    a: DiskView,
    b: DiskView,
    file: Seq<Seq<char>>,
    path: Seq<Seq<char>>,
)
    requires
        agree(a, b, map.probes(file, path)),
    ensures
        map.resolved_use(a, file, path) == map.resolved_use(b, file, path),
{
    if path.len() > 0 {
        let parts = path.drop_first();
        assert(parts.skip(0) =~= parts);
        if path[0] == "crate"@ {
            if let Some(root) = map.package_root(file) {
                lemma_located_agree(a, b, root, parts, 0);
                assert(root + parts.take(0) =~= root);
            }
        } else if let Some(remapping) = applicable(map.remappings, file, path[0]) {
            lemma_located_agree(a, b, remapping.target, parts, 0);
            assert(remapping.target + parts.take(0) =~= remapping.target);
        }
    }
}

/// Whether dependencies are valid depends only on what exists at their directories.
pub proof fn validation_reads_directories(a: DiskView, b: DiskView, deps: Seq<RemappingView>)
    requires
        forall|i: int|
            0 <= i < deps.len() ==> dir_error(a, (#[trigger] deps[i]).context_prefix) == dir_error(
                b,
                deps[i].context_prefix,
            ) && dir_error(a, deps[i].target) == dir_error(b, deps[i].target),
    ensures
        dependencies_error(a, deps) == dependencies_error(b, deps),
    decreases deps.len(),
{
    if deps.len() > 0 {
        let shorter = deps.drop_last();
        assert forall|i: int| 0 <= i < shorter.len() implies dir_error(
            a,
            (#[trigger] shorter[i]).context_prefix,
        ) == dir_error(b, shorter[i].context_prefix) && dir_error(a, shorter[i].target)
            == dir_error(b, shorter[i].target) by {
            assert(shorter[i] == deps[i]);
        }
        validation_reads_directories(a, b, shorter);
        assert(deps.last() == deps[deps.len() - 1]);
    }
}

/// Whether a text is made of ASCII letters, digits and underscores, does not start with a digit,
/// and is none of the words that mean something else in a program.
pub open spec fn can_be_imported_as(text: Seq<char>) -> bool {
    &&& text.len() > 0
    &&& !('0' <= text[0] <= '9')
    &&& forall|i: int|
        0 <= i < text.len() ==> {
            let c = #[trigger] text[i];
            'a' <= c <= 'z' || 'A' <= c <= 'Z' || '0' <= c <= '9' || c == '_'
        }
    &&& !seq![
        "as"@,
        "const"@,
        "crate"@,
        "false"@,
        "fn"@,
        "let"@,
        "match"@,
        "mod"@,
        "pub"@,
        "true"@,
        "type"@,
        "use"@,
    ].contains(text)
}

/// A text can be the name of a dependency if and only if it is an identifier and no keyword. Of the
/// other texts, `crate` is reported as reserved and all others as invalid.
pub proof fn identifiers_are_no_keywords(text: Seq<char>)
    ensures
        is_dependency_identifier(text) <==> can_be_imported_as(text),
        can_be_imported_as(text) ==> identifier_error(text) is None,
        text == "crate"@ ==> identifier_error(text) == Some(
            ErrorView::ReservedDependencyKeyword(text),
        ),
        !can_be_imported_as(text) && text != "crate"@ ==> identifier_error(text) == Some(
            ErrorView::InvalidDependencyIdentifier(text),
        ),
{
    let words = seq![
        "as"@,
        "const"@,
        "crate"@,
        "false"@,
        "fn"@,
        "let"@,
        "match"@,
        "mod"@,
        "pub"@,
        "true"@,
        "type"@,
        "use"@,
    ];
    assert(is_keyword_text(text) ==> words.contains(text)) by {
        assert(words[0] == "as"@);
        assert(words[1] == "const"@);
        assert(words[2] == "crate"@);
        assert(words[3] == "false"@);
        assert(words[4] == "fn"@);
        assert(words[5] == "let"@);
        assert(words[6] == "match"@);
        assert(words[7] == "mod"@);
        assert(words[8] == "pub"@);
        assert(words[9] == "true"@);
        assert(words[10] == "type"@);
        assert(words[11] == "use"@);
    }
    if text.len() > 0 {
        assert(is_identifier_char(text[0]) ==> is_letter(text[0]) || text[0] == '_' || '0'
            <= text[0] <= '9');
    }
    if can_be_imported_as(text) {
        assert forall|i: int| 0 <= i < text.len() implies is_identifier_char(
            #[trigger] text[i],
        ) by {}
    }
    if is_dependency_identifier(text) {
        assert forall|i: int| 0 <= i < text.len() implies {
            let c = #[trigger] text[i];
            'a' <= c <= 'z' || 'A' <= c <= 'Z' || '0' <= c <= '9' || c == '_'
        } by {
            assert(is_identifier_char(text[i]));
        }
    }
}

/// Dependencies are valid if and only if the directories of their contexts and of their targets
/// exist, their names are identifiers and no keywords, and no two of them have the same name in the
/// same context.
pub proof fn valid_dependencies(disk: DiskView, deps: Seq<RemappingView>)
    ensures
        dependencies_error(disk, deps) is None <==> {
            &&& forall|i: int|
                0 <= i < deps.len() ==> {
                    let dep = #[trigger] deps[i];
                    &&& entry_at(disk, dep.context_prefix) matches Some(entry) && entry.is_dir
                    &&& entry_at(disk, dep.target) matches Some(entry) && entry.is_dir
                    &&& can_be_imported_as(dep.drp_name)
                }
            &&& forall|i: int, j: int|
                0 <= i < j < deps.len() ==> (#[trigger] deps[i]).context_prefix != (
                #[trigger] deps[j]).context_prefix || deps[i].drp_name != deps[j].drp_name
        },
    decreases deps.len(),
{
    if deps.len() > 0 {
        let shorter = deps.drop_last();
        let last = deps.last();
        valid_dependencies(disk, shorter);
        identifiers_are_no_keywords(last.drp_name);
        assert(deps[deps.len() - 1] == last);
        assert forall|i: int| 0 <= i < shorter.len() implies #[trigger] shorter[i] == deps[i] by {}
        if dependencies_error(disk, deps) is None {
            assert forall|i: int, j: int| 0 <= i < j < deps.len() implies (
            #[trigger] deps[i]).context_prefix != (#[trigger] deps[j]).context_prefix
                || deps[i].drp_name != deps[j].drp_name by {
                if j == shorter.len() {
                    assert(!is_same_alias(shorter[i], last));
                } else {
                    assert(shorter[i] == deps[i]);
                    assert(shorter[j] == deps[j]);
                }
            }
            assert forall|i: int| 0 <= i < deps.len() implies {
                let dep = #[trigger] deps[i];
                &&& entry_at(disk, dep.context_prefix) matches Some(entry) && entry.is_dir
                &&& entry_at(disk, dep.target) matches Some(entry) && entry.is_dir
                &&& can_be_imported_as(dep.drp_name)
            } by {
                if i < shorter.len() {
                    assert(shorter[i] == deps[i]);
                }
            }
        } else if dependencies_error(disk, shorter) is None {
            if exists|i: int| 0 <= i < shorter.len() && is_same_alias(#[trigger] shorter[i], last) {
                let i = choose|i: int|
                    0 <= i < shorter.len() && is_same_alias(#[trigger] shorter[i], last);
                assert(deps[i] == shorter[i]);
            }
        }
    }
}

/// A dependency map has no package root twice, and no two dependencies of the same name in the
/// same context.
pub proof fn map_has_no_duplicates(map: DependencyMapView)
    requires
        map.wf(),
    ensures
        map.package_roots.no_duplicates(),
        forall|i: int, j: int|
            0 <= i < j < map.remappings.len() ==> !is_same_alias(
                #[trigger] map.remappings[i],
                #[trigger] map.remappings[j],
            ),
{
    let roots = map.package_roots;
    assert forall|i: int, j: int| 0 <= i < j < roots.len() implies roots[i] != roots[j] by {
        assert(root_before(roots[i], roots[j]));
        lemma_path_irreflexive(roots[i]);
    }
    assert forall|i: int, j: int| 0 <= i < j < map.remappings.len() implies !is_same_alias(
        #[trigger] map.remappings[i],
        #[trigger] map.remappings[j],
    ) by {
        assert(remapping_before(map.remappings[i], map.remappings[j]));
        lemma_path_irreflexive(map.remappings[i].context_prefix);
        lemma_irreflexive(map.remappings[i].drp_name);
    }
}

} // verus!
