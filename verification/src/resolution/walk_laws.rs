//! Where the names of an import lead on disk.
use super::{applicable, located, DependencyMapView, ResolvedUse, ResolvedUseView};
use crate::disk::{entry_at, is_dir, DiskEntryView, DiskView};
use crate::error::{Error, ErrorView};
use crate::path::{after_last_dot, parent, with_extension};
use vstd::prelude::*;

verus! {

/// Whether the first `k` names lead through directories inside `base`, one in the other, and there
/// is no directory of the next name.
pub open spec fn directories_end_at(
    disk: DiskView,
    base: Seq<Seq<char>>,
    parts: Seq<Seq<char>>,
    k: int,
) -> bool {
    &&& 0 <= k < parts.len()
    &&& forall|j: int| 1 <= j <= k ==> is_dir(disk, base + #[trigger] parts.take(j))
    &&& !is_dir(disk, base + parts.take(k + 1))
}

/// Whether all names lead through directories inside `base`, one in the other.
pub open spec fn are_directories(
    disk: DiskView,
    base: Seq<Seq<char>>,
    parts: Seq<Seq<char>>,
) -> bool {
    forall|j: int| 1 <= j <= parts.len() ==> is_dir(disk, base + #[trigger] parts.take(j))
}

/// Names that lead through directories can be followed up to any of these directories.
proof fn lemma_followed(disk: DiskView, base: Seq<Seq<char>>, parts: Seq<Seq<char>>, n: int)
    requires
        0 <= n <= parts.len(),
        forall|j: int| 1 <= j <= n ==> is_dir(disk, base + #[trigger] parts.take(j)),
    ensures
        located(disk, base, base, parts) == located(
            disk,
            base,
            base + parts.take(n),
            parts.skip(n),
        ),
    decreases n,
{
    if n == 0 {
        assert(base + parts.take(0) =~= base);
        assert(parts.skip(0) =~= parts);
    } else {
        lemma_followed(disk, base, parts, n - 1);
        assert(is_dir(disk, base + parts.take(n)));
        assert(parts.skip(n - 1)[0] == parts[n - 1]);
        assert(parts.skip(n - 1).drop_first() =~= parts.skip(n));
        assert((base + parts.take(n - 1)).push(parts[n - 1]) =~= base + parts.take(n));
    }
}

/// Either all names lead through directories, or there is a name at which the directories end.
proof fn lemma_directories_end(disk: DiskView, base: Seq<Seq<char>>, parts: Seq<Seq<char>>)
    ensures
        are_directories(disk, base, parts) || exists|k: int| #[trigger]
            directories_end_at(disk, base, parts, k),
    decreases parts.len(),
{
    if parts.len() > 0 {
        let shorter = parts.drop_last();
        lemma_directories_end(disk, base, shorter);
        assert forall|j: int| 0 <= j <= shorter.len() implies shorter.take(j) == #[trigger]
            parts.take(j) by {
            assert(shorter.take(j) =~= parts.take(j));
        }
        if are_directories(disk, base, shorter) {
            assert forall|j: int| 1 <= j <= shorter.len() implies is_dir(
                disk,
                base + #[trigger] parts.take(j),
            ) by {
                assert(shorter.take(j) == parts.take(j));
            }
            assert(parts.take(parts.len() as int) =~= parts);
            if !is_dir(disk, base + parts) {
                assert(directories_end_at(disk, base, parts, parts.len() - 1));
            }
        } else {
            let k = choose|k: int| #[trigger] directories_end_at(disk, base, shorter, k);
            assert forall|j: int| 1 <= j <= k implies is_dir(
                disk,
                base + #[trigger] parts.take(j),
            ) by {
                assert(shorter.take(j) == parts.take(j));
            }
            assert(shorter.take(k + 1) == parts.take(k + 1));
            assert(directories_end_at(disk, base, parts, k));
        }
    }
}

/// The directory from which the names of an import are followed: the root of the package of the
/// file for `crate`, and the target of the dependency for the name of a dependency.
pub open spec fn start_of(
    map: DependencyMapView,
    file: Seq<Seq<char>>,
    name: Seq<char>,
) -> Option<Seq<Seq<char>>> {
    if name == "crate"@ {
        map.package_root(file)
    } else {
        match applicable(map.remappings, file, name) {
            Some(remapping) => Some(remapping.target),
            None => None,
        }
    }
}

/// An import is followed through any number of directories to a file. If the names behind the first
/// one lead through `k` directories, there is no directory of the next name, and there is a source
/// file of that name whose real path is inside the directory where the names start, then the import
/// leads to that real path, and the names behind the file lead to an item in it.
///
/// The one exception is an import that starts with the name of a dependency and leads back to the
/// package of the importing file.
pub proof fn nested_directories_lead_to_file(
    map: DependencyMapView,
    disk: DiskView,
    file: Seq<Seq<char>>,
    path: Seq<Seq<char>>,
    base: Seq<Seq<char>>,
    k: int,
    entry: DiskEntryView,
)
    requires
        path.len() > 0,
        start_of(map, file, path[0]) == Some(base),
        directories_end_at(disk, base, path.drop_first(), k),
        entry_at(disk, with_extension(base + path.drop_first().take(k + 1), "simf"@)) == Some(
            entry,
        ),
        base.is_prefix_of(entry.canonical),
    ensures
        path[0] == "crate"@ || map.package_root(file) is None || map.package_root(file)
            != map.package_root(entry.canonical) ==> map.resolved_use(disk, file, path) == Ok::<
            ResolvedUseView,
            ErrorView,
        >(ResolvedUse { path: entry.canonical, mod_path: path.skip(k + 2) }),
        path[0] != "crate"@ && map.package_root(file) is Some && map.package_root(file)
            == map.package_root(entry.canonical) ==> map.resolved_use(disk, file, path) == Err::<
            ResolvedUseView,
            ErrorView,
        >(Error::LocalFileImportedAsExternal(entry.canonical)),
{
    let parts = path.drop_first();
    lemma_followed(disk, base, parts, k);
    assert(parts.skip(k)[0] == parts[k]);
    assert((base + parts.take(k)).push(parts[k]) =~= base + parts.take(k + 1));
    assert(parts.skip(k).drop_first() =~= path.skip(k + 2));
}

/// An import of which the directories end at a name that is not that of a source file inside the
/// directory where the names start leads nowhere. The error names the missing file. An import that
/// starts with `crate` in a file directly at the root of the package leads to that file itself.
pub proof fn missing_file_is_reported(
    map: DependencyMapView,
    disk: DiskView,
    file: Seq<Seq<char>>,
    path: Seq<Seq<char>>,
    base: Seq<Seq<char>>,
    k: int,
)
    requires
        path.len() > 0,
        start_of(map, file, path[0]) == Some(base),
        directories_end_at(disk, base, path.drop_first(), k),
        match entry_at(disk, with_extension(base + path.drop_first().take(k + 1), "simf"@)) {
            Some(entry) => !base.is_prefix_of(entry.canonical),
            None => true,
        },
    ensures
        ({
            let missing = with_extension(base + path.drop_first().take(k + 1), "simf"@);
            map.resolved_use(disk, file, path) == if path[0] != "crate"@ {
                Err::<ResolvedUseView, ErrorView>(Error::ExternalFileNotFound(path[0], missing))
            } else if parent(file) == Some(base) {
                Ok(ResolvedUse { path: file, mod_path: path.drop_first() })
            } else {
                Err(Error::FileNotFound(missing))
            }
        }),
{
    let parts = path.drop_first();
    lemma_followed(disk, base, parts, k);
    assert(parts.skip(k)[0] == parts[k]);
    assert((base + parts.take(k)).push(parts[k]) =~= base + parts.take(k + 1));
}

/// An import of which all names lead through directories leads to no file. The error names the last
/// directory. An import that starts with `crate` in a file directly at the root of the package
/// leads to that file itself.
pub proof fn directory_is_no_file(
    map: DependencyMapView,
    disk: DiskView,
    file: Seq<Seq<char>>,
    path: Seq<Seq<char>>,
    base: Seq<Seq<char>>,
)
    requires
        path.len() > 0,
        start_of(map, file, path[0]) == Some(base),
        are_directories(disk, base, path.drop_first()),
    ensures
        map.resolved_use(disk, file, path) == if path[0] != "crate"@ {
            Err::<ResolvedUseView, ErrorView>(
                Error::ExternalFileNotFound(path[0], base + path.drop_first()),
            )
        } else if parent(file) == Some(base) {
            Ok(ResolvedUse { path: file, mod_path: path.drop_first() })
        } else {
            Err(Error::FileNotFound(base + path.drop_first()))
        },
{
    let parts = path.drop_first();
    lemma_followed(disk, base, parts, parts.len() as int);
    assert(parts.take(parts.len() as int) =~= parts);
    assert(parts.skip(parts.len() as int) =~= Seq::empty());
}

/// The file that an import leads to is the source file at which the directories end, or else the
/// importing file itself, directly at the root of its package.
pub proof fn import_leads_to_source_file(
    map: DependencyMapView,
    disk: DiskView,
    file: Seq<Seq<char>>,
    path: Seq<Seq<char>>,
)
    ensures
        map.resolved_use(disk, file, path) matches Ok(resolved) ==> {
            &&& path.len() > 0
            &&& start_of(map, file, path[0]) matches Some(base) && {
                ||| exists|k: int, entry: DiskEntryView|
                    #![trigger directories_end_at(disk, base, path.drop_first(), k), base.is_prefix_of(entry.canonical)]
                    {
                        &&& directories_end_at(disk, base, path.drop_first(), k)
                        &&& base.is_prefix_of(entry.canonical)
                        &&& entry_at(
                            disk,
                            with_extension(base + path.drop_first().take(k + 1), "simf"@),
                        ) == Some(entry)
                        &&& resolved.path == entry.canonical
                        &&& resolved.mod_path == path.skip(k + 2)
                    }
                ||| path[0] == "crate"@ && parent(file) == Some(base) && resolved.path == file
                    && resolved.mod_path == path.drop_first()
            }
        },
{
    if path.len() > 0 {
        if let Some(base) = start_of(map, file, path[0]) {
            let parts = path.drop_first();
            lemma_directories_end(disk, base, parts);
            if are_directories(disk, base, parts) {
                directory_is_no_file(map, disk, file, path, base);
            } else {
                let k = choose|k: int| #[trigger] directories_end_at(disk, base, parts, k);
                match entry_at(disk, with_extension(base + parts.take(k + 1), "simf"@)) {
                    Some(entry) if base.is_prefix_of(entry.canonical) => {
                        nested_directories_lead_to_file(map, disk, file, path, base, k, entry);
                    },
                    _ => {
                        missing_file_is_reported(map, disk, file, path, base, k);
                    },
                }
            }
        }
    }
}

/// An import that has no name, or starts with the name of no known dependency, is an error, and so
/// is one that starts with `crate` in a file of no package.
pub proof fn unknown_start_is_reported(
    map: DependencyMapView,
    disk: DiskView,
    file: Seq<Seq<char>>,
    path: Seq<Seq<char>>,
)
    requires
        path.len() == 0 || start_of(map, file, path[0]) is None,
    ensures
        map.resolved_use(disk, file, path) == Err::<ResolvedUseView, ErrorView>(
            if path.len() == 0 {
                Error::CannotParse("Missing dependency root path name"@)
            } else if path[0] == "crate"@ {
                Error::Internal("The 'crate' root path was not configured by the compiler."@)
            } else {
                Error::UnknownLibrary(path[0])
            },
        ),
{
}

/// A name without dots has no position after a dot.
proof fn lemma_no_dot(name: Seq<char>)
    requires
        !name.contains('.'),
    ensures
        after_last_dot(name) == 0,
    decreases name.len(),
{
    if name.len() > 0 {
        assert(name[name.len() - 1] == name.last());
        assert forall|i: int| 0 <= i < name.drop_last().len() implies name.drop_last()[i]
            != '.' by {
            assert(name[i] != '.');
        }
        lemma_no_dot(name.drop_last());
    }
}

/// The source file of a name without dots is in the same directory, and its name is followed by
/// `.simf`.
pub proof fn source_file_of_name(directory: Seq<Seq<char>>, name: Seq<char>)
    requires
        name.len() > 0,
        !name.contains('.'),
    ensures
        with_extension(directory.push(name), "simf"@) == directory.push(name + ".simf"@),
{
    reveal_strlit("");
    reveal_strlit(".");
    reveal_strlit("..");
    reveal_strlit("simf");
    reveal_strlit(".simf");
    lemma_no_dot(name);
    let path = directory.push(name);
    assert(path.last() == name);
    assert(path.drop_last() =~= directory);
    assert("."@[0] == '.');
    assert(".."@[0] == '.');
    assert(name != "."@ && name != ".."@ && name != ""@) by {
        if name == "."@ || name == ".."@ {
            assert(name[0] == '.');
        }
    }
    assert(name + "."@ + "simf"@ =~= name + ".simf"@);
}

/// What exists at a path is an entry of the disk with that path, and the first of them. Where there
/// is no such entry, nothing exists.
pub proof fn entry_is_at_path(disk: DiskView, path: Seq<Seq<char>>)
    ensures
        match entry_at(disk, path) {
            Some(entry) => exists|i: int|
                0 <= i < disk.len() && #[trigger] disk[i] == entry && entry.path == path && forall|
                    j: int,
                |
                    0 <= j < i ==> (#[trigger] disk[j]).path != path,
            None => forall|i: int| 0 <= i < disk.len() ==> (#[trigger] disk[i]).path != path,
        },
        is_dir(disk, path) <==> (entry_at(disk, path) matches Some(entry) && entry.is_dir),
    decreases disk.len(),
{
    if disk.len() > 0 && disk[0].path != path {
        let rest = disk.drop_first();
        entry_is_at_path(rest, path);
        match entry_at(rest, path) {
            Some(entry) => {
                let i = choose|i: int|
                    0 <= i < rest.len() && #[trigger] rest[i] == entry && entry.path == path
                        && forall|j: int| 0 <= j < i ==> (#[trigger] rest[j]).path != path;
                assert(disk[i + 1] == entry);
                assert forall|j: int| 0 <= j < i + 1 implies (#[trigger] disk[j]).path != path by {
                    if j > 0 {
                        assert(rest[j - 1] == disk[j]);
                    }
                }
            },
            None => {
                assert forall|j: int| 0 <= j < disk.len() implies (#[trigger] disk[j]).path
                    != path by {
                    if j > 0 {
                        assert(rest[j - 1] == disk[j]);
                    }
                }
            },
        }
    }
}

} // verus!
