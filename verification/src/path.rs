//! Paths of files and directories.
pub mod laws;

use crate::text::{joined, join, texts};
use vstd::prelude::*;
use vstd::utf8::encode_utf8;

verus! {

/// A path, as the names that lead to the file.
///
/// The root of the file system is an empty name: an absolute path starts with it, and a relative
/// path does not. The names `.` and `..` may occur and stand for themselves: nothing is looked up
/// on disk.
#[derive(Debug, PartialEq, Eq, Hash)]
pub struct FilePath {
    /// The names, outermost first.
    pub components: Vec<String>,
}

/// An absolute path without symbolic links and without the names `.` and `..`.
#[derive(Debug, PartialEq, Eq, Hash)]
pub struct CanonPath {
    pub path: FilePath,
}

impl View for FilePath {
    type V = Seq<Seq<char>>;

    open spec fn view(&self) -> Seq<Seq<char>> {
        texts(self.components@)
    }
}

impl View for CanonPath {
    type V = Seq<Seq<char>>;

    open spec fn view(&self) -> Seq<Seq<char>> {
        self.path@
    }
}

impl Clone for FilePath {
    fn clone(&self) -> (result: Self)
        ensures
            result@ == self@,
    {
        let components = self.components.clone();
        assert(texts(components@) =~= texts(self.components@));
        FilePath { components }
    }
}

impl Clone for CanonPath {
    fn clone(&self) -> (result: Self)
        ensures
            result@ == self@,
    {
        CanonPath { path: self.path.clone() }
    }
}

/// The position after the last dot in `name`, or zero if there is no dot.
pub open spec fn after_last_dot(name: Seq<char>) -> nat
    decreases name.len(),
{
    if name.len() == 0 {
        0
    } else if name.last() == '.' {
        name.len()
    } else {
        after_last_dot(name.drop_last())
    }
}

/// A file name without its extension.
///
/// The extension starts at the last dot. A dot at the very start begins no extension.
pub open spec fn file_stem(name: Seq<char>) -> Seq<char> {
    let end = after_last_dot(name);
    if end <= 1 {
        name
    } else {
        name.take(end - 1)
    }
}

/// Whether a path ends in the name of a file.
pub open spec fn names_file(path: Seq<Seq<char>>) -> bool {
    &&& path.len() > 0
    &&& path.last() != ""@
    &&& path.last() != "."@
    &&& path.last() != ".."@
}

/// The directory that a path lies in. The empty path and the root lie in no directory.
pub open spec fn parent(path: Seq<Seq<char>>) -> Option<Seq<Seq<char>>> {
    if path.len() == 0 || is_root(path) {
        None
    } else {
        Some(path.drop_last())
    }
}

/// The path with its extension replaced.
///
/// An empty extension removes the extension. The empty path, the root and a path that ends in `.`
/// or `..` name no file and stay as they are.
pub open spec fn with_extension(path: Seq<Seq<char>>, extension: Seq<char>) -> Seq<Seq<char>> {
    if !names_file(path) {
        path
    } else if extension.len() == 0 {
        path.drop_last().push(file_stem(path.last()))
    } else {
        path.drop_last().push(file_stem(path.last()) + "."@ + extension)
    }
}

/// The length of names in bytes, written with a slash between them.
pub open spec fn names_len(path: Seq<Seq<char>>) -> nat
    decreases path.len(),
{
    if path.len() == 0 {
        0
    } else if path.len() == 1 {
        encode_utf8(path[0]).len()
    } else {
        names_len(path.drop_last()) + 1 + encode_utf8(path.last()).len()
    }
}

/// Whether a path is the root of the file system.
pub open spec fn is_root(path: Seq<Seq<char>>) -> bool {
    path.len() == 1 && path[0] == ""@
}

/// The length of the text of a path in bytes.
pub open spec fn byte_len(path: Seq<Seq<char>>) -> nat {
    if is_root(path) {
        1
    } else {
        names_len(path)
    }
}

/// The text of a path: its names with a slash between them, or a single slash for the root.
pub open spec fn path_text(path: Seq<Seq<char>>) -> Seq<char> {
    if is_root(path) {
        "/"@
    } else {
        joined(path, "/"@)
    }
}

/// Find the position after the last dot.
fn find_after_last_dot(name: &str) -> (result: usize)
    ensures
        result == after_last_dot(name@),
        result <= name@.len(),
{
    let n: usize = name.unicode_len();
    let mut i: usize = 0;
    let mut result: usize = 0;
    assert(name@.take(0) =~= Seq::<char>::empty());
    while i < n
        invariant
            i <= n,
            n == name@.len(),
            result <= i,
            result == after_last_dot(name@.take(i as int)),
        decreases n - i,
    {
        let c = name.get_char(i);
        assert(name@.take(i + 1).drop_last() =~= name@.take(i as int));
        i = i + 1;
        if c == '.' {
            result = i;
        }
    }
    assert(name@.take(n as int) =~= name@);
    result
}

impl FilePath {
    /// Check whether the path is the root of the file system.
    fn is_root(&self) -> (result: bool)
        ensures
            result == is_root(self@),
    {
        self.components.len() == 1 && self.components[0] == "".to_owned()
    }

    /// The path of a file or directory inside the directory.
    pub fn join(&self, name: &str) -> (result: FilePath)
        ensures
            result@ == self@.push(name@),
    {
        let mut result = self.clone();
        result.components.push(name.to_owned());
        assert(texts(result.components@) =~= self@.push(name@));
        result
    }

    /// Check whether the first names of the path are those of `base`.
    pub fn starts_with(&self, base: &FilePath) -> (result: bool)
        ensures
            result == base@.is_prefix_of(self@),
    {
        if base.components.len() > self.components.len() {
            return false;
        }
        let mut i: usize = 0;
        while i < base.components.len()
            invariant
                i <= base.components.len() <= self.components.len(),
                forall|j: int| 0 <= j < i ==> #[trigger] base@[j] == self@[j],
            decreases base.components.len() - i,
        {
            if base.components[i] != self.components[i] {
                assert(base@[i as int] != self@[i as int]);
                assert(self@.subrange(0, base@.len() as int)[i as int] == self@[i as int]);
                return false;
            }
            i = i + 1;
        }
        assert(base@ =~= self@.subrange(0, base@.len() as int));
        true
    }

    /// Check whether two paths consist of the same names.
    pub fn same(&self, other: &FilePath) -> (result: bool)
        ensures
            result == (self@ == other@),
    {
        if self.components.len() == other.components.len() && self.starts_with(other) {
            assert(self@ =~= other@);
            true
        } else {
            assert(self@ == other@ ==> other@ =~= self@.subrange(0, other@.len() as int));
            false
        }
    }

    /// Check whether the path is that of a file or directory directly inside `directory`.
    pub fn is_directly_in(&self, directory: &FilePath) -> (result: bool)
        ensures
            result == (parent(self@) == Some(directory@)),
    {
        let result = self.components.len() > 0 && !self.is_root() && self.components.len() - 1
            == directory.components.len() && self.starts_with(directory);
        assert(result ==> self@.drop_last() =~= directory@);
        assert(self@.len() > 0 && self@.drop_last() == directory@ ==> directory@
            =~= self@.subrange(0, directory@.len() as int));
        result
    }

    /// The path with its extension replaced.
    pub fn with_extension(&self, extension: &str) -> (result: FilePath)
        ensures
            result@ == with_extension(self@, extension@),
    {
        let n: usize = self.components.len();
        if n == 0 {
            return self.clone();
        }
        assert(self@.last() == self.components@[n - 1]@);
        let name: &str = self.components[n - 1].as_str();
        let file_name: String = name.to_owned();
        if file_name == "".to_owned() || file_name == ".".to_owned() || file_name
            == "..".to_owned() {
            return self.clone();
        }
        let end: usize = find_after_last_dot(name);
        let mut file: String = if end <= 1 {
            name.to_owned()
        } else {
            name.substring_char(0, end - 1).to_owned()
        };
        assert(file@ == file_stem(name@));
        if !extension.is_empty() {
            file.append(".");
            file.append(extension);
        }
        let mut components: Vec<String> = Vec::new();
        let mut i: usize = 0;
        while i < n - 1
            invariant
                n == self.components.len(),
                n > 0,
                i <= n - 1,
                components@.len() == i,
                forall|j: int| 0 <= j < i ==> #[trigger] components@[j]@ == self@[j],
            decreases n - 1 - i,
        {
            components.push(self.components[i].clone());
            i = i + 1;
        }
        let ghost parent = components@;
        assert(texts(parent) =~= self@.drop_last());
        components.push(file);
        assert(texts(components@) =~= self@.drop_last().push(file@));
        FilePath { components }
    }

    /// The length of the path in bytes.
    pub fn byte_len(&self) -> (result: u128)
        ensures
            result == byte_len(self@),
    {
        if self.is_root() {
            return 1;
        }
        if self.components.len() == 0 {
            return 0;
        }
        let mut result: u128 = 0;
        let mut i: usize = 0;
        while i < self.components.len()
            invariant
                i <= self.components.len(),
                self.components.len() > 0,
                i > 0 ==> result == names_len(self@.take(i as int)),
                i == 0 ==> result == 0,
                result <= i * 0x1_0000_0000_0000_0000,
            decreases self.components.len() - i,
        {
            let bytes: usize = self.components[i].as_str().as_bytes().len();
            assert(encode_utf8(self@[i as int]).len() == bytes);
            assert(self@.take(i + 1).drop_last() =~= self@.take(i as int));
            assert(self@.take(i + 1).last() == self@[i as int]);
            assert(result + 1 + bytes <= (i + 1) * 0x1_0000_0000_0000_0000);
            result = if i == 0 {
                bytes as u128
            } else {
                result + 1 + bytes as u128
            };
            i = i + 1;
        }
        assert(self@.take(i as int) =~= self@);
        result
    }

    /// Write the path.
    pub fn to_text(&self) -> (text: String)
        ensures
            text@ == path_text(self@),
    {
        if self.is_root() {
            "/".to_owned()
        } else {
            join(&self.components, "/")
        }
    }
}

impl CanonPath {
    /// Check whether the path is that of a file or directory inside `base`, or `base` itself.
    pub fn starts_with(&self, base: &CanonPath) -> (result: bool)
        ensures
            result == base@.is_prefix_of(self@),
    {
        self.path.starts_with(&base.path)
    }

    /// The path.
    pub fn as_path(&self) -> (path: &FilePath)
        ensures
            path@ == self@,
            *path == self.path,
    {
        &self.path
    }
}

} // verus!
