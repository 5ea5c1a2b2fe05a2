//! What is known of the files and directories on disk.
use crate::path::{CanonPath, FilePath};
use vstd::prelude::*;

verus! {

/// A file or directory that exists on disk. Paths are of type `Path`, and paths without symbolic
/// links are of type `Canon`.
#[derive(Debug, PartialEq, Eq)]
pub struct DiskEntry<Path = FilePath, Canon = CanonPath> {
    /// A path of the file or directory.
    pub path: Path,
    /// Whether it is a directory.
    pub is_dir: bool,
    /// Its path without symbolic links.
    pub canonical: Canon,
}

/// What a contract says of a file or directory.
pub type DiskEntryView = DiskEntry<Seq<Seq<char>>, Seq<Seq<char>>>;

/// The files and directories that were found at the paths that were looked at. Nothing exists at
/// other paths.
#[derive(Debug, PartialEq, Eq)]
pub struct Disk {
    pub entries: Vec<DiskEntry>,
}

/// What a contract says of the files and directories on disk.
pub type DiskView = Seq<DiskEntryView>;

impl View for DiskEntry {
    type V = DiskEntryView;

    open spec fn view(&self) -> DiskEntryView {
        DiskEntry { path: self.path@, is_dir: self.is_dir, canonical: self.canonical@ }
    }
}

impl View for Disk {
    type V = DiskView;

    open spec fn view(&self) -> DiskView {
        Seq::new(self.entries@.len(), |i: int| self.entries@[i]@)
    }
}

/// What exists at a path.
pub open spec fn entry_at(disk: DiskView, path: Seq<Seq<char>>) -> Option<DiskEntryView>
    decreases disk.len(),
{
    if disk.len() == 0 {
        None
    } else if disk[0].path == path {
        Some(disk[0])
    } else {
        entry_at(disk.drop_first(), path)
    }
}

/// Whether there is a directory at a path.
pub open spec fn is_dir(disk: DiskView, path: Seq<Seq<char>>) -> bool {
    entry_at(disk, path) matches Some(entry) && entry.is_dir
}

impl Disk {
    /// Find out what exists at a path.
    pub fn find(&self, path: &FilePath) -> (result: Option<&DiskEntry>)
        ensures
            match result {
                Some(entry) => entry_at(self@, path@) == Some(entry@),
                None => entry_at(self@, path@) is None,
            },
    {
        let mut i: usize = 0;
        assert(self@.skip(0) =~= self@);
        while i < self.entries.len()
            invariant
                i <= self.entries.len(),
                entry_at(self@, path@) == entry_at(self@.skip(i as int), path@),
            decreases self.entries.len() - i,
        {
            assert(self@.skip(i as int)[0] == self@[i as int]);
            assert(self@.skip(i as int).drop_first() =~= self@.skip(i + 1));
            if self.entries[i].path.same(path) {
                return Some(&self.entries[i]);
            }
            i = i + 1;
        }
        None
    }

    /// Check whether there is a directory at a path.
    pub fn is_dir(&self, path: &FilePath) -> (result: bool)
        ensures
            result == is_dir(self@, path@),
    {
        match self.find(path) {
            Some(entry) => entry.is_dir,
            None => false,
        }
    }
}

} // verus!
