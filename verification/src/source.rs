//! Source files.
use crate::path::{path_text, with_extension, FilePath};
use vstd::prelude::*;

verus! {

/// Name of a source file: of type `Path` for a file on disk, else of type `Text`.
#[derive(Debug, PartialEq, Eq, Hash)]
pub enum SourceName<Text = String, Path = FilePath> {
    /// A file on disk.
    Real(Path),
    /// A source that is not on disk.
    Virtual(Text),
}

/// What a contract says of the name of a source file.
pub type SourceNameView = SourceName<Seq<char>, Seq<Seq<char>>>;

impl View for SourceName {
    type V = SourceNameView;

    open spec fn view(&self) -> SourceNameView {
        match self {
            SourceName::Real(path) => SourceName::Real(path@),
            SourceName::Virtual(name) => SourceName::Virtual(name@),
        }
    }
}

impl Clone for SourceName {
    fn clone(&self) -> (result: Self)
        ensures
            result@ == self@,
    {
        match self {
            SourceName::Real(path) => SourceName::Real(path.clone()),
            SourceName::Virtual(name) => SourceName::Virtual(name.clone()),
        }
    }
}

/// The name of a source file without the extension of the file.
pub open spec fn without_extension(name: SourceNameView) -> SourceNameView {
    match name {
        SourceName::Real(path) => SourceName::Real(with_extension(path, ""@)),
        SourceName::Virtual(text) => SourceName::Virtual(text),
    }
}

/// The text of a name of a source file.
pub open spec fn source_name_text(name: SourceNameView) -> Seq<char> {
    match name {
        SourceName::Real(path) => path_text(path),
        SourceName::Virtual(text) => text,
    }
}

impl SourceName {
    /// Check whether two names are the same.
    pub fn same(&self, other: &SourceName) -> (result: bool)
        ensures
            result == (self@ == other@),
    {
        match (self, other) {
            (SourceName::Real(a), SourceName::Real(b)) => a.same(b),
            (SourceName::Virtual(a), SourceName::Virtual(b)) => *a == *b,
            _ => false,
        }
    }

    /// The name without the extension of the file.
    pub fn without_extension(&self) -> (result: SourceName)
        ensures
            result@ == without_extension(self@),
    {
        match self {
            SourceName::Real(path) => SourceName::Real(path.with_extension("")),
            SourceName::Virtual(name) => SourceName::Virtual(name.clone()),
        }
    }

    /// Write the name.
    pub fn to_text(&self) -> (text: String)
        ensures
            text@ == source_name_text(self@),
    {
        match self {
            SourceName::Real(path) => path.to_text(),
            SourceName::Virtual(name) => name.clone(),
        }
    }
}

/// A source file: its name and its content.
#[derive(Debug, PartialEq, Eq, Hash)]
pub struct SourceFile<Name = SourceName, Text = String> {
    /// The name of the file.
    pub name: Name,
    /// The content of the file.
    pub content: Text,
}

/// What a contract says of a source file.
pub type SourceFileView = SourceFile<SourceNameView, Seq<char>>;

impl View for SourceFile {
    type V = SourceFileView;

    open spec fn view(&self) -> SourceFileView {
        SourceFile { name: self.name@, content: self.content@ }
    }
}

impl Clone for SourceFile {
    fn clone(&self) -> (result: Self)
        ensures
            result@ == self@,
    {
        SourceFile { name: self.name.clone(), content: self.content.clone() }
    }
}

impl SourceFile {
    /// Create a source file from its name and its content.
    pub fn new(name: SourceName, content: String) -> (file: SourceFile)
        ensures
            file.name == name,
            file.content == content,
    {
        SourceFile { name, content }
    }

    /// The name of the file.
    pub fn name(&self) -> (name: &SourceName)
        ensures
            *name == self.name,
    {
        &self.name
    }

    /// The content of the file.
    pub fn content(&self) -> (content: &str)
        ensures
            content@ == self.content@,
    {
        self.content.as_str()
    }

    /// Write the name of the file.
    pub fn str_name(&self) -> (text: String)
        ensures
            text@ == source_name_text(self.name@),
    {
        self.name.to_text()
    }
}

} // verus!
