//! Notes and directories of a vault, as far as the editor names them.

use vstd::prelude::*;

verus! {

/// Represents a single note (Markdown file) within a vault.
#[derive(Debug, Clone, PartialEq, Default)]
pub struct Note {
    name: String,
    path: String,
}

pub struct NoteView {
    pub name: Seq<char>,
    pub path: Seq<char>,
}

impl View for Note {
    type V = NoteView;

    closed spec fn view(&self) -> NoteView {
        NoteView { name: self.name@, path: self.path@ }
    }
}

impl Note {
    /// The base filename without `.md` extension.
    pub fn name(&self) -> (name: &str)
        ensures
            name@ == self@.name,
    {
        self.name.as_str()
    }

    /// Filesystem path to the `.md` file.
    pub fn path(&self) -> (path: &str)
        ensures
            path@ == self@.path,
    {
        self.path.as_str()
    }

    /// Creates a note without checking that its path is that of a file.
    pub fn new_unchecked(name: &str, path: &str) -> (note: Self)
        ensures
            note@ == (NoteView { name: name@, path: path@ }),
    {
        Self { name: name.to_owned(), path: path.to_owned() }
    }

    /// A copy of the note.
    pub fn duplicate(&self) -> (note: Self)
        ensures
            note@ == self@,
    {
        Self { name: self.name.clone(), path: self.path.clone() }
    }
}

/// Represents a directory within the vault.
#[derive(Debug, Clone, PartialEq, Default)]
pub struct Directory {
    /// The directory name without the parent path.
    pub name: String,
    /// The complete filesystem path to the directory.
    pub path: String,
}

pub struct DirectoryView {
    pub name: Seq<char>,
    pub path: Seq<char>,
}

impl View for Directory {
    type V = DirectoryView;

    open spec fn view(&self) -> DirectoryView {
        DirectoryView { name: self.name@, path: self.path@ }
    }
}

impl Directory {
    /// A copy of the directory.
    pub fn duplicate(&self) -> (directory: Self)
        ensures
            directory@ == self@,
    {
        Self { name: self.name.clone(), path: self.path.clone() }
    }
}

} // verus!
