//! One repository's part of the store.

use crate::lists::{add_text, has_text, remove_text, with_text, without_text};
use crate::storage::files::{FileView, RegistryFile};
use crate::text::texts;
use vstd::prelude::*;

verus! {

/// The name of the reserved directory that holds the managed-branch markers.
pub open spec fn markers_dir() -> Seq<char> {
    seq!['.', 'm', 'a', 'n', 'a', 'g', 'e', 'd', '-', 'b', 'r', 'a', 'n', 'c', 'h', 'e', 's']
}

/// The name of the reserved directory, as a string.
pub fn markers_dir_name() -> (r: String)
    ensures
        r@ == markers_dir(),
{
    let name = ".managed-branches";
    proof {
        reveal_strlit(".managed-branches");
        assert(name@ =~= markers_dir());
    }
    name.to_owned()
}

/// What the store holds for one repository.
#[derive(Debug, Clone)]
pub struct RepoRegistry {
    /// The repository's name: the name of its directory under the root.
    pub name: String,
    /// The names of the subdirectories of the repository's directory.
    pub directories: Vec<String>,
    /// Sanitized name to canonical branch name.
    pub branch_mapping: RegistryFile,
    /// Sanitized name to the path of the repository a worktree came from.
    pub origins: RegistryFile,
    /// The names of the marker files in the reserved directory.
    pub managed: Vec<String>,
}

/// A repository's part of the store, as plain text.
pub struct RepoView {
    pub name: Seq<char>,
    pub directories: Seq<Seq<char>>,
    pub branch_mapping: FileView,
    pub origins: FileView,
    pub managed: Seq<Seq<char>>,
}

impl View for RepoRegistry {
    type V = RepoView;

    open spec fn view(&self) -> RepoView {
        RepoView {
            name: self.name@,
            directories: texts(self.directories@),
            branch_mapping: self.branch_mapping@,
            origins: self.origins@,
            managed: texts(self.managed@),
        }
    }
}

impl RepoView {
    /// A repository of which nothing is stored yet.
    pub open spec fn blank(name: Seq<char>) -> RepoView {
        RepoView {
            name,
            directories: Seq::empty(),
            branch_mapping: FileView::Absent,
            origins: FileView::Absent,
            managed: Seq::empty(),
        }
    }

    /// The worktree directories: the subdirectories but the reserved one.
    pub open spec fn worktrees(self) -> Seq<Seq<char>> {
        without_text(self.directories, markers_dir())
    }

    pub open spec fn with_directories(self, directories: Seq<Seq<char>>) -> RepoView {
        RepoView { directories, ..self }
    }

    pub open spec fn with_branch_mapping(self, branch_mapping: FileView) -> RepoView {
        RepoView { branch_mapping, ..self }
    }

    pub open spec fn with_origins(self, origins: FileView) -> RepoView {
        RepoView { origins, ..self }
    }

    pub open spec fn with_managed(self, managed: Seq<Seq<char>>) -> RepoView {
        RepoView { managed, ..self }
    }

    /// The repository once `marker` is set: the reserved directory exists
    /// and holds the marker.
    pub open spec fn marked(self, marker: Seq<char>) -> RepoView {
        self.with_directories(with_text(self.directories, markers_dir())).with_managed(
            with_text(self.managed, marker),
        )
    }
}

impl RepoRegistry {
    /// A repository of which nothing is stored yet.
    pub fn new(name: &str) -> (r: Self)
        ensures
            r@ == RepoView::blank(name@),
    {
        let r = RepoRegistry {
            name: name.to_owned(),
            directories: Vec::new(),
            branch_mapping: RegistryFile::Absent,
            origins: RegistryFile::Absent,
            managed: Vec::new(),
        };
        assert(texts(r.directories@) =~= Seq::empty());
        assert(texts(r.managed@) =~= Seq::empty());
        r
    }

    /// Whether the repository's directory has a subdirectory `name`.
    pub fn has_directory(&self, name: &str) -> (r: bool)
        ensures
            r == self@.directories.contains(name@),
    {
        has_text(&self.directories, name)
    }

    /// The names of the worktree directories, in stored order.
    pub fn worktrees(&self) -> (r: Vec<String>)
        ensures
            texts(r@) == self@.worktrees(),
    {
        let mut out = crate::lists::copy_texts(&self.directories);
        let reserved = markers_dir_name();
        remove_text(&mut out, reserved.as_str());
        out
    }

    /// Sets the marker `marker`, creating the reserved directory if needed.
    pub fn mark(&mut self, marker: &str)
        ensures
            final(self)@ == old(self)@.marked(marker@),
    {
        let reserved = markers_dir_name();
        add_text(&mut self.directories, reserved.as_str());
        add_text(&mut self.managed, marker);
    }

    /// Clears the marker `marker`.
    pub fn unmark(&mut self, marker: &str)
        ensures
            final(self)@ == old(self)@.with_managed(without_text(old(self)@.managed, marker@)),
    {
        remove_text(&mut self.managed, marker);
    }

    /// Whether the marker `marker` is set.
    pub fn is_marked(&self, marker: &str) -> (r: bool)
        ensures
            r == self@.managed.contains(marker@),
    {
        has_text(&self.managed, marker)
    }
}

} // verus!
