//! One registry file of a repository, as it was found on disk.

use crate::registry::{drop_key, drop_value, lookup, lookup_in, put, put_in, remove_key, remove_value};
use crate::text::{lines_of, render_lines, rendered, split_lines, texts};
use vstd::prelude::*;

verus! {

/// Why a registry operation failed.
#[derive(Debug, Clone, Copy, PartialEq, Eq, Structural)]
pub enum StorageError {
    /// Neither a storage root was given nor a home directory found.
    NoHomeDirectory,
    /// The repository path has no final component to name the repository by.
    NoRepositoryName,
    /// A registry file is present but could not be read.
    IoFailure,
}

/// A registry file: absent, present but unreadable, or its lines.
#[derive(Debug, Clone)]
pub enum RegistryFile {
    /// No file is there.
    Absent,
    /// A file is there and reading it failed.
    Unreadable,
    /// The file's lines, in order.
    Lines(Vec<String>),
}

/// What a registry file holds, as plain text.
pub enum FileView {
    Absent,
    Unreadable,
    Lines(Seq<Seq<char>>),
}

impl View for RegistryFile {
    type V = FileView;

    open spec fn view(&self) -> FileView {
        match self {
            RegistryFile::Absent => FileView::Absent,
            RegistryFile::Unreadable => FileView::Unreadable,
            RegistryFile::Lines(lines) => FileView::Lines(texts(lines@)),
        }
    }
}

impl FileView {
    /// The lines to work on: those of the file, or none where it is absent.
    pub open spec fn lines(self) -> Seq<Seq<char>> {
        match self {
            FileView::Lines(lines) => lines,
            _ => Seq::empty(),
        }
    }

    /// The value under `key`; an absent file holds none.
    pub open spec fn get(self, key: Seq<char>) -> Option<Seq<char>> {
        lookup(self.lines(), key)
    }

    /// The file after `key -> value` is written; an unreadable file stays as
    /// it is.
    pub open spec fn with_entry(self, key: Seq<char>, value: Seq<char>) -> FileView {
        match self {
            FileView::Unreadable => self,
            _ => FileView::Lines(put(self.lines(), key, value)),
        }
    }

    /// The file without the entries that map to `value`; an absent or
    /// unreadable file stays as it is.
    pub open spec fn without_value(self, value: Seq<char>) -> FileView {
        match self {
            FileView::Lines(lines) => FileView::Lines(remove_value(lines, value)),
            _ => self,
        }
    }

    /// The file without the entries under `key`; an absent or unreadable
    /// file stays as it is.
    pub open spec fn without_key(self, key: Seq<char>) -> FileView {
        match self {
            FileView::Lines(lines) => FileView::Lines(remove_key(lines, key)),
            _ => self,
        }
    }
}

impl RegistryFile {
    /// The registry file with the given content: its lines.
    pub fn parse(content: &str) -> (r: Self)
        ensures
            r@ == FileView::Lines(split_lines(content@)),
    {
        RegistryFile::Lines(lines_of(content))
    }

    /// The content to write for the file: its lines, each ended by a line
    /// feed.  An absent or unreadable file has none.
    pub fn render(&self) -> (r: Option<String>)
        ensures
            match self@ {
                FileView::Lines(lines) => r matches Some(content) && content@ == rendered(lines),
                _ => r is None,
            },
    {
        match self {
            RegistryFile::Lines(lines) => Some(render_lines(lines)),
            _ => None,
        }
    }

    /// The value of the first entry under `key`.  An absent file holds no
    /// entry; an unreadable one is an error.
    pub fn get(&self, key: &str) -> (r: Result<Option<String>, StorageError>)
        ensures
            match r {
                Ok(Some(v)) => !(self@ is Unreadable) && self@.get(key@) == Some(v@),
                Ok(None) => !(self@ is Unreadable) && self@.get(key@) is None,
                Err(e) => self@ is Unreadable && e == StorageError::IoFailure,
            },
    {
        match self {
            RegistryFile::Absent => {
                proof {
                    crate::lists::lemma_first_where_none(
                        Seq::<Seq<char>>::empty(),
                        crate::registry::keyed(key@),
                    );
                }
                Ok(None)
            },
            RegistryFile::Unreadable => Err(StorageError::IoFailure),
            RegistryFile::Lines(lines) => Ok(lookup_in(lines, key)),
        }
    }

    /// Writes `key -> value`, creating the file where it is absent.  Fails,
    /// changing nothing, exactly where the file is unreadable.
    pub fn put(&mut self, key: &str, value: &str) -> (r: Result<(), StorageError>)
        ensures
            final(self)@ == old(self)@.with_entry(key@, value@),
            match r {
                Ok(_) => !(old(self)@ is Unreadable),
                Err(e) => old(self)@ is Unreadable && e == StorageError::IoFailure,
            },
    {
        match self {
            RegistryFile::Absent => {
                let mut lines: Vec<String> = Vec::new();
                assert(texts(lines@) =~= Seq::empty());
                put_in(&mut lines, key, value);
                *self = RegistryFile::Lines(lines);
                Ok(())
            },
            RegistryFile::Unreadable => Err(StorageError::IoFailure),
            RegistryFile::Lines(lines) => {
                put_in(lines, key, value);
                Ok(())
            },
        }
    }

    /// Drops the entries that map to `value`.  Nothing to do where the file
    /// is absent; fails exactly where it is unreadable.
    pub fn remove_value(&mut self, value: &str) -> (r: Result<(), StorageError>)
        ensures
            final(self)@ == old(self)@.without_value(value@),
            match r {
                Ok(_) => !(old(self)@ is Unreadable),
                Err(e) => old(self)@ is Unreadable && e == StorageError::IoFailure,
            },
    {
        match self {
            RegistryFile::Absent => Ok(()),
            RegistryFile::Unreadable => Err(StorageError::IoFailure),
            RegistryFile::Lines(lines) => {
                drop_value(lines, value);
                Ok(())
            },
        }
    }

    /// Drops the entries under `key`.  Nothing to do where the file is
    /// absent; fails exactly where it is unreadable.
    pub fn remove_key(&mut self, key: &str) -> (r: Result<(), StorageError>)
        ensures
            final(self)@ == old(self)@.without_key(key@),
            match r {
                Ok(_) => !(old(self)@ is Unreadable),
                Err(e) => old(self)@ is Unreadable && e == StorageError::IoFailure,
            },
    {
        match self {
            RegistryFile::Absent => Ok(()),
            RegistryFile::Unreadable => Err(StorageError::IoFailure),
            RegistryFile::Lines(lines) => {
                drop_key(lines, key);
                Ok(())
            },
        }
    }
}

} // verus!
