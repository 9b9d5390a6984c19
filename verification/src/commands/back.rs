//! Going back from a worktree to the repository it was created from.

use crate::paths::{below, path_below};
use crate::storage::{StorageView, WorktreeStorage};
use crate::text::texts;
use vstd::prelude::*;

verus! {

/// Why there is no way back.
#[derive(Debug, Clone, Copy, PartialEq, Eq, Structural)]
pub enum BackError {
    /// The current directory is no worktree directory of the store.
    NotInWorktree,
    /// A registry file that is needed cannot be read.
    IoFailure,
    /// No origin is recorded for the worktree.
    NoOrigin,
    /// The origin recorded does not exist any more.
    OriginMissing,
    /// The origin recorded is not a directory.
    OriginNotDirectory,
}

impl BackError {
    /// What to tell the user.
    pub fn message(&self) -> (r: &'static str)
        ensures
            r@ == match self {
                BackError::NotInWorktree => "Not currently in a worktree directory managed by this tool.\nThe back command only works from within worktree directories created by 'worktree create'."@,
                BackError::IoFailure => "Failed to read the registry files of this worktree."@,
                BackError::NoOrigin => "No origin information available for this worktree.\nThis worktree may have been created before the back feature was added."@,
                BackError::OriginMissing => "Origin repository no longer exists.\nThe original repository may have been moved or deleted."@,
                BackError::OriginNotDirectory => "Origin path is not a directory."@,
            },
    {
        match self {
            BackError::NotInWorktree => "Not currently in a worktree directory managed by this tool.\nThe back command only works from within worktree directories created by 'worktree create'.",
            BackError::IoFailure => "Failed to read the registry files of this worktree.",
            BackError::NoOrigin => "No origin information available for this worktree.\nThis worktree may have been created before the back feature was added.",
            BackError::OriginMissing => "Origin repository no longer exists.\nThe original repository may have been moved or deleted.",
            BackError::OriginNotDirectory => "Origin path is not a directory.",
        }
    }
}

/// The repository and the directory name of the worktree that
/// `current_dir` lies in: the first two components of what is left of it
/// below the storage root.
pub open spec fn worktree_at(root: Seq<char>, current_dir: Seq<char>) -> Option<
    (Seq<char>, Seq<char>),
> {
    match below(current_dir, root) {
        Some(rest) => if rest.len() >= 2 {
            Some((rest[0], rest[1]))
        } else {
            None
        },
        None => None,
    }
}

/// The repository and the branch of the worktree that `current_dir` lies
/// in: the branch is what the mapping records for the worktree's
/// directory, or the directory's name.
pub open spec fn current_worktree(s: StorageView, root: Seq<char>, current_dir: Seq<char>)
    -> Result<(Seq<char>, Seq<char>), BackError> {
    match worktree_at(root, current_dir) {
        Some((repo, dir)) => if s.repo(repo).branch_mapping is Unreadable {
            Err(BackError::IoFailure)
        } else {
            match s.original_branch_name(repo, dir) {
                Some(original) => Ok((repo, original)),
                None => Ok((repo, dir)),
            }
        },
        None => Err(BackError::NotInWorktree),
    }
}

/// The origin recorded for the worktree that `current_dir` lies in.
pub open spec fn origin_of(s: StorageView, root: Seq<char>, current_dir: Seq<char>) -> Result<
    Seq<char>,
    BackError,
> {
    match current_worktree(s, root, current_dir) {
        Ok((repo, branch)) => if s.repo(repo).origins is Unreadable {
            Err(BackError::IoFailure)
        } else {
            match s.worktree_origin(repo, branch) {
                Some(origin) => Ok(origin),
                None => Err(BackError::NoOrigin),
            }
        },
        Err(e) => Err(e),
    }
}

/// The repository and the branch of the worktree that `current_dir` lies
/// in.  Both paths are taken as they are: resolve links in them first.
pub fn determine_current_worktree(current_dir: &str, storage_root: &str, storage: &WorktreeStorage)
    -> (r: Result<(String, String), BackError>)
    ensures
        match r {
            Ok(found) => current_worktree(storage@, storage_root@, current_dir@) == Ok::<
                (Seq<char>, Seq<char>),
                BackError,
            >((found.0@, found.1@)),
            Err(e) => current_worktree(storage@, storage_root@, current_dir@) == Err::<
                (Seq<char>, Seq<char>),
                BackError,
            >(e),
        },
{
    match path_below(current_dir, storage_root) {
        Some(rest) => {
            if rest.len() < 2 {
                return Err(BackError::NotInWorktree);
            }
            assert(texts(rest@)[0] == rest@[0]@);
            assert(texts(rest@)[1] == rest@[1]@);
            let repo = rest[0].clone();
            let dir = rest[1].clone();
            match storage.get_original_branch_name(repo.as_str(), dir.as_str()) {
                Ok(Some(original)) => Ok((repo, original)),
                Ok(None) => Ok((repo, dir)),
                Err(_) => Err(BackError::IoFailure),
            }
        },
        None => Err(BackError::NotInWorktree),
    }
}

/// The origin recorded for the worktree that `current_dir` lies in.
pub fn back_to_origin(current_dir: &str, storage_root: &str, storage: &WorktreeStorage) -> (r:
    Result<String, BackError>)
    ensures
        match r {
            Ok(origin) => origin_of(storage@, storage_root@, current_dir@) == Ok::<
                Seq<char>,
                BackError,
            >(origin@),
            Err(e) => origin_of(storage@, storage_root@, current_dir@) == Err::<
                Seq<char>,
                BackError,
            >(e),
        },
{
    let (repo, branch) = determine_current_worktree(current_dir, storage_root, storage)?;
    match storage.get_worktree_origin(repo.as_str(), branch.as_str()) {
        Ok(Some(origin)) => Ok(origin),
        Ok(None) => Err(BackError::NoOrigin),
        Err(_) => Err(BackError::IoFailure),
    }
}

/// What confirming an origin gives: it must be present, and a directory.
pub open spec fn confirmed(present: bool, is_directory: bool) -> Result<(), BackError> {
    if !present {
        Err(BackError::OriginMissing)
    } else if !is_directory {
        Err(BackError::OriginNotDirectory)
    } else {
        Ok(())
    }
}

/// Confirms an origin against what was found on disk: it must be present,
/// and a directory.
pub fn confirm_origin(present: bool, is_directory: bool) -> (r: Result<(), BackError>)
    ensures
        r == confirmed(present, is_directory),
{
    if !present {
        Err(BackError::OriginMissing)
    } else if !is_directory {
        Err(BackError::OriginNotDirectory)
    } else {
        Ok(())
    }
}

} // verus!
