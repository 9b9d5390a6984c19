//! Synchronizing configuration files between two worktrees: which
//! directories are meant.

use crate::paths::{file_name, is_absolute, path_file_name, path_is_absolute};
use crate::storage::{StorageView, WorktreeStorage};
use vstd::prelude::*;

verus! {

/// Why the two worktrees could not be settled.
#[derive(Debug, Clone, Copy, PartialEq, Eq, Structural)]
pub enum SyncError {
    /// The path given has no final component to take the branch from.
    NoBranchName,
    /// The source worktree does not exist.
    SourceMissing,
    /// The target worktree does not exist.
    TargetMissing,
}

/// One side of a synchronization.
#[derive(Debug, Clone, PartialEq, Eq)]
pub struct Endpoint {
    /// The worktree's directory.
    pub path: String,
    /// The branch it is taken to belong to.
    pub branch: String,
    /// Whether the directory exists.
    pub exists: bool,
}

/// What a target stands for: an absolute path that exists stands for
/// itself, with its last component as the branch; anything else is a
/// branch name, and stands for that branch's worktree directory.
pub open spec fn endpoint(
    s: StorageView,
    repo: Seq<char>,
    target: Seq<char>,
    exists_on_disk: bool,
) -> Result<(Seq<char>, Seq<char>, bool), SyncError> {
    if is_absolute(target) && exists_on_disk {
        match file_name(target) {
            Some(branch) => Ok((target, branch, true)),
            None => Err(SyncError::NoBranchName),
        }
    } else {
        Ok((s.worktree_path(repo, target), target, s.has_worktree(repo, target)))
    }
}

/// Settles what a target stands for.  `exists_on_disk` says whether the
/// target, taken as a path, exists; it matters for absolute paths only.
pub fn resolve_worktree_path(
    target: &str,
    exists_on_disk: bool,
    storage: &WorktreeStorage,
    repo_name: &str,
) -> (r: Result<Endpoint, SyncError>)
    ensures
        match r {
            Ok(e) => endpoint(storage@, repo_name@, target@, exists_on_disk) == Ok::<
                (Seq<char>, Seq<char>, bool),
                SyncError,
            >((e.path@, e.branch@, e.exists)),
            Err(e) => endpoint(storage@, repo_name@, target@, exists_on_disk) == Err::<
                (Seq<char>, Seq<char>, bool),
                SyncError,
            >(e),
        },
{
    if path_is_absolute(target) && exists_on_disk {
        return match path_file_name(target) {
            Some(branch) => Ok(Endpoint { path: target.to_owned(), branch, exists: true }),
            None => Err(SyncError::NoBranchName),
        };
    }
    Ok(
        Endpoint {
            path: storage.get_worktree_path(repo_name, target),
            branch: target.to_owned(),
            exists: storage.worktree_exists(repo_name, target),
        },
    )
}

/// The directories to copy from and to.  Both targets are settled first;
/// then the source must exist, then the target.
pub fn sync_config(
    from: &str,
    from_exists_on_disk: bool,
    to: &str,
    to_exists_on_disk: bool,
    storage: &WorktreeStorage,
    repo_name: &str,
) -> (r: Result<(String, String), SyncError>)
    ensures
        match (
            endpoint(storage@, repo_name@, from@, from_exists_on_disk),
            endpoint(storage@, repo_name@, to@, to_exists_on_disk),
        ) {
            (Err(e), _) => r == Err::<(String, String), SyncError>(e),
            (Ok(_), Err(e)) => r == Err::<(String, String), SyncError>(e),
            (Ok(source), Ok(target)) => if !source.2 {
                r == Err::<(String, String), SyncError>(SyncError::SourceMissing)
            } else if !target.2 {
                r == Err::<(String, String), SyncError>(SyncError::TargetMissing)
            } else {
                r matches Ok(paths) && paths.0@ == source.0 && paths.1@ == target.0
            },
        },
{
    let source = resolve_worktree_path(from, from_exists_on_disk, storage, repo_name)?;
    let target = resolve_worktree_path(to, to_exists_on_disk, storage, repo_name)?;
    if !source.exists {
        return Err(SyncError::SourceMissing);
    }
    if !target.exists {
        return Err(SyncError::TargetMissing);
    }
    Ok((source.path, target.path))
}

} // verus!
