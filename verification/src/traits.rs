//! The version-control operations the commands need, as a trait, so that
//! they can run against a real repository or against a stand-in.

use vstd::prelude::*;

verus! {

/// A failure of the version-control layer, with its message.
#[derive(Debug, Clone, PartialEq, Eq)]
pub struct VcsError {
    pub message: String,
}

/// What the commands ask of a git repository.  Nothing is assumed of what
/// an implementation returns.
pub trait GitOperations {
    /// Opens the repository that holds `path`.
    fn open(path: &str) -> Result<Self, VcsError> where Self: Sized;

    /// The repository's working directory.
    fn get_repo_path(&self) -> String;

    /// Whether a local branch of that name exists.
    fn branch_exists(&self, branch_name: &str) -> Result<bool, VcsError>;

    /// Creates a worktree for the branch at the path, creating the branch
    /// first where asked to.
    fn create_worktree(&self, branch_name: &str, worktree_path: &str, create_branch: bool) -> Result<
        (),
        VcsError,
    >;

    /// Removes the repository's record of a worktree.
    fn remove_worktree(&self, worktree_name: &str) -> Result<(), VcsError>;

    /// The names of the worktrees the repository has on record.
    fn list_worktrees(&self) -> Result<Vec<String>, VcsError>;

    /// Deletes a local branch.
    fn delete_branch(&self, branch_name: &str) -> Result<(), VcsError>;

    /// Copies the repository's effective configuration to a worktree.
    fn inherit_config(&self, worktree_path: &str) -> Result<(), VcsError>;
}

} // verus!
