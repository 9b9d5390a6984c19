//! Listing the worktrees the store manages.

use crate::catalog::{catalog, entry_views, get_available_worktrees, WorktreeEntry};
use crate::resolve::ResolveError;
use crate::storage::WorktreeStorage;
use vstd::prelude::*;

verus! {

/// The worktrees to list, as they are shown: those of the repository
/// `scope`, or of every repository, each with its repository, the branch
/// name displayed for it, and its directory.  Repositories without
/// worktrees contribute nothing.  Fails with `IoFailure` exactly where a
/// mapping that is needed cannot be read.
pub fn list_worktrees(storage: &WorktreeStorage, scope: Option<&str>) -> (r: Result<
    Vec<WorktreeEntry>,
    ResolveError,
>)
    ensures
        match r {
            Ok(entries) => catalog(
                storage@,
                match scope {
                    Some(repo) => Some(repo@),
                    None => None,
                },
            ) == Some(entry_views(entries@)),
            Err(e) => e is IoFailure && catalog(
                storage@,
                match scope {
                    Some(repo) => Some(repo@),
                    None => None,
                },
            ) is None,
        },
{
    get_available_worktrees(storage, scope)
}

} // verus!
