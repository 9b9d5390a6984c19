//! The status of a repository's worktrees: what git has on record held
//! against what the store manages.

use crate::lists::has_text;
use crate::storage::{StorageView, WorktreeStorage};
use crate::text::texts;
use vstd::prelude::*;

verus! {

/// One worktree in a status listing.
#[derive(Debug, Clone, PartialEq, Eq)]
pub struct StatusRow {
    /// The worktree's name.
    pub name: String,
    /// Whether the other listing has a worktree of this name.
    pub paired: bool,
    /// Whether the worktree's directory exists in the store.
    pub exists: bool,
    /// The worktree's directory.
    pub path: String,
}

/// A status row, as plain data.
pub struct RowView {
    pub name: Seq<char>,
    pub paired: bool,
    pub exists: bool,
    pub path: Seq<char>,
}

impl View for StatusRow {
    type V = RowView;

    open spec fn view(&self) -> RowView {
        RowView { name: self.name@, paired: self.paired, exists: self.exists, path: self.path@ }
    }
}

/// The views of a list of rows.
pub open spec fn row_views(v: Seq<StatusRow>) -> Seq<RowView> {
    Seq::new(v.len(), |i: int| v[i]@)
}

/// The status of a repository: git's worktrees, each with whether the
/// store manages it, and the store's worktrees, each with whether git has
/// it on record.
#[derive(Debug, Clone, PartialEq, Eq)]
pub struct StatusReport {
    pub git_worktrees: Vec<StatusRow>,
    pub managed_worktrees: Vec<StatusRow>,
}

/// The row of the worktree `name`, held against the names of the other
/// listing.
pub open spec fn row_for(s: StorageView, repo: Seq<char>, name: Seq<char>, others: Seq<Seq<char>>)
    -> RowView {
    RowView {
        name,
        paired: others.contains(name),
        exists: s.has_worktree(repo, name),
        path: s.worktree_path(repo, name),
    }
}

/// The rows of the worktrees `names`, held against `others`.
pub open spec fn rows_for(
    s: StorageView,
    repo: Seq<char>,
    names: Seq<Seq<char>>,
    others: Seq<Seq<char>>,
) -> Seq<RowView> {
    Seq::new(names.len(), |i: int| row_for(s, repo, names[i], others))
}

/// The rows of the worktrees `names`, held against `others`.
pub fn status_rows(
    storage: &WorktreeStorage,
    repo_name: &str,
    names: &Vec<String>,
    others: &Vec<String>,
) -> (r: Vec<StatusRow>)
    ensures
        row_views(r@) == rows_for(storage@, repo_name@, texts(names@), texts(others@)),
{
    let mut out: Vec<StatusRow> = Vec::new();
    let mut i: usize = 0;
    while i < names.len()
        invariant
            i <= names.len(),
            out@.len() == i,
            forall|j: int|
                0 <= j < i ==> (#[trigger] out@[j])@ == row_for(
                    storage@,
                    repo_name@,
                    names@[j]@,
                    texts(others@),
                ),
        decreases names.len() - i,
    {
        let name = names[i].as_str();
        out.push(
            StatusRow {
                name: names[i].clone(),
                paired: has_text(others, name),
                exists: storage.worktree_exists(repo_name, name),
                path: storage.get_worktree_path(repo_name, name),
            },
        );
        i += 1;
    }
    proof {
        assert(row_views(out@) =~= rows_for(
            storage@,
            repo_name@,
            texts(names@),
            texts(others@),
        ));
    }
    out
}

/// The status of a repository, given the worktrees git has on record.
pub fn show_status(storage: &WorktreeStorage, repo_name: &str, git_worktrees: &Vec<String>) -> (r:
    StatusReport)
    ensures
        row_views(r.git_worktrees@) == rows_for(
            storage@,
            repo_name@,
            texts(git_worktrees@),
            storage@.repo(repo_name@).worktrees(),
        ),
        row_views(r.managed_worktrees@) == rows_for(
            storage@,
            repo_name@,
            storage@.repo(repo_name@).worktrees(),
            texts(git_worktrees@),
        ),
{
    let managed = storage.list_repo_worktrees(repo_name);
    StatusReport {
        git_worktrees: status_rows(storage, repo_name, git_worktrees, &managed),
        managed_worktrees: status_rows(storage, repo_name, &managed, git_worktrees),
    }
}

} // verus!
