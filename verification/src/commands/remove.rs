//! Removing a worktree: which worktree is meant, which branch it belongs
//! to, and what the registry forgets.

use crate::catalog::{
    catalog, entry_views, get_available_worktrees, scope_of, ChooseError, EntryView,
    WorktreeEntry,
};
use crate::commands::create::{directory_name, worktree_directory_name};
use crate::commands::jump::chosen_from_list;
use crate::resolve::{listed_branches, resolution, resolve_target, Failure};
use crate::selection::{
    branch_in, extract_branch_from_selection, extract_path_from_selection, path_in, path_opener,
    SelectionError, SelectionProvider,
};
use crate::storage::laws::removals_keep_the_rest;
use crate::storage::{StorageView, WorktreeStorage};
use crate::text::{
    append_text, chars_of, contains_text, lemma_rfind_text_is, occurs_at, string_of, texts,
};
use crate::traits::{GitOperations, VcsError};
use vstd::prelude::*;

verus! {

/// The line a worktree is offered as: `repo/branch (path)`.
pub open spec fn selection_line(e: EntryView) -> Seq<char> {
    e.repo + seq!['/'] + e.branch + seq![' ', '('] + e.path + seq![')']
}

/// The line a worktree is offered as.
pub fn format_selection(entry: &WorktreeEntry) -> (r: String)
    ensures
        r@ == selection_line(entry@),
{
    let mut out = chars_of(entry.repo.as_str());
    out.push('/');
    let branch = chars_of(entry.branch.as_str());
    append_text(&mut out, &branch);
    out.push(' ');
    out.push('(');
    let path = chars_of(entry.path.as_str());
    append_text(&mut out, &path);
    out.push(')');
    assert(out@ =~= selection_line(entry@));
    string_of(&out)
}

/// The lines the worktrees are offered as, in order.
pub fn selection_options(entries: &Vec<WorktreeEntry>) -> (r: Vec<String>)
    ensures
        texts(r@) == Seq::new(entries@.len(), |i: int| selection_line(entries@[i]@)),
{
    let mut out: Vec<String> = Vec::new();
    let mut i: usize = 0;
    while i < entries.len()
        invariant
            i <= entries.len(),
            out@.len() == i,
            forall|j: int| 0 <= j < i ==> out@[j]@ == selection_line(entries@[j]@),
        decreases entries.len() - i,
    {
        out.push(format_selection(&entries[i]));
        i += 1;
    }
    proof {
        assert(texts(out@) =~= Seq::new(entries@.len(), |i: int| selection_line(entries@[i]@)));
    }
    out
}

/// Reads the path and the branch back from a chosen line.
pub fn read_selection(selection: &str) -> (r: Result<(String, String), SelectionError>)
    ensures
        match r {
            Ok(found) => path_in(selection@) == Some(found.0@) && branch_in(selection@) == Some(
                found.1@,
            ),
            Err(e) => (path_in(selection@) is None || branch_in(selection@) is None) && e
                == SelectionError::InvalidFormat,
        },
{
    let path = extract_path_from_selection(selection)?;
    let branch = extract_branch_from_selection(selection)?;
    Ok((path, branch))
}

/// A line that is offered reads back as the worktree it was made for,
/// where the path holds no ` (`: the path as it is, and the branch too where
/// it holds no `/`.
pub proof fn offered_line_reads_back(e: EntryView)
    requires
        !contains_text(e.path, path_opener()),
    ensures
        path_in(selection_line(e)) == Some(e.path),
        !e.branch.contains('/') ==> branch_in(selection_line(e)) == Some(e.branch),
{
    let line = selection_line(e);
    let opener = path_opener();
    let r = e.repo.len() as int;
    let k = r + 1 + e.branch.len();
    assert(line.subrange(k, k + 2) =~= opener);
    assert forall|j: int| k < j implies !occurs_at(line, opener, j) by {
        if occurs_at(line, opener, j) {
            assert(line.subrange(j, j + 2)[0] == ' ');
            assert(line.subrange(j, j + 2)[1] == '(');
            if j + 1 < k + 2 + e.path.len() && j >= k + 2 {
                assert(e.path.subrange(j - k - 2, j - k) =~= line.subrange(j, j + 2));
                assert(occurs_at(e.path, opener, j - k - 2));
            }
        }
    }
    lemma_rfind_text_is(line, opener, k);
    assert(line.subrange(k + 2, line.len() - 1) =~= e.path);
    if !e.branch.contains('/') {
        let slash = seq!['/'];
        let head = line.take(k);
        assert(head.subrange(r, r + 1) =~= slash);
        assert forall|j: int| r < j implies !occurs_at(head, slash, j) by {
            if occurs_at(head, slash, j) {
                assert(head.subrange(j, j + 1)[0] == '/');
                assert(head[j] == e.branch[j - r - 1]);
            }
        }
        lemma_rfind_text_is(head, slash, r);
        assert(line.subrange(r + 1, k) =~= e.branch);
    }
}

/// The prompt under which the worktrees are offered for removal.
pub open spec fn removal_prompt() -> Seq<char> {
    "Select worktree to remove:"@
}

/// The lines the worktrees are offered as, in order.
pub open spec fn offered_lines(entries: Seq<EntryView>) -> Seq<Seq<char>> {
    Seq::new(entries.len(), |i: int| selection_line(entries[i]))
}

/// What an answer of the provider comes to where a path and a branch are
/// read from it.  A failure is handed on as it is.  A line gives the path
/// and the branch read back from it, and fails as ill-formed where either
/// cannot be read.
pub open spec fn read_back(
    answer: Result<String, SelectionError>,
    r: Result<(String, String), ChooseError>,
) -> bool {
    match answer {
        Err(e) => r == Err::<(String, String), ChooseError>(ChooseError::Selection(e)),
        Ok(line) => match (path_in(line@), branch_in(line@)) {
            (Some(path), Some(branch)) => r matches Ok(found) && found.0@ == path && found.1@
                == branch,
            _ => r == Err::<(String, String), ChooseError>(
                ChooseError::Selection(SelectionError::InvalidFormat),
            ),
        },
    }
}

/// What choosing the worktree to remove comes to.  Where a mapping that
/// is needed cannot be read, that failure; without a worktree in scope,
/// the failure that says so, and only then; otherwise what the provider's
/// answer comes to when it offers the lines of the worktrees in scope
/// under the prompt for removal.
pub open spec fn chosen_for_removal<P: SelectionProvider>(
    provider: &P,
    s: StorageView,
    scope: Option<Seq<char>>,
    r: Result<(String, String), ChooseError>,
) -> bool {
    match catalog(s, scope) {
        None => r matches Err(ChooseError::Resolve(e)) && e is IoFailure,
        Some(entries) => if entries.len() == 0 {
            r == Err::<(String, String), ChooseError>(ChooseError::NoWorktrees)
        } else {
            exists|answer: Result<String, SelectionError>|
                provider.answers(removal_prompt(), offered_lines(entries), answer)
                    && #[trigger] read_back(answer, r)
        },
    }
}

/// Lets the provider choose the worktree to remove among the worktrees in
/// scope, and returns its path and branch as read from the chosen line.
/// Without a worktree in scope nothing is asked.
pub fn select_worktree_for_removal<P: SelectionProvider>(
    storage: &WorktreeStorage,
    scope: Option<&str>,
    provider: &P,
) -> (r: Result<(String, String), ChooseError>)
    ensures
        chosen_for_removal(provider, storage@, scope_of(scope), r),
{
    let entries = match get_available_worktrees(storage, scope) {
        Ok(entries) => entries,
        Err(e) => {
            return Err(ChooseError::Resolve(e));
        },
    };
    if entries.len() == 0 {
        assert(entry_views(entries@).len() == 0);
        return Err(ChooseError::NoWorktrees);
    }
    assert(entry_views(entries@).len() > 0);
    let options = selection_options(&entries);
    proof {
        assert(texts(options@) =~= offered_lines(entry_views(entries@)));
    }
    let answer = provider.select("Select worktree to remove:", options);
    let selection = match answer {
        Ok(line) => line,
        Err(e) => {
            let r = Err(ChooseError::Selection(e));
            assert(read_back(answer, r));
            return r;
        },
    };
    let r = match read_selection(selection.as_str()) {
        Ok(found) => Ok(found),
        Err(e) => Err(ChooseError::Selection(e)),
    };
    assert(read_back(answer, r));
    r
}

/// The worktree to remove: its path and the branch it is taken to belong
/// to.  A target that is given, unless the list was asked for, is resolved
/// against the store and the branches; otherwise the provider chooses from
/// the list.
pub fn removal_target<P: SelectionProvider>(
    target: Option<&str>,
    interactive: bool,
    storage: &WorktreeStorage,
    repo_name: &str,
    branches: Option<&Vec<String>>,
    scope: Option<&str>,
    provider: &P,
) -> (r: Result<(String, String), ChooseError>)
    ensures
        if chosen_from_list(target, interactive) {
            chosen_for_removal(provider, storage@, scope_of(scope), r)
        } else {
            match r {
                Ok(found) => resolution(
                    storage@,
                    repo_name@,
                    target.unwrap()@,
                    listed_branches(branches),
                ) == Ok::<(Seq<char>, Seq<char>), Failure>((found.0@, found.1@)),
                Err(ChooseError::Resolve(e)) => resolution(
                    storage@,
                    repo_name@,
                    target.unwrap()@,
                    listed_branches(branches),
                ) == Err::<(Seq<char>, Seq<char>), Failure>(e.kind()),
                Err(_) => false,
            }
        },
{
    match target {
        Some(name) => {
            if !interactive {
                return match resolve_target(name, storage, repo_name, branches) {
                    Ok(found) => Ok(found),
                    Err(e) => Err(ChooseError::Resolve(e)),
                };
            }
        },
        None => {},
    }
    select_worktree_for_removal(storage, scope, provider)
}

/// The branch a worktree belongs to: the branch its head points to where
/// that is known; else what the mapping records for its directory; else
/// the name it was asked for by.
pub open spec fn resolved_branch(
    s: StorageView,
    repo: Seq<char>,
    head: Option<Seq<char>>,
    path: Seq<char>,
    branch: Seq<char>,
) -> Seq<char> {
    match head {
        Some(name) => name,
        None => match s.original_branch_name(repo, directory_name(path, branch)) {
            Some(original) => original,
            None => branch,
        },
    }
}

/// The branch a worktree belongs to, given the branch its head points to,
/// if that could be read.
pub fn resolved_branch_name(
    head: Option<String>,
    storage: &WorktreeStorage,
    repo_name: &str,
    worktree_path: &str,
    branch_name: &str,
) -> (r: String)
    ensures
        r@ == resolved_branch(
            storage@,
            repo_name@,
            match head {
                Some(name) => Some(name@),
                None => None,
            },
            worktree_path@,
            branch_name@,
        ),
{
    match head {
        Some(name) => name,
        None => {
            let directory = worktree_directory_name(worktree_path, branch_name);
            match storage.get_original_branch_name(repo_name, directory.as_str()) {
                Ok(Some(original)) => original,
                Ok(None) => branch_name.to_owned(),
                Err(_) => {
                    proof {
                        crate::lists::lemma_first_where_none(
                            Seq::<Seq<char>>::empty(),
                            crate::registry::keyed(directory@),
                        );
                    }
                    branch_name.to_owned()
                },
            }
        },
    }
}

/// What removing a worktree did beyond the removal itself.
#[derive(Debug, Clone, PartialEq, Eq)]
pub struct RemovalReport {
    /// The name the worktree's record was removed under.
    pub worktree_name: String,
    /// Whether the origin table could be updated.
    pub origin_cleared: bool,
    /// Whether the branch was deleted; none where it was to be kept.
    pub branch_deleted: Option<bool>,
    /// Whether, after the branch was deleted, the mapping could be updated.
    pub mapping_cleared: bool,
}

/// The store after a worktree's directory is gone.
pub open spec fn after_directory(
    s: StorageView,
    repo: Seq<char>,
    path: Seq<char>,
    branch: Seq<char>,
) -> StorageView {
    s.without_directory(repo, directory_name(path, branch))
}

/// The store after a worktree's record and origin are gone.
pub open spec fn after_record(s: StorageView, repo: Seq<char>, path: Seq<char>, branch: Seq<char>)
    -> StorageView {
    after_directory(s, repo, path, branch).without_origin(repo, branch)
}

/// The store after the worktree's branch was deleted too.
pub open spec fn after_branch(s: StorageView, repo: Seq<char>, path: Seq<char>, branch: Seq<char>)
    -> StorageView {
    after_record(s, repo, path, branch).unmarked(repo, branch).without_mapping(repo, branch)
}

/// What follows the attempt to delete a worktree's branch.  Where the
/// branch was deleted, its managed flag is cleared and its mapping entries
/// are retired; where it was not, the store stays as it is.  The answer
/// says whether the mapping was cleared: it was where the branch was
/// deleted and the mapping could be read.
pub fn retire_branch(
    storage: &mut WorktreeStorage,
    repo_name: &str,
    branch_name: &str,
    deleted: bool,
) -> (mapping_cleared: bool)
    ensures
        final(storage)@ == if deleted {
            old(storage)@.unmarked(repo_name@, branch_name@).without_mapping(
                repo_name@,
                branch_name@,
            )
        } else {
            old(storage)@
        },
        mapping_cleared == (deleted && !(old(storage)@.repo(repo_name@).branch_mapping
            is Unreadable)),
{
    if deleted {
        proof {
            removals_keep_the_rest(storage@, repo_name@, branch_name@);
        }
        storage.unmark_branch_managed(repo_name, branch_name);
        storage.remove_branch_mapping(repo_name, branch_name).is_ok()
    } else {
        false
    }
}

/// Retires a worktree whose directory has been removed: removes its
/// record from git under the name of its directory, forgets its origin,
/// and, unless the branch is to be kept, deletes the branch and then
/// clears the branch's managed flag and mapping.
///
/// Whether the record's removal and the branch's deletion succeed is what
/// `git` answers.  Where removing the record fails, nothing but the
/// directory is forgotten and the failure is returned.  Where deleting the
/// branch fails, the flag and the mapping stay.  A table that cannot be
/// read stays as it is and is reported.
pub fn remove_worktree<G: GitOperations>(
    git: &G,
    storage: &mut WorktreeStorage,
    repo_name: &str,
    worktree_path: &str,
    branch_name: &str,
    preserve_branch: bool,
) -> (r: Result<RemovalReport, VcsError>)
    ensures
        match r {
            Ok(report) => {
                &&& report.worktree_name@ == directory_name(worktree_path@, branch_name@)
                &&& report.branch_deleted is None <==> preserve_branch
                &&& report.origin_cleared == !(old(storage)@.repo(repo_name@).origins
                    is Unreadable)
                &&& report.mapping_cleared == (report.branch_deleted == Some(true) && !(old(
                    storage,
                )@.repo(repo_name@).branch_mapping is Unreadable))
                &&& final(storage)@ == if report.branch_deleted == Some(true) {
                    after_branch(old(storage)@, repo_name@, worktree_path@, branch_name@)
                } else {
                    after_record(old(storage)@, repo_name@, worktree_path@, branch_name@)
                }
            },
            Err(_) => final(storage)@ == after_directory(
                old(storage)@,
                repo_name@,
                worktree_path@,
                branch_name@,
            ),
        },
{
    let worktree_name = worktree_directory_name(worktree_path, branch_name);
    storage.remove_directory(repo_name, worktree_name.as_str());
    git.remove_worktree(worktree_name.as_str())?;
    proof {
        removals_keep_the_rest(old(storage)@, repo_name@, worktree_name@);
        removals_keep_the_rest(storage@, repo_name@, branch_name@);
    }
    let origin_cleared = storage.remove_worktree_origin(repo_name, branch_name).is_ok();
    let mut branch_deleted: Option<bool> = None;
    let mut mapping_cleared = false;
    if !preserve_branch {
        let deleted = git.delete_branch(branch_name).is_ok();
        proof {
            removals_keep_the_rest(storage@, repo_name@, branch_name@);
        }
        mapping_cleared = retire_branch(storage, repo_name, branch_name, deleted);
        branch_deleted = Some(deleted);
    }
    Ok(RemovalReport { worktree_name, origin_cleared, branch_deleted, mapping_cleared })
}

} // verus!
