//! The worktrees the store knows, under the names shown to the user, and
//! finding one of them by a name or a part of a name.

use crate::lists::{first_where, kept, lemma_first_where_is, lemma_first_where_none, lemma_kept_push};
use crate::paths::joined;
use crate::resolve::{Candidate, ResolveError};
use crate::sanitize::{sanitize, sanitized};
use crate::selection::SelectionError;
use crate::storage::repo::{RepoRegistry, RepoView};
use crate::storage::{StorageView, WorktreeStorage};
use crate::text::{chars_of, contains_in, contains_text, same_str, texts};
use vstd::prelude::*;

verus! {

/// One worktree as it is shown: its repository, the branch name displayed
/// for it, and its directory.
#[derive(Debug, Clone, PartialEq, Eq)]
pub struct WorktreeEntry {
    pub repo: String,
    pub branch: String,
    pub path: String,
}

/// Why choosing among the worktrees failed.
#[derive(Debug, Clone, PartialEq, Eq)]
pub enum ChooseError {
    /// The worktrees could not be listed.
    Resolve(ResolveError),
    /// There is no worktree to choose from.
    NoWorktrees,
    /// Asking failed, or the answer could not be read.
    Selection(SelectionError),
}

/// A shown worktree, as plain text.
pub struct EntryView {
    pub repo: Seq<char>,
    pub branch: Seq<char>,
    pub path: Seq<char>,
}

impl View for WorktreeEntry {
    type V = EntryView;

    open spec fn view(&self) -> EntryView {
        EntryView { repo: self.repo@, branch: self.branch@, path: self.path@ }
    }
}

/// The views of a list of shown worktrees.
pub open spec fn entry_views(v: Seq<WorktreeEntry>) -> Seq<EntryView> {
    Seq::new(v.len(), |i: int| v[i]@)
}

/// The views of a list of candidates: repository and branch.
pub open spec fn candidate_views(v: Seq<Candidate>) -> Seq<(Seq<char>, Seq<char>)> {
    Seq::new(v.len(), |i: int| (v[i].repo@, v[i].branch@))
}

/// The name shown for a worktree directory: the canonical name the
/// mapping records for it, or the directory's own name.
pub open spec fn display_name(r: RepoView, dir: Seq<char>) -> Seq<char> {
    match r.branch_mapping.get(dir) {
        Some(canonical) => canonical,
        None => dir,
    }
}

/// The worktree directory `dir` of the repository `r`, as it is shown.
pub open spec fn entry_for(root: Seq<char>, r: RepoView, dir: Seq<char>) -> EntryView {
    EntryView {
        repo: r.name,
        branch: display_name(r, dir),
        path: joined(joined(root, r.name), sanitized(dir)),
    }
}

/// Directory names whose worktree path leads to one of `directories`: the
/// sanitized form of the name is among them.
pub open spec fn reachable(directories: Seq<Seq<char>>) -> spec_fn(Seq<char>) -> bool {
    |dir: Seq<char>| directories.contains(sanitized(dir))
}

/// The worktree directories of a repository that are shown: those whose
/// worktree path leads to a directory that exists.  A directory whose name
/// holds an unsafe character is left out unless the directory of its
/// sanitized name exists too.
pub open spec fn listed(r: RepoView) -> Seq<Seq<char>> {
    kept(r.worktrees(), reachable(r.directories))
}

/// The worktrees of one repository, as they are shown.
pub open spec fn repo_entries(root: Seq<char>, r: RepoView) -> Seq<EntryView> {
    Seq::new(listed(r).len(), |i: int| entry_for(root, r, listed(r)[i]))
}

/// Whether showing the repository's worktrees needs a mapping that cannot
/// be read.
pub open spec fn blocked(r: RepoView) -> bool {
    r.branch_mapping is Unreadable && listed(r).len() > 0
}

/// The worktrees of the first `n` repositories of the store.
pub open spec fn entries_upto(s: StorageView, n: int) -> Seq<EntryView>
    decreases n,
{
    if n <= 0 {
        Seq::empty()
    } else {
        entries_upto(s, n - 1) + repo_entries(s.root_dir, s.repos[n - 1])
    }
}

/// Whether one of the first `n` repositories is blocked.
pub open spec fn blocked_upto(s: StorageView, n: int) -> bool {
    exists|i: int| 0 <= i < n && blocked(#[trigger] s.repos[i])
}

/// The worktrees in scope: those of one repository, or of every
/// repository in stored order.  None where a mapping that is needed cannot
/// be read.
pub open spec fn catalog(s: StorageView, scope: Option<Seq<char>>) -> Option<Seq<EntryView>> {
    match scope {
        Some(repo) => if blocked(s.repo(repo)) {
            None
        } else {
            Some(repo_entries(s.root_dir, s.repo(repo)))
        },
        None => if blocked_upto(s, s.repos.len() as int) {
            None
        } else {
            Some(entries_upto(s, s.repos.len() as int))
        },
    }
}

/// The scope as plain text: one repository, or all.
pub open spec fn scope_of(scope: Option<&str>) -> Option<Seq<char>> {
    match scope {
        Some(repo) => Some(repo@),
        None => None,
    }
}

/// Entries shown under exactly the name `target`.
pub open spec fn shown_as(target: Seq<char>) -> spec_fn(EntryView) -> bool {
    |e: EntryView| e.branch == target
}

/// Entries whose shown name holds `target`.
pub open spec fn shown_with(target: Seq<char>) -> spec_fn(EntryView) -> bool {
    |e: EntryView| contains_text(e.branch, target)
}

/// The repository and branch of each entry.
pub open spec fn identities(entries: Seq<EntryView>) -> Seq<(Seq<char>, Seq<char>)> {
    Seq::new(entries.len(), |i: int| (entries[i].repo, entries[i].branch))
}

/// The one entry `target` selects among `entries`: the first shown under
/// exactly that name; failing that, the only one whose name holds it.
pub open spec fn selected(entries: Seq<EntryView>, target: Seq<char>) -> Option<EntryView> {
    match first_where(entries, shown_as(target)) {
        Some(i) => Some(entries[i]),
        None => {
            let partial = kept(entries, shown_with(target));
            if partial.len() == 1 {
                Some(partial[0])
            } else {
                None
            }
        },
    }
}

/// The worktree directories of a repository that are shown, in order.
pub fn listed_worktrees(r: &RepoRegistry) -> (dirs: Vec<String>)
    ensures
        texts(dirs@) == listed(r@),
{
    let all = r.worktrees();
    let ghost names = texts(all@);
    let mut out: Vec<String> = Vec::new();
    let mut i: usize = 0;
    proof {
        assert(names.take(0) =~= Seq::empty());
        assert(texts(out@) =~= Seq::empty());
    }
    while i < all.len()
        invariant
            i <= all.len(),
            names == texts(all@),
            names == r@.worktrees(),
            texts(out@) == kept(names.take(i as int), reachable(r@.directories)),
        decreases all.len() - i,
    {
        proof {
            assert(names[i as int] == all@[i as int]@);
            assert(names.take(i + 1) =~= names.take(i as int).push(names[i as int]));
            lemma_kept_push(names.take(i as int), names[i as int], reachable(r@.directories));
        }
        let safe = sanitize(all[i].as_str());
        if r.has_directory(safe.as_str()) {
            let ghost before = texts(out@);
            out.push(all[i].clone());
            proof {
                assert(texts(out@) =~= before.push(names[i as int]));
            }
        }
        i += 1;
    }
    proof {
        assert(names.take(all.len() as int) =~= names);
    }
    out
}

/// Appends the shown worktrees of one repository to `out`.  Fails, leaving
/// only what was there, exactly where the repository is blocked.
fn push_repo_entries(storage: &WorktreeStorage, r: &RepoRegistry, out: &mut Vec<WorktreeEntry>) -> (ok:
    bool)
    ensures
        ok == !blocked(r@),
        ok ==> entry_views(final(out)@) == entry_views(old(out)@) + repo_entries(
            storage@.root_dir,
            r@,
        ),
{
    let dirs = listed_worktrees(r);
    let ghost start = entry_views(out@);
    let ghost shown = repo_entries(storage@.root_dir, r@);
    let mut i: usize = 0;
    proof {
        assert(start + shown.take(0) =~= start);
    }
    while i < dirs.len()
        invariant
            i <= dirs.len(),
            texts(dirs@) == listed(r@),
            shown == repo_entries(storage@.root_dir, r@),
            entry_views(out@) == start + shown.take(i as int),
        decreases dirs.len() - i,
    {
        assert(texts(dirs@)[i as int] == dirs@[i as int]@);
        let mapped = match r.branch_mapping.get(dirs[i].as_str()) {
            Ok(found) => found,
            Err(_) => {
                return false;
            },
        };
        let branch = match mapped {
            Some(canonical) => canonical,
            None => dirs[i].clone(),
        };
        let path = storage.get_worktree_path(r.name.as_str(), dirs[i].as_str());
        let ghost before = entry_views(out@);
        out.push(WorktreeEntry { repo: r.name.clone(), branch, path });
        proof {
            assert(entry_views(out@) =~= before.push(shown[i as int]));
            assert(shown.take(i + 1) =~= shown.take(i as int).push(shown[i as int]));
            assert(start + shown.take(i + 1) =~= (start + shown.take(i as int)).push(
                shown[i as int],
            ));
        }
        i += 1;
    }
    proof {
        assert(shown.take(dirs.len() as int) =~= shown);
    }
    !matches!(r.branch_mapping, crate::storage::files::RegistryFile::Unreadable) || dirs.len() == 0
}

/// The worktrees in scope, as they are shown: those of the repository
/// `scope`, or of every repository.  Fails with `IoFailure` exactly where a
/// mapping that is needed cannot be read.
pub fn get_available_worktrees(storage: &WorktreeStorage, scope: Option<&str>) -> (r: Result<
    Vec<WorktreeEntry>,
    ResolveError,
>)
    ensures
        match r {
            Ok(entries) => catalog(
                storage@,
                match scope {
                    Some(repo) => Some(repo@),
                    None => None,
                },
            ) == Some(entry_views(entries@)),
            Err(e) => e is IoFailure && catalog(
                storage@,
                match scope {
                    Some(repo) => Some(repo@),
                    None => None,
                },
            ) is None,
        },
{
    let mut out: Vec<WorktreeEntry> = Vec::new();
    proof {
        assert(entry_views(out@) =~= Seq::empty());
    }
    match scope {
        Some(repo) => {
            match storage.repo(repo) {
                Some(found) => {
                    if !push_repo_entries(storage, found, &mut out) {
                        return Err(ResolveError::IoFailure);
                    }
                    proof {
                        assert(Seq::<EntryView>::empty() + repo_entries(storage@.root_dir, found@)
                            =~= repo_entries(storage@.root_dir, found@));
                    }
                },
                None => {
                    proof {
                        let blank = RepoView::blank(repo@);
                        assert(blank.worktrees() =~= Seq::empty());
                        assert(repo_entries(storage@.root_dir, blank) =~= Seq::empty());
                    }
                },
            }
        },
        None => {
            let mut i: usize = 0;
            while i < storage.repos.len()
                invariant
                    i <= storage.repos.len(),
                    scope is None,
                    !blocked_upto(storage@, i as int),
                    entry_views(out@) == entries_upto(storage@, i as int),
                decreases storage.repos.len() - i,
            {
                assert(storage@.repos[i as int] == storage.repos@[i as int]@);
                if !push_repo_entries(storage, &storage.repos[i], &mut out) {
                    proof {
                        assert(blocked(storage@.repos[i as int]));
                        assert(storage@.repos.len() == storage.repos.len());
                        assert(blocked_upto(storage@, storage@.repos.len() as int));
                    }
                    return Err(ResolveError::IoFailure);
                }
                i += 1;
            }
        },
    }
    Ok(out)
}

/// The names shown for the worktrees in scope, one for each worktree.
pub fn list_worktree_completions(storage: &WorktreeStorage, scope: Option<&str>) -> (r: Result<
    Vec<String>,
    ResolveError,
>)
    ensures
        match r {
            Ok(names) => catalog(
                storage@,
                match scope {
                    Some(repo) => Some(repo@),
                    None => None,
                },
            ) matches Some(entries) && texts(names@) == Seq::new(
                entries.len(),
                |i: int| entries[i].branch,
            ),
            Err(e) => e is IoFailure && catalog(
                storage@,
                match scope {
                    Some(repo) => Some(repo@),
                    None => None,
                },
            ) is None,
        },
{
    let entries = get_available_worktrees(storage, scope)?;
    let mut names: Vec<String> = Vec::new();
    let mut i: usize = 0;
    while i < entries.len()
        invariant
            i <= entries.len(),
            names@.len() == i,
            forall|j: int| 0 <= j < i ==> names@[j]@ == entries@[j]@.branch,
        decreases entries.len() - i,
    {
        names.push(entries[i].branch.clone());
        i += 1;
    }
    proof {
        let views = entry_views(entries@);
        assert(texts(names@) =~= Seq::new(views.len(), |i: int| views[i].branch));
    }
    Ok(names)
}

/// Picks the worktree that `target` names among `entries`: the first whose
/// shown name is exactly `target`; failing that, the one whose shown name
/// holds `target`.  Without any the target is not found; with several
/// holding it the failure lists every one of them, in order.
pub fn select_by_name(entries: &Vec<WorktreeEntry>, target: &str) -> (r: Result<
    String,
    ResolveError,
>)
    ensures
        match r {
            Ok(path) => selected(entry_views(entries@), target@) matches Some(e) && e.path
                == path@,
            Err(e) => selected(entry_views(entries@), target@) is None && match e {
                ResolveError::NotFound => kept(entry_views(entries@), shown_with(target@)).len()
                    == 0,
                ResolveError::Ambiguous(candidates) => candidate_views(candidates@) == identities(
                    kept(entry_views(entries@), shown_with(target@)),
                ) && candidates@.len() > 1,
                _ => false,
            },
        },
{
    let ghost views = entry_views(entries@);
    let mut i: usize = 0;
    while i < entries.len()
        invariant
            i <= entries.len(),
            views == entry_views(entries@),
            forall|j: int| 0 <= j < i ==> !shown_as(target@)(#[trigger] views[j]),
        decreases entries.len() - i,
    {
        assert(views[i as int] == entries@[i as int]@);
        if same_str(entries[i].branch.as_str(), target) {
            proof {
                lemma_first_where_is(views, shown_as(target@), i as int);
            }
            return Ok(entries[i].path.clone());
        }
        i += 1;
    }
    proof {
        lemma_first_where_none(views, shown_as(target@));
    }
    let pattern = chars_of(target);
    let mut candidates: Vec<Candidate> = Vec::new();
    let mut only: Option<String> = None;
    let mut k: usize = 0;
    proof {
        assert(views.take(0) =~= Seq::empty());
        assert(candidate_views(candidates@) =~= identities(Seq::empty()));
    }
    while k < entries.len()
        invariant
            k <= entries.len(),
            views == entry_views(entries@),
            pattern@ == target@,
            candidate_views(candidates@) == identities(
                kept(views.take(k as int), shown_with(target@)),
            ),
            candidates@.len() == kept(views.take(k as int), shown_with(target@)).len(),
            candidates@.len() > 0 ==> (only matches Some(p) && p@ == kept(
                views.take(k as int),
                shown_with(target@),
            )[0].path),
        decreases entries.len() - k,
    {
        let ghost sofar = kept(views.take(k as int), shown_with(target@));
        proof {
            assert(views[k as int] == entries@[k as int]@);
            assert(views.take(k + 1) =~= views.take(k as int).push(views[k as int]));
            lemma_kept_push(views.take(k as int), views[k as int], shown_with(target@));
        }
        let name = chars_of(entries[k].branch.as_str());
        if contains_in(&name, &pattern) {
            if candidates.len() == 0 {
                only = Some(entries[k].path.clone());
            }
            let ghost before = candidate_views(candidates@);
            candidates.push(
                Candidate { repo: entries[k].repo.clone(), branch: entries[k].branch.clone() },
            );
            proof {
                assert(candidate_views(candidates@) =~= before.push(
                    (views[k as int].repo, views[k as int].branch),
                ));
                assert(identities(sofar.push(views[k as int])) =~= identities(sofar).push(
                    (views[k as int].repo, views[k as int].branch),
                ));
            }
        }
        k += 1;
    }
    proof {
        assert(views.take(entries.len() as int) =~= views);
    }
    if candidates.len() == 0 {
        Err(ResolveError::NotFound)
    } else if candidates.len() == 1 {
        match only {
            Some(path) => Ok(path),
            None => Err(ResolveError::NotFound),
        }
    } else {
        Err(ResolveError::Ambiguous(candidates))
    }
}

/// Finds the directory of the worktree that `target` names among the
/// worktrees in scope.
pub fn find_worktree_by_name(storage: &WorktreeStorage, target: &str, scope: Option<&str>) -> (r:
    Result<String, ResolveError>)
    ensures
        match catalog(
            storage@,
            match scope {
                Some(repo) => Some(repo@),
                None => None,
            },
        ) {
            None => r matches Err(e) && e is IoFailure,
            Some(entries) => match r {
                Ok(path) => selected(entries, target@) matches Some(e) && e.path == path@,
                Err(e) => selected(entries, target@) is None && match e {
                    ResolveError::NotFound => kept(entries, shown_with(target@)).len() == 0,
                    ResolveError::Ambiguous(candidates) => candidate_views(candidates@)
                        == identities(kept(entries, shown_with(target@))) && candidates@.len() > 1,
                    _ => false,
                },
            },
        },
{
    let entries = get_available_worktrees(storage, scope)?;
    select_by_name(&entries, target)
}

} // verus!
