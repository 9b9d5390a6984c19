//! Reconciliation: finding and repairing drift between the branches and
//! worktree records of the version-control system, the registry, and the
//! directories that exist.

use crate::lists::{has_text, kept, lemma_kept_idempotent, lemma_kept_members, lemma_kept_none, lemma_kept_push};
use crate::paths::{file_name, path_file_name};
use crate::registry::{entry_of, split_entry};
use crate::sanitize::{sanitize, sanitized};
use crate::storage::files::{FileView, RegistryFile};
use crate::storage::repo::{RepoRegistry, RepoView};
use crate::storage::{lemma_with_repo_reads, named, StorageView, WorktreeStorage};
use crate::text::{
    chars_of, lines_of, matches_at, same_str, slice_of, split_lines, starts_with, string_of,
    texts,
};
use crate::traits::GitOperations;
use vstd::prelude::*;

verus! {

/// The branch names that reconciliation never deletes unless told
/// otherwise: `main` and `master`.
pub open spec fn default_protected() -> Seq<Seq<char>> {
    seq![seq!['m', 'a', 'i', 'n'], seq!['m', 'a', 's', 't', 'e', 'r']]
}

/// The branch names that reconciliation never deletes unless told
/// otherwise.
pub fn default_protected_branches() -> (r: Vec<String>)
    ensures
        texts(r@) == default_protected(),
{
    let main = "main";
    let master = "master";
    proof {
        reveal_strlit("main");
        reveal_strlit("master");
        assert(main@ =~= seq!['m', 'a', 'i', 'n']);
        assert(master@ =~= seq!['m', 'a', 's', 't', 'e', 'r']);
    }
    let r = vec![main.to_owned(), master.to_owned()];
    assert(texts(r@) =~= default_protected());
    r
}

/// Branches that are orphaned: not protected, and without a worktree
/// directory in the repository's storage.
pub open spec fn orphaned(s: StorageView, repo: Seq<char>, protected: Seq<Seq<char>>) -> spec_fn(
    Seq<char>,
) -> bool {
    |branch: Seq<char>| !protected.contains(branch) && !s.has_worktree(repo, branch)
}

/// Branches that are not orphaned.
pub open spec fn settled(s: StorageView, repo: Seq<char>, protected: Seq<Seq<char>>) -> spec_fn(
    Seq<char>,
) -> bool {
    |branch: Seq<char>| !orphaned(s, repo, protected)(branch)
}

/// The orphaned branches among `branches`, in order.
pub open spec fn orphans(
    s: StorageView,
    repo: Seq<char>,
    branches: Seq<Seq<char>>,
    protected: Seq<Seq<char>>,
) -> Seq<Seq<char>> {
    kept(branches, orphaned(s, repo, protected))
}

/// Mapping lines that are stale: entries whose canonical branch has no
/// worktree directory.
pub open spec fn stale(directories: Seq<Seq<char>>) -> spec_fn(Seq<char>) -> bool {
    |line: Seq<char>| entry_of(line) matches Some(e) && !directories.contains(sanitized(e.1))
}

/// Mapping lines that are not stale.
pub open spec fn live(directories: Seq<Seq<char>>) -> spec_fn(Seq<char>) -> bool {
    |line: Seq<char>| !stale(directories)(line)
}

/// The canonical branch names of the stale entries of a repository's
/// mapping, in order.
pub open spec fn stale_branches(r: RepoView) -> Seq<Seq<char>> {
    let lines = kept(r.branch_mapping.lines(), stale(r.directories));
    Seq::new(lines.len(), |i: int| entry_of(lines[i]).unwrap().1)
}

/// A repository with the stale entries dropped from its mapping; every
/// other line stays, in order.
pub open spec fn pruned_repo(r: RepoView) -> RepoView {
    match r.branch_mapping {
        FileView::Lines(lines) => r.with_branch_mapping(
            FileView::Lines(kept(lines, live(r.directories))),
        ),
        _ => r,
    }
}

/// The store with the stale entries dropped from a repository's mapping.
pub open spec fn pruned(s: StorageView, repo: Seq<char>) -> StorageView {
    if s.knows(repo) {
        s.with_repo(pruned_repo(s.repo(repo)))
    } else {
        s
    }
}

/// The orphaned branches among `branches`, in order.
pub fn orphaned_branches(
    storage: &WorktreeStorage,
    repo_name: &str,
    branches: &Vec<String>,
    protected: &Vec<String>,
) -> (r: Vec<String>)
    ensures
        texts(r@) == orphans(storage@, repo_name@, texts(branches@), texts(protected@)),
{
    let ghost all = texts(branches@);
    let ghost test = orphaned(storage@, repo_name@, texts(protected@));
    let mut out: Vec<String> = Vec::new();
    let mut i: usize = 0;
    proof {
        assert(all.take(0) =~= Seq::empty());
        assert(texts(out@) =~= Seq::empty());
    }
    while i < branches.len()
        invariant
            i <= branches.len(),
            all == texts(branches@),
            test == orphaned(storage@, repo_name@, texts(protected@)),
            texts(out@) == kept(all.take(i as int), test),
        decreases branches.len() - i,
    {
        proof {
            assert(all[i as int] == branches@[i as int]@);
            assert(all.take(i + 1) =~= all.take(i as int).push(all[i as int]));
            lemma_kept_push(all.take(i as int), all[i as int], test);
        }
        let name = branches[i].as_str();
        if !has_text(protected, name) && !storage.worktree_exists(repo_name, name) {
            let ghost before = out@;
            out.push(branches[i].clone());
            proof {
                assert(texts(out@) =~= texts(before).push(all[i as int]));
            }
        }
        i += 1;
    }
    proof {
        assert(all.take(branches.len() as int) =~= all);
    }
    out
}

impl RepoRegistry {
    /// Drops the stale entries from the branch mapping and returns the
    /// canonical branch names they held, in order.  Every other line stays.
    /// Nothing happens where the mapping is absent or cannot be read.
    pub fn prune_stale_mappings(&mut self) -> (r: Vec<String>)
        ensures
            final(self)@ == pruned_repo(old(self)@),
            texts(r@) == stale_branches(old(self)@),
    {
        let mut removed: Vec<String> = Vec::new();
        let ghost dirs = texts(self.directories@);
        proof {
            assert(texts(removed@) =~= Seq::empty());
        }
        match &mut self.branch_mapping {
            RegistryFile::Lines(lines) => {
                let ghost all = texts(lines@);
                let mut keep: Vec<String> = Vec::new();
                let mut i: usize = 0;
                proof {
                    assert(all.take(0) =~= Seq::empty());
                    assert(texts(keep@) =~= Seq::empty());
                }
                while i < lines.len()
                    invariant
                        i <= lines.len(),
                        all == texts(lines@),
                        dirs == texts(self.directories@),
                        texts(keep@) == kept(all.take(i as int), live(dirs)),
                        texts(removed@) == Seq::new(
                            kept(all.take(i as int), stale(dirs)).len(),
                            |k: int| entry_of(kept(all.take(i as int), stale(dirs))[k]).unwrap().1,
                        ),
                    decreases lines.len() - i,
                {
                    let ghost gone = kept(all.take(i as int), stale(dirs));
                    proof {
                        assert(all[i as int] == lines@[i as int]@);
                        assert(all.take(i + 1) =~= all.take(i as int).push(all[i as int]));
                        lemma_kept_push(all.take(i as int), all[i as int], live(dirs));
                        lemma_kept_push(all.take(i as int), all[i as int], stale(dirs));
                    }
                    let chars = chars_of(lines[i].as_str());
                    let is_stale = match split_entry(&chars) {
                        Some((_, value)) => {
                            let branch = string_of(&value);
                            let dir = sanitize(branch.as_str());
                            if has_text(&self.directories, dir.as_str()) {
                                false
                            } else {
                                let ghost before = texts(removed@);
                                removed.push(branch);
                                proof {
                                    assert(texts(removed@) =~= before.push(value@));
                                    let next = gone.push(all[i as int]);
                                    assert(Seq::new(
                                        next.len(),
                                        |k: int| entry_of(next[k]).unwrap().1,
                                    ) =~= before.push(value@));
                                }
                                true
                            }
                        },
                        None => false,
                    };
                    if !is_stale {
                        let ghost before = keep@;
                        keep.push(lines[i].clone());
                        proof {
                            assert(texts(keep@) =~= texts(before).push(all[i as int]));
                        }
                    }
                    i += 1;
                }
                proof {
                    assert(all.take(lines.len() as int) =~= all);
                }
                *lines = keep;
            },
            _ => {
                proof {
                    assert(kept(Seq::<Seq<char>>::empty(), stale(dirs)) =~= Seq::empty());
                    assert(stale_branches(self@) =~= Seq::empty());
                }
            },
        }
        removed
    }
}

impl WorktreeStorage {
    /// Drops the stale entries from a repository's branch mapping and
    /// returns the canonical branch names they held, in order.
    pub fn prune_stale_mappings(&mut self, repo_name: &str) -> (r: Vec<String>)
        ensures
            final(self)@ == pruned(old(self)@, repo_name@),
            texts(r@) == stale_branches(old(self)@.repo(repo_name@)),
    {
        let ghost start = self@;
        proof {
            crate::lists::lemma_first_where(start.repos, named(repo_name@));
        }
        match self.find_repo(repo_name) {
            Some(i) => {
                let removed = self.repos[i].prune_stale_mappings();
                proof {
                    let now = pruned_repo(start.repo(repo_name@));
                    assert(self@.repos =~= start.repos.update(i as int, now));
                    assert(self@ == start.with_repo(now));
                }
                removed
            },
            None => {
                let out: Vec<String> = Vec::new();
                proof {
                    let blank = RepoView::blank(repo_name@);
                    assert(kept(blank.branch_mapping.lines(), stale(blank.directories))
                        =~= Seq::empty());
                    assert(texts(out@) =~= stale_branches(blank));
                }
                out
            },
        }
    }
}

/// The text that begins the line of a worktree's path in the listing of
/// worktrees: `worktree` and a space.
pub open spec fn worktree_prefix() -> Seq<char> {
    seq!['w', 'o', 'r', 'k', 't', 'r', 'e', 'e', ' ']
}

/// The text that begins the line of a worktree's branch in the listing of
/// worktrees: `branch` and a space.
pub open spec fn branch_prefix() -> Seq<char> {
    seq!['b', 'r', 'a', 'n', 'c', 'h', ' ']
}

/// The paths of the worktrees with a branch among the lines from index
/// `at` on, where `current` is the path last read and not yet used.
pub open spec fn records_from(lines: Seq<Seq<char>>, at: int, current: Option<Seq<char>>) -> Seq<
    Seq<char>,
>
    decreases lines.len() - at,
{
    if at < 0 || at >= lines.len() {
        Seq::empty()
    } else if starts_with(lines[at], worktree_prefix()) {
        records_from(lines, at + 1, Some(lines[at].skip(9)))
    } else if starts_with(lines[at], branch_prefix()) {
        match current {
            Some(path) => seq![path] + records_from(lines, at + 1, None),
            None => records_from(lines, at + 1, None),
        }
    } else {
        records_from(lines, at + 1, current)
    }
}

/// The paths of the worktrees that have a branch, as the listing of
/// worktrees gives them: each path line that a branch line follows before
/// the next path line.
pub open spec fn recorded_paths(listing: Seq<char>) -> Seq<Seq<char>> {
    records_from(split_lines(listing), 0, None)
}

/// Reads the paths of the worktrees that have a branch from the listing
/// of worktrees that `git worktree list --porcelain` prints.
pub fn parse_worktree_list(listing: &str) -> (r: Vec<String>)
    ensures
        texts(r@) == recorded_paths(listing@),
{
    let lines = lines_of(listing);
    let ghost all = texts(lines@);
    let worktree = vec!['w', 'o', 'r', 'k', 't', 'r', 'e', 'e', ' '];
    let branch = vec!['b', 'r', 'a', 'n', 'c', 'h', ' '];
    proof {
        assert(worktree@ =~= worktree_prefix());
        assert(branch@ =~= branch_prefix());
        assert(texts(Seq::<String>::empty()) =~= Seq::<Seq<char>>::empty());
    }
    let mut out: Vec<String> = Vec::new();
    let mut current: Option<String> = None;
    let mut i: usize = 0;
    proof {
        assert(texts(out@) =~= Seq::empty());
    }
    while i < lines.len()
        invariant
            i <= lines.len(),
            all == texts(lines@),
            all == split_lines(listing@),
            worktree@ == worktree_prefix(),
            branch@ == branch_prefix(),
            recorded_paths(listing@) == texts(out@) + records_from(
                all,
                i as int,
                match current {
                    Some(p) => Some(p@),
                    None => None,
                },
            ),
        decreases lines.len() - i,
    {
        assert(all[i as int] == lines@[i as int]@);
        let chars = chars_of(lines[i].as_str());
        if matches_at(&chars, &worktree, 0) {
            let path = slice_of(&chars, 9, chars.len());
            proof {
                assert(path@ =~= all[i as int].skip(9));
            }
            current = Some(string_of(&path));
        } else if matches_at(&chars, &branch, 0) {
            match current {
                Some(path) => {
                    let ghost done = texts(out@);
                    let ghost tail = records_from(all, i + 1, None);
                    out.push(path);
                    proof {
                        assert(texts(out@) =~= done + seq![path@]);
                        assert(done + (seq![path@] + tail) =~= (done + seq![path@]) + tail);
                    }
                },
                None => {},
            }
            current = None;
        }
        i += 1;
    }
    out
}

/// A worktree on the version-control system's record: its path, and
/// whether that path exists on disk.
#[derive(Debug, Clone, PartialEq, Eq)]
pub struct WorktreeRecord {
    pub path: String,
    pub exists: bool,
}

/// A worktree record, as plain text.
pub struct RecordView {
    pub path: Seq<char>,
    pub exists: bool,
}

impl View for WorktreeRecord {
    type V = RecordView;

    open spec fn view(&self) -> RecordView {
        RecordView { path: self.path@, exists: self.exists }
    }
}

/// The views of a list of worktree records.
pub open spec fn record_views(v: Seq<WorktreeRecord>) -> Seq<RecordView> {
    Seq::new(v.len(), |i: int| v[i]@)
}

/// Records that dangle: the path does not exist, and is not the current
/// directory.
pub open spec fn dangling(current_dir: Seq<char>) -> spec_fn(RecordView) -> bool {
    |r: RecordView| !r.exists && r.path != current_dir
}

/// Records that do not dangle.
pub open spec fn anchored(current_dir: Seq<char>) -> spec_fn(RecordView) -> bool {
    |r: RecordView| !dangling(current_dir)(r)
}

/// The names under which to remove the dangling records among the first
/// `n`: the last component of each path that has one.
pub open spec fn dangling_names_upto(records: Seq<RecordView>, n: int, current_dir: Seq<char>)
    -> Seq<Seq<char>>
    decreases n,
{
    if n <= 0 {
        Seq::empty()
    } else {
        let rest = dangling_names_upto(records, n - 1, current_dir);
        let r = records[n - 1];
        if dangling(current_dir)(r) && file_name(r.path) is Some {
            rest.push(file_name(r.path).unwrap())
        } else {
            rest
        }
    }
}

/// The names under which to remove the dangling records.
pub open spec fn dangling_names(records: Seq<RecordView>, current_dir: Seq<char>) -> Seq<
    Seq<char>,
> {
    dangling_names_upto(records, records.len() as int, current_dir)
}

/// The names under which to remove the records whose path is gone and is
/// not the current directory: the last component of each path that has one.
pub fn orphaned_records(records: &Vec<WorktreeRecord>, current_dir: &str) -> (r: Vec<String>)
    ensures
        texts(r@) == dangling_names(record_views(records@), current_dir@),
{
    let ghost views = record_views(records@);
    let mut out: Vec<String> = Vec::new();
    let mut i: usize = 0;
    proof {
        assert(texts(out@) =~= Seq::empty());
    }
    while i < records.len()
        invariant
            i <= records.len(),
            views == record_views(records@),
            texts(out@) == dangling_names_upto(views, i as int, current_dir@),
        decreases records.len() - i,
    {
        assert(views[i as int] == records@[i as int]@);
        if !records[i].exists && !same_str(records[i].path.as_str(), current_dir) {
            match path_file_name(records[i].path.as_str()) {
                Some(name) => {
                    let ghost before = texts(out@);
                    out.push(name);
                    proof {
                        assert(texts(out@) =~= before.push(name@));
                    }
                },
                None => {},
            }
        }
        i += 1;
    }
    out
}

/// What was tried on one item, and whether it was done.
#[derive(Debug, Clone, PartialEq, Eq)]
pub struct Outcome {
    pub name: String,
    pub done: bool,
}

/// The names of a list of outcomes.
pub open spec fn outcome_names(v: Seq<Outcome>) -> Seq<Seq<char>> {
    Seq::new(v.len(), |i: int| v[i].name@)
}

/// What a reconciliation run did.
#[derive(Debug, Clone, PartialEq, Eq)]
pub struct CleanupReport {
    /// Each orphaned branch, and whether it was deleted.
    pub branches: Vec<Outcome>,
    /// The canonical branch names of the mapping entries dropped.
    pub cleaned_mappings: Vec<String>,
    /// Whether the branch mapping was there but could not be read.
    pub mapping_unreadable: bool,
    /// Each dangling worktree record, and whether it was removed.
    pub records: Vec<Outcome>,
}

/// The names of the outcomes that were done, in order.
pub open spec fn done_names(v: Seq<Outcome>) -> Seq<Seq<char>>
    decreases v.len(),
{
    if v.len() == 0 {
        Seq::empty()
    } else {
        let rest = done_names(v.drop_last());
        if v.last().done {
            rest.push(v.last().name@)
        } else {
            rest
        }
    }
}

/// The store after the managed flags of the branches `names` are cleared.
pub open spec fn cleared(s: StorageView, repo: Seq<char>, names: Seq<Seq<char>>) -> StorageView
    decreases names.len(),
{
    if names.len() == 0 {
        s
    } else {
        cleared(s, repo, names.drop_last()).unmarked(repo, names.last())
    }
}

/// Clearing managed flags leaves the mapping, the origins and the
/// directories of the repository as they were.
pub proof fn lemma_cleared_keeps_the_rest(s: StorageView, repo: Seq<char>, names: Seq<Seq<char>>)
    ensures
        cleared(s, repo, names).repo(repo).branch_mapping == s.repo(repo).branch_mapping,
        cleared(s, repo, names).repo(repo).origins == s.repo(repo).origins,
        cleared(s, repo, names).repo(repo).directories == s.repo(repo).directories,
    decreases names.len(),
{
    if names.len() > 0 {
        lemma_cleared_keeps_the_rest(s, repo, names.drop_last());
        crate::storage::laws::removals_keep_the_rest(
            cleared(s, repo, names.drop_last()),
            repo,
            names.last(),
        );
    }
}

/// What follows the attempt to delete an orphaned branch: where the
/// branch was deleted its managed flag is cleared; where it was not, the
/// store stays as it is.
pub fn forget_deleted_branch(
    storage: &mut WorktreeStorage,
    repo_name: &str,
    branch_name: &str,
    deleted: bool,
)
    ensures
        final(storage)@ == if deleted {
            old(storage)@.unmarked(repo_name@, branch_name@)
        } else {
            old(storage)@
        },
{
    if deleted {
        storage.unmark_branch_managed(repo_name, branch_name);
    }
}

/// Runs the three repairs, each on its own and none stopping another:
/// tries to delete every orphaned branch, and clears the managed flag of
/// each branch that was deleted; drops the stale entries from the branch
/// mapping; and tries to remove every dangling worktree record.  No
/// worktree's files are touched.  Whether a deletion or removal was done is
/// what the version-control layer answered.
pub fn cleanup_worktrees<G: GitOperations>(
    git: &G,
    storage: &mut WorktreeStorage,
    repo_name: &str,
    branches: &Vec<String>,
    protected: &Vec<String>,
    records: &Vec<WorktreeRecord>,
    current_dir: &str,
) -> (report: CleanupReport)
    ensures
        final(storage)@ == pruned(
            cleared(old(storage)@, repo_name@, done_names(report.branches@)),
            repo_name@,
        ),
        outcome_names(report.branches@) == orphans(
            old(storage)@,
            repo_name@,
            texts(branches@),
            texts(protected@),
        ),
        texts(report.cleaned_mappings@) == stale_branches(old(storage)@.repo(repo_name@)),
        report.mapping_unreadable == (old(storage)@.repo(repo_name@).branch_mapping is Unreadable),
        outcome_names(report.records@) == dangling_names(
            record_views(records@),
            current_dir@,
        ),
{
    let doomed = orphaned_branches(storage, repo_name, branches, protected);
    let mut branch_outcomes: Vec<Outcome> = Vec::new();
    let mut i: usize = 0;
    while i < doomed.len()
        invariant
            i <= doomed.len(),
            branch_outcomes@.len() == i,
            forall|j: int| 0 <= j < i ==> (#[trigger] branch_outcomes@[j]).name@ == doomed@[j]@,
            storage@ == cleared(old(storage)@, repo_name@, done_names(branch_outcomes@)),
        decreases doomed.len() - i,
    {
        let done = git.delete_branch(doomed[i].as_str()).is_ok();
        forget_deleted_branch(storage, repo_name, doomed[i].as_str(), done);
        let ghost before = branch_outcomes@;
        branch_outcomes.push(Outcome { name: doomed[i].clone(), done });
        proof {
            assert(branch_outcomes@.drop_last() =~= before);
            if done {
                assert(done_names(branch_outcomes@).drop_last() =~= done_names(before));
            }
        }
        i += 1;
    }
    proof {
        assert(outcome_names(branch_outcomes@) =~= texts(doomed@));
        lemma_cleared_keeps_the_rest(old(storage)@, repo_name@, done_names(branch_outcomes@));
    }
    let mapping_unreadable = match storage.get_original_branch_name(repo_name, "") {
        Ok(_) => false,
        Err(_) => true,
    };
    let cleaned_mappings = storage.prune_stale_mappings(repo_name);
    let stray = orphaned_records(records, current_dir);
    let mut record_outcomes: Vec<Outcome> = Vec::new();
    let mut k: usize = 0;
    while k < stray.len()
        invariant
            k <= stray.len(),
            record_outcomes@.len() == k,
            forall|j: int| 0 <= j < k ==> (#[trigger] record_outcomes@[j]).name@ == stray@[j]@,
        decreases stray.len() - k,
    {
        let done = git.remove_worktree(stray[k].as_str()).is_ok();
        record_outcomes.push(Outcome { name: stray[k].clone(), done });
        k += 1;
    }
    proof {
        assert(outcome_names(record_outcomes@) =~= texts(stray@));
    }
    CleanupReport {
        branches: branch_outcomes,
        cleaned_mappings,
        mapping_unreadable,
        records: record_outcomes,
    }
}

/// Pruning leaves a repository's directories and name as they were.
pub proof fn lemma_pruned_keeps_directories(s: StorageView, repo: Seq<char>)
    ensures
        pruned(s, repo).repo(repo).directories == s.repo(repo).directories,
        pruned(s, repo).knows(repo) == s.knows(repo),
        pruned(s, repo).repo(repo) == pruned_repo(s.repo(repo)),
{
    crate::lists::lemma_first_where(s.repos, named(repo));
    if s.knows(repo) {
        lemma_with_repo_reads(s, pruned_repo(s.repo(repo)), repo);
    }
}

/// A second run right after a first finds nothing left to do.  Where the
/// first run deleted the branches `deleted`, the store it left has no stale
/// entry in the mapping, and a run that deletes nothing leaves it as it is;
/// of the branches that were not orphaned none is orphaned now; of the
/// records that did not dangle none dangles now.
pub proof fn second_run_changes_nothing(
    s: StorageView,
    repo: Seq<char>,
    branches: Seq<Seq<char>>,
    protected: Seq<Seq<char>>,
    records: Seq<RecordView>,
    current_dir: Seq<char>,
    deleted: Seq<Seq<char>>,
)
    ensures
        ({
            let after = pruned(cleared(s, repo, deleted), repo);
            &&& pruned(cleared(after, repo, Seq::empty()), repo) == after
            &&& stale_branches(after.repo(repo)) == Seq::<Seq<char>>::empty()
            &&& orphans(after, repo, kept(branches, settled(s, repo, protected)), protected)
                == Seq::<Seq<char>>::empty()
            &&& dangling_names(kept(records, anchored(current_dir)), current_dir) == Seq::<
                Seq<char>,
            >::empty()
        }),
{
    let first = cleared(s, repo, deleted);
    let after = pruned(first, repo);
    let r = first.repo(repo);
    lemma_cleared_keeps_the_rest(s, repo, deleted);
    lemma_pruned_keeps_directories(first, repo);
    lemma_pruned_keeps_directories(after, repo);
    // The mapping.
    match r.branch_mapping {
        FileView::Lines(lines) => {
            lemma_kept_idempotent(lines, live(r.directories));
            lemma_kept_members(lines, live(r.directories));
            lemma_kept_none(kept(lines, live(r.directories)), stale(r.directories));
        },
        _ => {
            assert(kept(Seq::<Seq<char>>::empty(), stale(r.directories)) =~= Seq::empty());
        },
    }
    assert(pruned_repo(pruned_repo(r)) == pruned_repo(r));
    assert(stale_branches(pruned_repo(r)) =~= Seq::<Seq<char>>::empty());
    if first.knows(repo) {
        crate::storage::lemma_with_repo_twice(first, pruned_repo(r), pruned_repo(r));
    }
    // The branches.
    let rest = kept(branches, settled(s, repo, protected));
    lemma_kept_members(branches, settled(s, repo, protected));
    assert forall|i: int| 0 <= i < rest.len() implies !orphaned(after, repo, protected)(
        #[trigger] rest[i],
    ) by {
        assert(settled(s, repo, protected)(rest[i]));
    }
    lemma_kept_none(rest, orphaned(after, repo, protected));
    // The records.
    let held = kept(records, anchored(current_dir));
    lemma_kept_members(records, anchored(current_dir));
    lemma_no_dangling_names(held, held.len() as int, current_dir);
}

/// Names that are not among `names`.
pub open spec fn not_among(names: Seq<Seq<char>>) -> spec_fn(Seq<char>) -> bool {
    |name: Seq<char>| !names.contains(name)
}

/// A second run tries again only what the first could not do.  Where the
/// first run deleted the branches `deleted` and they are gone from the
/// list of branches, the orphaned branches of the second run are the
/// orphaned branches of the first that were not deleted, in order.
pub proof fn second_run_retries_what_failed(
    s: StorageView,
    repo: Seq<char>,
    branches: Seq<Seq<char>>,
    protected: Seq<Seq<char>>,
    deleted: Seq<Seq<char>>,
)
    ensures
        orphans(
            pruned(cleared(s, repo, deleted), repo),
            repo,
            kept(branches, not_among(deleted)),
            protected,
        ) == kept(orphans(s, repo, branches, protected), not_among(deleted)),
{
    let first = cleared(s, repo, deleted);
    let after = pruned(first, repo);
    let left = kept(branches, not_among(deleted));
    lemma_cleared_keeps_the_rest(s, repo, deleted);
    lemma_pruned_keeps_directories(first, repo);
    assert forall|i: int| 0 <= i < left.len() implies orphaned(after, repo, protected)(
        #[trigger] left[i],
    ) == orphaned(s, repo, protected)(left[i]) by {}
    crate::lists::lemma_kept_agree(
        left,
        orphaned(after, repo, protected),
        orphaned(s, repo, protected),
    );
    crate::lists::lemma_kept_commutes(branches, not_among(deleted), orphaned(s, repo, protected));
}

/// Records none of which dangles give no name to remove.
pub proof fn lemma_no_dangling_names(records: Seq<RecordView>, n: int, current_dir: Seq<char>)
    requires
        n <= records.len(),
        forall|i: int| 0 <= i < records.len() ==> anchored(current_dir)(#[trigger] records[i]),
    ensures
        dangling_names_upto(records, n, current_dir) == Seq::<Seq<char>>::empty(),
    decreases n,
{
    if n > 0 {
        lemma_no_dangling_names(records, n - 1, current_dir);
        assert(anchored(current_dir)(records[n - 1]));
    }
}

} // verus!
