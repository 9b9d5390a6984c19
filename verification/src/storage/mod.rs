//! The registry store: for each repository, its worktree directories, its
//! branch-name mapping, its origin table and its managed-branch markers,
//! held as one value under a storage root.
//!
//! The value holds what was found on disk when the store was read: for
//! each repository directory the names of its subdirectories, the lines of
//! its two registry files, and the names of its marker files.  Operations
//! change the value; whoever read it writes the changes back.  A directory
//! exists for the store exactly where its name is listed.

pub mod files;
pub mod laws;
pub mod repo;

use crate::lists::{
    add_text, first_where, remove_text, with_text, without_text, lemma_first_where, lemma_first_where_is, lemma_first_where_none,
    lemma_first_where_push,
};
use crate::paths::{file_name, join, joined, path_file_name};
use crate::sanitize::{sanitize, sanitized};
use crate::storage::files::StorageError;
use crate::storage::repo::{markers_dir, markers_dir_name, RepoRegistry, RepoView};
use crate::text::{same_str, texts};
use vstd::prelude::*;

verus! {

/// The store: a root directory and what is stored for each repository.
#[derive(Debug, Clone)]
pub struct WorktreeStorage {
    /// The storage root.
    pub root_dir: String,
    /// One entry for each repository directory under the root.
    pub repos: Vec<RepoRegistry>,
}

/// The store as plain text.
pub struct StorageView {
    pub root_dir: Seq<char>,
    pub repos: Seq<RepoView>,
}

/// The views of a list of repositories.
pub open spec fn repo_views(repos: Seq<RepoRegistry>) -> Seq<RepoView> {
    Seq::new(repos.len(), |i: int| repos[i]@)
}

/// A listing of repositories with their worktrees, as plain text.
pub open spec fn listing_view(v: Seq<(String, Vec<String>)>) -> Seq<(Seq<char>, Seq<Seq<char>>)> {
    Seq::new(v.len(), |i: int| (v[i].0@, texts(v[i].1@)))
}

/// Repositories called `name`.
pub open spec fn named(name: Seq<char>) -> spec_fn(RepoView) -> bool {
    |r: RepoView| r.name == name
}

impl View for WorktreeStorage {
    type V = StorageView;

    open spec fn view(&self) -> StorageView {
        StorageView { root_dir: self.root_dir@, repos: repo_views(self.repos@) }
    }
}

impl StorageView {
    /// Where the repository called `name` stands in the store.
    pub open spec fn index_of(self, name: Seq<char>) -> Option<int> {
        first_where(self.repos, named(name))
    }

    /// Whether the store has a directory for the repository `name`.
    pub open spec fn knows(self, name: Seq<char>) -> bool {
        self.index_of(name) is Some
    }

    /// What is stored for the repository `name`: nothing yet where the store
    /// has no directory for it.
    pub open spec fn repo(self, name: Seq<char>) -> RepoView {
        match self.index_of(name) {
            Some(i) => self.repos[i],
            None => RepoView::blank(name),
        }
    }

    /// The storage directory of a repository.
    pub open spec fn repo_dir(self, repo: Seq<char>) -> Seq<char> {
        joined(self.root_dir, repo)
    }

    /// The directory of the worktree for a branch.
    pub open spec fn worktree_path(self, repo: Seq<char>, branch: Seq<char>) -> Seq<char> {
        joined(self.repo_dir(repo), sanitized(branch))
    }

    /// The path of the marker file that flags a branch as managed.
    pub open spec fn marker_path(self, repo: Seq<char>, branch: Seq<char>) -> Seq<char> {
        joined(joined(self.repo_dir(repo), markers_dir()), sanitized(branch))
    }

    /// Whether the worktree directory for a branch exists.
    pub open spec fn has_worktree(self, repo: Seq<char>, branch: Seq<char>) -> bool {
        self.repo(repo).directories.contains(sanitized(branch))
    }

    /// Whether a branch is flagged as managed.
    pub open spec fn is_managed(self, repo: Seq<char>, branch: Seq<char>) -> bool {
        self.repo(repo).managed.contains(sanitized(branch))
    }

    /// The canonical branch name recorded for a sanitized name.
    pub open spec fn original_branch_name(self, repo: Seq<char>, sanitized_name: Seq<char>) -> Option<
        Seq<char>,
    > {
        self.repo(repo).branch_mapping.get(sanitized_name)
    }

    /// The origin path recorded for a branch's worktree.
    pub open spec fn worktree_origin(self, repo: Seq<char>, branch: Seq<char>) -> Option<Seq<char>> {
        self.repo(repo).origins.get(sanitized(branch))
    }

    /// The store after `sanitized_name -> original` is written to the
    /// repository's branch mapping.
    pub open spec fn with_mapping(
        self,
        repo: Seq<char>,
        original: Seq<char>,
        sanitized_name: Seq<char>,
    ) -> StorageView {
        let r = self.repo(repo);
        self.with_repo(r.with_branch_mapping(r.branch_mapping.with_entry(sanitized_name, original)))
    }

    /// The store once the mapping entries for the branch `original` are
    /// retired.
    pub open spec fn without_mapping(self, repo: Seq<char>, original: Seq<char>) -> StorageView {
        let r = self.repo(repo);
        if self.knows(repo) {
            self.with_repo(r.with_branch_mapping(r.branch_mapping.without_value(original)))
        } else {
            self
        }
    }

    /// The store after the origin of a branch's worktree is recorded.
    pub open spec fn with_origin(self, repo: Seq<char>, branch: Seq<char>, origin: Seq<char>)
        -> StorageView {
        let r = self.repo(repo);
        self.with_repo(r.with_origins(r.origins.with_entry(sanitized(branch), origin)))
    }

    /// The store once the origin of a branch's worktree is forgotten.
    pub open spec fn without_origin(self, repo: Seq<char>, branch: Seq<char>) -> StorageView {
        let r = self.repo(repo);
        if self.knows(repo) {
            self.with_repo(r.with_origins(r.origins.without_key(sanitized(branch))))
        } else {
            self
        }
    }

    /// The store after a branch is flagged as managed.
    pub open spec fn marked(self, repo: Seq<char>, branch: Seq<char>) -> StorageView {
        self.with_repo(self.repo(repo).marked(sanitized(branch)))
    }

    /// The store after a branch's managed flag is cleared.
    pub open spec fn unmarked(self, repo: Seq<char>, branch: Seq<char>) -> StorageView {
        let r = self.repo(repo);
        if self.knows(repo) {
            self.with_repo(r.with_managed(without_text(r.managed, sanitized(branch))))
        } else {
            self
        }
    }

    /// The store after the worktree directory for a branch came to exist.
    pub open spec fn with_worktree(self, repo: Seq<char>, branch: Seq<char>) -> StorageView {
        let r = self.repo(repo);
        self.with_repo(r.with_directories(with_text(r.directories, sanitized(branch))))
    }

    /// The store after the directory `name` of a repository went away.
    pub open spec fn without_directory(self, repo: Seq<char>, name: Seq<char>) -> StorageView {
        let r = self.repo(repo);
        if self.knows(repo) {
            self.with_repo(r.with_directories(without_text(r.directories, name)))
        } else {
            self
        }
    }

    /// Each repository with its worktree directories, in stored order.
    pub open spec fn listing(self) -> Seq<(Seq<char>, Seq<Seq<char>>)> {
        Seq::new(self.repos.len(), |i: int| (self.repos[i].name, self.repos[i].worktrees()))
    }

    /// The store with `repo` in the place of the repository of that name, or
    /// added at the end where there was none.
    pub open spec fn with_repo(self, repo: RepoView) -> StorageView {
        match self.index_of(repo.name) {
            Some(i) => StorageView { repos: self.repos.update(i, repo), ..self },
            None => StorageView { repos: self.repos.push(repo), ..self },
        }
    }
}

/// The default storage directory's name under the home directory.
pub open spec fn default_dir() -> Seq<char> {
    seq!['.', 'w', 'o', 'r', 'k', 't', 'r', 'e', 'e', 's']
}

/// Asks `dirs::home_dir` for the user's home directory, as text.  Which
/// directory comes back, if any, depends on the environment: nothing is
/// claimed of it.
#[verifier::external_body]
fn home_directory() -> Option<String> {
    dirs::home_dir().map(|p| p.to_string_lossy().into_owned())
}

/// Reading the store after one repository was replaced: that repository
/// reads as what was put in, every other one as before.
pub proof fn lemma_with_repo_reads(s: StorageView, r: RepoView, other: Seq<char>)
    ensures
        s.with_repo(r).root_dir == s.root_dir,
        s.with_repo(r).knows(r.name),
        s.with_repo(r).repo(r.name) == r,
        other != r.name ==> s.with_repo(r).repo(other) == s.repo(other),
        other != r.name ==> s.with_repo(r).knows(other) == s.knows(other),
{
    let after = s.with_repo(r);
    lemma_first_where(s.repos, named(r.name));
    lemma_first_where(s.repos, named(other));
    match s.index_of(r.name) {
        Some(i) => {
            lemma_first_where_is(after.repos, named(r.name), i);
            if other != r.name {
                match s.index_of(other) {
                    Some(k) => {
                        lemma_first_where_is(after.repos, named(other), k);
                    },
                    None => {
                        lemma_first_where_none(after.repos, named(other));
                    },
                }
            }
        },
        None => {
            lemma_first_where_push(s.repos, r, named(r.name));
            lemma_first_where_push(s.repos, r, named(other));
        },
    }
}

/// Replacing a repository twice leaves what the second replacement put in.
pub proof fn lemma_with_repo_twice(s: StorageView, a: RepoView, b: RepoView)
    requires
        a.name == b.name,
    ensures
        s.with_repo(a).with_repo(b) == s.with_repo(b),
{
    let mid = s.with_repo(a);
    lemma_first_where(s.repos, named(a.name));
    match s.index_of(a.name) {
        Some(i) => {
            lemma_first_where_is(mid.repos, named(a.name), i);
            assert(mid.repos.update(i, b) =~= s.repos.update(i, b));
        },
        None => {
            lemma_first_where_push(s.repos, a, named(a.name));
            assert(mid.repos.update(s.repos.len() as int, b) =~= s.repos.push(b));
        },
    }
}

impl WorktreeStorage {
    /// A store under `root_dir` that holds nothing yet.
    pub fn with_root(root_dir: String) -> (r: Self)
        ensures
            r@.root_dir == root_dir@,
            r@.repos == Seq::<RepoView>::empty(),
    {
        let r = WorktreeStorage { root_dir, repos: Vec::new() };
        assert(r@.repos =~= Seq::<RepoView>::empty());
        r
    }

    /// The store's root: `custom_root` where one is given, else the
    /// directory `.worktrees` under `home`.  Without either there is no
    /// store.
    pub fn from_roots(custom_root: Option<String>, home: Option<String>) -> (r: Result<
        Self,
        StorageError,
    >)
        ensures
            match r {
                Ok(store) => store@.repos == Seq::<RepoView>::empty() && match custom_root {
                    Some(root) => store@.root_dir == root@,
                    None => home is Some && store@.root_dir == joined(
                        home.unwrap()@,
                        default_dir(),
                    ),
                },
                Err(e) => custom_root is None && home is None && e
                    == StorageError::NoHomeDirectory,
            },
    {
        match custom_root {
            Some(root) => Ok(Self::with_root(root)),
            None => match home {
                Some(dir) => {
                    let name = ".worktrees";
                    proof {
                        reveal_strlit(".worktrees");
                        assert(name@ =~= default_dir());
                    }
                    Ok(Self::with_root(join(dir.as_str(), name)))
                },
                None => Err(StorageError::NoHomeDirectory),
            },
        }
    }

    /// An empty store under `custom_root`, or under `.worktrees` in the
    /// user's home directory where no root is given.  With a root given
    /// this always succeeds.
    pub fn new(custom_root: Option<String>) -> (r: Result<Self, StorageError>)
        ensures
            custom_root is Some ==> r is Ok,
            match r {
                Ok(store) => store@.repos == Seq::<RepoView>::empty() && match custom_root {
                    Some(root) => store@.root_dir == root@,
                    None => exists|home: Seq<char>|
                        store@.root_dir == joined(home, default_dir()),
                },
                Err(e) => e == StorageError::NoHomeDirectory,
            },
    {
        match custom_root {
            Some(root) => Self::from_roots(Some(root), None),
            None => Self::from_roots(None, home_directory()),
        }
    }

    /// The repository's name: the last component of its path.
    pub fn get_repo_name(repo_path: &str) -> (r: Result<String, StorageError>)
        ensures
            match r {
                Ok(name) => file_name(repo_path@) == Some(name@),
                Err(e) => file_name(repo_path@) is None && e == StorageError::NoRepositoryName,
            },
    {
        match path_file_name(repo_path) {
            Some(name) => Ok(name),
            None => Err(StorageError::NoRepositoryName),
        }
    }

    /// The directory-safe form of a branch name.
    pub fn sanitize_branch_name(branch_name: &str) -> (r: String)
        ensures
            r@ == sanitized(branch_name@),
    {
        sanitize(branch_name)
    }

    /// The root storage directory.
    pub fn get_root_dir(&self) -> (r: &String)
        ensures
            r@ == self@.root_dir,
    {
        &self.root_dir
    }

    /// The storage directory of a repository.
    pub fn get_repo_storage_dir(&self, repo_name: &str) -> (r: String)
        ensures
            r@ == self@.repo_dir(repo_name@),
    {
        join(self.root_dir.as_str(), repo_name)
    }

    /// The directory of the worktree for a branch.
    pub fn get_worktree_path(&self, repo_name: &str, branch_name: &str) -> (r: String)
        ensures
            r@ == self@.worktree_path(repo_name@, branch_name@),
    {
        let dir = self.get_repo_storage_dir(repo_name);
        let safe = sanitize(branch_name);
        join(dir.as_str(), safe.as_str())
    }

    /// The path of the marker file that flags a branch as managed.
    pub fn get_managed_branch_flag_path(&self, repo_name: &str, branch_name: &str) -> (r: String)
        ensures
            r@ == self@.marker_path(repo_name@, branch_name@),
    {
        let dir = self.get_repo_storage_dir(repo_name);
        let reserved = markers_dir_name();
        let markers = join(dir.as_str(), reserved.as_str());
        let safe = sanitize(branch_name);
        join(markers.as_str(), safe.as_str())
    }

    /// Where the repository called `name` stands in the store.
    pub fn find_repo(&self, name: &str) -> (r: Option<usize>)
        ensures
            match r {
                Some(i) => self@.index_of(name@) == Some(i as int) && i < self.repos.len(),
                None => self@.index_of(name@) is None,
            },
    {
        let ghost views = repo_views(self.repos@);
        let mut i: usize = 0;
        while i < self.repos.len()
            invariant
                i <= self.repos.len(),
                views == repo_views(self.repos@),
                forall|j: int| 0 <= j < i ==> !named(name@)(#[trigger] views[j]),
            decreases self.repos.len() - i,
        {
            if same_str(self.repos[i].name.as_str(), name) {
                proof {
                    assert(views[i as int] == self.repos@[i as int]@);
                    lemma_first_where_is(views, named(name@), i as int);
                }
                return Some(i);
            }
            assert(views[i as int] == self.repos@[i as int]@);
            i += 1;
        }
        proof {
            lemma_first_where_none(views, named(name@));
        }
        None
    }

    /// Makes sure the store has a directory for the repository `name`, and
    /// says where it stands.
    pub fn open_repo(&mut self, name: &str) -> (i: usize)
        ensures
            final(self)@ == old(self)@.with_repo(old(self)@.repo(name@)),
            final(self)@.index_of(name@) == Some(i as int),
            i < final(self).repos.len(),
            final(self).repos@[i as int]@ == old(self)@.repo(name@),
            old(self)@.repo(name@).name == name@,
    {
        proof {
            lemma_first_where(self@.repos, named(name@));
        }
        match self.find_repo(name) {
            Some(i) => {
                proof {
                    let s = self@;
                    assert(s.repos.update(i as int, s.repos[i as int]) =~= s.repos);
                    assert(s.repo(name@) == s.repos[i as int]);
                    assert(s.repos[i as int].name == name@) by {
                        lemma_first_where(s.repos, named(name@));
                    }
                    assert(s.with_repo(s.repo(name@)).repos == s.repos);
                }
                i
            },
            None => {
                let ghost before = self@;
                let i = self.repos.len();
                self.repos.push(RepoRegistry::new(name));
                proof {
                    assert(self@.repos =~= before.repos.push(RepoView::blank(name@)));
                    lemma_first_where_push(before.repos, RepoView::blank(name@), named(name@));
                    assert(before.with_repo(before.repo(name@)).repos == self@.repos);
                }
                i
            },
        }
    }

    /// What the store holds for the repository `name`, if it has a
    /// directory for it.
    pub fn repo(&self, name: &str) -> (r: Option<&RepoRegistry>)
        ensures
            match r {
                Some(found) => self@.knows(name@) && found@ == self@.repo(name@),
                None => !self@.knows(name@),
            },
    {
        match self.find_repo(name) {
            Some(i) => Some(&self.repos[i]),
            None => None,
        }
    }

    /// Puts `repo` in the place of the repository of its name, or adds it.
    pub fn load_repo(&mut self, repo: RepoRegistry)
        ensures
            final(self)@ == old(self)@.with_repo(repo@),
    {
        let ghost before = self@;
        match self.find_repo(repo.name.as_str()) {
            Some(i) => {
                self.repos[i] = repo;
                proof {
                    assert(self@.repos =~= before.repos.update(i as int, repo@));
                }
            },
            None => {
                self.repos.push(repo);
                proof {
                    assert(self@.repos =~= before.repos.push(repo@));
                }
            },
        }
    }

    /// Changes made at index `i` are changes to the repository `name`.
    proof fn lemma_changed_at(before: StorageView, after: StorageView, i: int, r: RepoView)
        requires
            before.index_of(r.name) == Some(i),
            after.root_dir == before.root_dir,
            after.repos == before.repos.update(i, r),
        ensures
            after == before.with_repo(r),
    {
    }

    /// The canonical branch name recorded for a sanitized name.  A
    /// repository without a mapping file records none; a mapping file that
    /// cannot be read is an error.
    pub fn get_original_branch_name(&self, repo_name: &str, sanitized_name: &str) -> (r: Result<
        Option<String>,
        StorageError,
    >)
        ensures
            match r {
                Ok(Some(v)) => !(self@.repo(repo_name@).branch_mapping is Unreadable)
                    && self@.original_branch_name(repo_name@, sanitized_name@) == Some(v@),
                Ok(None) => !(self@.repo(repo_name@).branch_mapping is Unreadable)
                    && self@.original_branch_name(repo_name@, sanitized_name@) is None,
                Err(e) => self@.repo(repo_name@).branch_mapping is Unreadable && e
                    == StorageError::IoFailure,
            },
    {
        match self.find_repo(repo_name) {
            Some(i) => self.repos[i].branch_mapping.get(sanitized_name),
            None => {
                proof {
                    lemma_first_where_none(
                        Seq::<Seq<char>>::empty(),
                        crate::registry::keyed(sanitized_name@),
                    );
                }
                Ok(None)
            },
        }
    }

    /// Records `sanitized_branch -> original_branch` for the repository,
    /// creating its directory and mapping file as needed.  Fails exactly
    /// where the mapping file cannot be read, and then writes no entry.
    pub fn store_branch_mapping(
        &mut self,
        repo_name: &str,
        original_branch: &str,
        sanitized_branch: &str,
    ) -> (r: Result<(), StorageError>)
        ensures
            final(self)@ == old(self)@.with_mapping(
                repo_name@,
                original_branch@,
                sanitized_branch@,
            ),
            match r {
                Ok(_) => !(old(self)@.repo(repo_name@).branch_mapping is Unreadable),
                Err(e) => old(self)@.repo(repo_name@).branch_mapping is Unreadable && e
                    == StorageError::IoFailure,
            },
    {
        let ghost start = self@;
        let i = self.open_repo(repo_name);
        let ghost mid = self@;
        let r = self.repos[i].branch_mapping.put(sanitized_branch, original_branch);
        proof {
            let was = start.repo(repo_name@);
            let now = was.with_branch_mapping(
                was.branch_mapping.with_entry(sanitized_branch@, original_branch@),
            );
            assert(self@.repos =~= mid.repos.update(i as int, now));
            Self::lemma_changed_at(mid, self@, i as int, now);
            lemma_with_repo_twice(start, was, now);
        }
        r
    }

    /// Retires the mapping entries of the branch `original_branch`.
    /// Nothing to do where the repository or its mapping file is absent;
    /// fails exactly where the mapping file cannot be read.
    pub fn remove_branch_mapping(&mut self, repo_name: &str, original_branch: &str) -> (r: Result<
        (),
        StorageError,
    >)
        ensures
            final(self)@ == old(self)@.without_mapping(repo_name@, original_branch@),
            match r {
                Ok(_) => !(old(self)@.repo(repo_name@).branch_mapping is Unreadable),
                Err(e) => old(self)@.repo(repo_name@).branch_mapping is Unreadable && e
                    == StorageError::IoFailure,
            },
    {
        let ghost start = self@;
        proof {
            lemma_first_where(start.repos, named(repo_name@));
        }
        match self.find_repo(repo_name) {
            Some(i) => {
                let r = self.repos[i].branch_mapping.remove_value(original_branch);
                proof {
                    let was = start.repo(repo_name@);
                    let now = was.with_branch_mapping(
                        was.branch_mapping.without_value(original_branch@),
                    );
                    assert(self@.repos =~= start.repos.update(i as int, now));
                    Self::lemma_changed_at(start, self@, i as int, now);
                }
                r
            },
            None => Ok(()),
        }
    }

    /// Records where the worktree of a branch came from, under the
    /// branch's sanitized name.  Fails exactly where the origin file cannot
    /// be read.
    pub fn store_worktree_origin(&mut self, repo_name: &str, branch_name: &str, origin_path: &str)
        -> (r: Result<(), StorageError>)
        ensures
            final(self)@ == old(self)@.with_origin(repo_name@, branch_name@, origin_path@),
            match r {
                Ok(_) => !(old(self)@.repo(repo_name@).origins is Unreadable),
                Err(e) => old(self)@.repo(repo_name@).origins is Unreadable && e
                    == StorageError::IoFailure,
            },
    {
        let ghost start = self@;
        let key = sanitize(branch_name);
        let i = self.open_repo(repo_name);
        let ghost mid = self@;
        let r = self.repos[i].origins.put(key.as_str(), origin_path);
        proof {
            let was = start.repo(repo_name@);
            let now = was.with_origins(was.origins.with_entry(key@, origin_path@));
            assert(self@.repos =~= mid.repos.update(i as int, now));
            Self::lemma_changed_at(mid, self@, i as int, now);
            lemma_with_repo_twice(start, was, now);
        }
        r
    }

    /// Where the worktree of a branch came from.  A repository without an
    /// origin file records none; an origin file that cannot be read is an
    /// error.
    pub fn get_worktree_origin(&self, repo_name: &str, branch_name: &str) -> (r: Result<
        Option<String>,
        StorageError,
    >)
        ensures
            match r {
                Ok(Some(v)) => !(self@.repo(repo_name@).origins is Unreadable)
                    && self@.worktree_origin(repo_name@, branch_name@) == Some(v@),
                Ok(None) => !(self@.repo(repo_name@).origins is Unreadable)
                    && self@.worktree_origin(repo_name@, branch_name@) is None,
                Err(e) => self@.repo(repo_name@).origins is Unreadable && e
                    == StorageError::IoFailure,
            },
    {
        let key = sanitize(branch_name);
        match self.find_repo(repo_name) {
            Some(i) => self.repos[i].origins.get(key.as_str()),
            None => {
                proof {
                    lemma_first_where_none(
                        Seq::<Seq<char>>::empty(),
                        crate::registry::keyed(key@),
                    );
                }
                Ok(None)
            },
        }
    }

    /// Forgets where the worktree of a branch came from.  Nothing to do
    /// where the repository or its origin file is absent; fails exactly
    /// where the origin file cannot be read.
    pub fn remove_worktree_origin(&mut self, repo_name: &str, branch_name: &str) -> (r: Result<
        (),
        StorageError,
    >)
        ensures
            final(self)@ == old(self)@.without_origin(repo_name@, branch_name@),
            match r {
                Ok(_) => !(old(self)@.repo(repo_name@).origins is Unreadable),
                Err(e) => old(self)@.repo(repo_name@).origins is Unreadable && e
                    == StorageError::IoFailure,
            },
    {
        let ghost start = self@;
        let key = sanitize(branch_name);
        proof {
            lemma_first_where(start.repos, named(repo_name@));
        }
        match self.find_repo(repo_name) {
            Some(i) => {
                let r = self.repos[i].origins.remove_key(key.as_str());
                proof {
                    let was = start.repo(repo_name@);
                    let now = was.with_origins(was.origins.without_key(key@));
                    assert(self@.repos =~= start.repos.update(i as int, now));
                    Self::lemma_changed_at(start, self@, i as int, now);
                }
                r
            },
            None => Ok(()),
        }
    }

    /// Flags a branch as managed: created by this tool.
    pub fn mark_branch_managed(&mut self, repo_name: &str, branch_name: &str)
        ensures
            final(self)@ == old(self)@.marked(repo_name@, branch_name@),
    {
        let ghost start = self@;
        let marker = sanitize(branch_name);
        let i = self.open_repo(repo_name);
        let ghost mid = self@;
        self.repos[i].mark(marker.as_str());
        proof {
            let was = start.repo(repo_name@);
            let now = was.marked(marker@);
            assert(self@.repos =~= mid.repos.update(i as int, now));
            Self::lemma_changed_at(mid, self@, i as int, now);
            lemma_with_repo_twice(start, was, now);
        }
    }

    /// Whether a branch is flagged as managed.
    pub fn is_branch_managed(&self, repo_name: &str, branch_name: &str) -> (r: bool)
        ensures
            r == self@.is_managed(repo_name@, branch_name@),
    {
        let marker = sanitize(branch_name);
        match self.find_repo(repo_name) {
            Some(i) => self.repos[i].is_marked(marker.as_str()),
            None => false,
        }
    }

    /// Clears a branch's managed flag; nothing to do where it is not set.
    pub fn unmark_branch_managed(&mut self, repo_name: &str, branch_name: &str)
        ensures
            final(self)@ == old(self)@.unmarked(repo_name@, branch_name@),
    {
        let ghost start = self@;
        let marker = sanitize(branch_name);
        proof {
            lemma_first_where(start.repos, named(repo_name@));
        }
        match self.find_repo(repo_name) {
            Some(i) => {
                self.repos[i].unmark(marker.as_str());
                proof {
                    let was = start.repo(repo_name@);
                    let now = was.with_managed(without_text(was.managed, marker@));
                    assert(self@.repos =~= start.repos.update(i as int, now));
                    Self::lemma_changed_at(start, self@, i as int, now);
                }
            },
            None => {},
        }
    }

    /// Whether the worktree directory for a branch exists.
    pub fn worktree_exists(&self, repo_name: &str, branch_name: &str) -> (r: bool)
        ensures
            r == self@.has_worktree(repo_name@, branch_name@),
    {
        let dir = sanitize(branch_name);
        match self.find_repo(repo_name) {
            Some(i) => self.repos[i].has_directory(dir.as_str()),
            None => false,
        }
    }

    /// Notes that the worktree directory for a branch came to exist.
    pub fn add_worktree(&mut self, repo_name: &str, branch_name: &str)
        ensures
            final(self)@ == old(self)@.with_worktree(repo_name@, branch_name@),
    {
        let ghost start = self@;
        let dir = sanitize(branch_name);
        let i = self.open_repo(repo_name);
        let ghost mid = self@;
        add_text(&mut self.repos[i].directories, dir.as_str());
        proof {
            let was = start.repo(repo_name@);
            let now = was.with_directories(with_text(was.directories, dir@));
            assert(self@.repos =~= mid.repos.update(i as int, now));
            Self::lemma_changed_at(mid, self@, i as int, now);
            lemma_with_repo_twice(start, was, now);
        }
    }

    /// Notes that the directory `name` of a repository went away.
    pub fn remove_directory(&mut self, repo_name: &str, name: &str)
        ensures
            final(self)@ == old(self)@.without_directory(repo_name@, name@),
    {
        let ghost start = self@;
        proof {
            lemma_first_where(start.repos, named(repo_name@));
        }
        match self.find_repo(repo_name) {
            Some(i) => {
                remove_text(&mut self.repos[i].directories, name);
                proof {
                    let was = start.repo(repo_name@);
                    let now = was.with_directories(without_text(was.directories, name@));
                    assert(self@.repos =~= start.repos.update(i as int, now));
                    Self::lemma_changed_at(start, self@, i as int, now);
                }
            },
            None => {},
        }
    }

    /// The worktree directories of a repository: its subdirectories but the
    /// reserved one.  None where the store has no directory for it.
    pub fn list_repo_worktrees(&self, repo_name: &str) -> (r: Vec<String>)
        ensures
            texts(r@) == self@.repo(repo_name@).worktrees(),
    {
        match self.find_repo(repo_name) {
            Some(i) => self.repos[i].worktrees(),
            None => {
                let out: Vec<String> = Vec::new();
                proof {
                    assert(texts(out@) =~= Seq::empty());
                    assert(RepoView::blank(repo_name@).worktrees() =~= Seq::empty());
                }
                out
            },
        }
    }

    /// Every repository of the store with its worktree directories.
    pub fn list_all_worktrees(&self) -> (r: Vec<(String, Vec<String>)>)
        ensures
            listing_view(r@) == self@.listing(),
    {
        let mut out: Vec<(String, Vec<String>)> = Vec::new();
        let mut i: usize = 0;
        while i < self.repos.len()
            invariant
                i <= self.repos.len(),
                out@.len() == i,
                forall|j: int|
                    0 <= j < i ==> (#[trigger] out@[j]).0@ == self.repos@[j]@.name && texts(
                        out@[j].1@,
                    ) == self.repos@[j]@.worktrees(),
            decreases self.repos.len() - i,
        {
            let name = self.repos[i].name.clone();
            let dirs = self.repos[i].worktrees();
            out.push((name, dirs));
            i += 1;
        }
        proof {
            assert(listing_view(out@) =~= self@.listing());
        }
        out
    }
}

} // verus!
