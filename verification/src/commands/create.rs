//! Creating a worktree: whether the branch may be used or must be made,
//! what the registry records, and which files are left out when
//! configuration files are copied along.

use crate::paths::{file_name, is_name, lemma_joined_lies_below, path_file_name};
use crate::sanitize::sanitized;
use crate::storage::files::StorageError;
use crate::storage::{StorageView, WorktreeStorage};
use crate::text::{chars_of, contains_in, contains_text, texts};
use crate::traits::{GitOperations, VcsError};
use vstd::prelude::*;

verus! {

/// How the branch of a new worktree is come by.
#[derive(Debug, Clone, Copy, PartialEq, Eq, Structural)]
pub enum CreateMode {
    /// Use the branch where it exists, create it where it does not.
    Smart,
    /// Create the branch; fail where it exists.
    NewBranch,
    /// Use the branch; fail where it does not exist.
    ExistingBranch,
}

/// Why a worktree was not created.
#[derive(Debug, Clone, PartialEq, Eq)]
pub enum CreateError {
    /// The repository path has no final component to name it by.
    NoRepositoryName,
    /// The worktree's directory exists already.
    PathExists,
    /// A new branch was asked for and the branch exists.
    BranchExists,
    /// An existing branch was asked for and there is none.
    BranchMissing,
    /// The version-control layer failed.
    Vcs(VcsError),
    /// The worktree was created, but the branch mapping could not be read.
    Storage,
}

/// What checking a request gives: whether to create the branch, or why
/// the request is refused.
pub enum Verdict {
    CreateBranch,
    UseBranch,
    PathExists,
    BranchExists,
    BranchMissing,
}

/// The verdict on a request.  An existing directory refuses it; then the
/// mode is held against whether the branch exists; what is left creates
/// the branch exactly where there is none.
pub open spec fn verdict(mode: CreateMode, path_exists: bool, branch_exists: bool) -> Verdict {
    if path_exists {
        Verdict::PathExists
    } else if mode == CreateMode::NewBranch && branch_exists {
        Verdict::BranchExists
    } else if mode == CreateMode::ExistingBranch && !branch_exists {
        Verdict::BranchMissing
    } else if branch_exists {
        Verdict::UseBranch
    } else {
        Verdict::CreateBranch
    }
}

/// Checks a request: whether the branch is to be created, or why the
/// request is refused.
pub fn check_request(mode: CreateMode, path_exists: bool, branch_exists: bool) -> (r: Result<
    bool,
    CreateError,
>)
    ensures
        match r {
            Ok(create) => verdict(mode, path_exists, branch_exists) == if create {
                Verdict::CreateBranch
            } else {
                Verdict::UseBranch
            },
            Err(CreateError::PathExists) => verdict(mode, path_exists, branch_exists)
                == Verdict::PathExists,
            Err(CreateError::BranchExists) => verdict(mode, path_exists, branch_exists)
                == Verdict::BranchExists,
            Err(CreateError::BranchMissing) => verdict(mode, path_exists, branch_exists)
                == Verdict::BranchMissing,
            Err(_) => false,
        },
{
    if path_exists {
        return Err(CreateError::PathExists);
    }
    match mode {
        CreateMode::NewBranch => {
            if branch_exists {
                return Err(CreateError::BranchExists);
            }
        },
        CreateMode::ExistingBranch => {
            if !branch_exists {
                return Err(CreateError::BranchMissing);
            }
        },
        CreateMode::Smart => {},
    }
    Ok(!branch_exists)
}

/// A worktree that was created.
#[derive(Debug, Clone, PartialEq, Eq)]
pub struct CreatedWorktree {
    /// The repository's name.
    pub repo_name: String,
    /// The repository's working directory.
    pub repo_path: String,
    /// The worktree's directory.
    pub path: String,
    /// The name of that directory, under which the branch is mapped.
    pub directory: String,
    /// Whether the branch was created along with the worktree.
    pub created_branch: bool,
    /// Whether the repository's configuration was copied to the worktree.
    pub config_inherited: bool,
}

/// The name of the worktree's directory: the last component of its path,
/// or the branch name where the path has none.
pub open spec fn directory_name(path: Seq<char>, branch: Seq<char>) -> Seq<char> {
    match file_name(path) {
        Some(name) => name,
        None => branch,
    }
}

/// The name of the worktree's directory.
pub fn worktree_directory_name(path: &str, branch: &str) -> (r: String)
    ensures
        r@ == directory_name(path@, branch@),
{
    match path_file_name(path) {
        Some(name) => name,
        None => branch.to_owned(),
    }
}

/// The directory of a branch's worktree is named by the branch's sanitized
/// name, where that is a name at all.
pub proof fn worktree_directory_is_the_sanitized_name(
    s: StorageView,
    repo: Seq<char>,
    branch: Seq<char>,
)
    requires
        is_name(sanitized(branch)),
    ensures
        directory_name(s.worktree_path(repo, branch), branch) == sanitized(branch),
{
    lemma_joined_lies_below(s.repo_dir(repo), sanitized(branch));
}

/// Creates a worktree for `branch` in the store's directory for the
/// repository, and records its directory and its branch mapping.
///
/// The repository's path, whether the branch exists, and whether creating
/// succeeds are what `git_repo` answers.  The request is refused, before
/// anything is created, where the worktree's directory exists or the mode
/// does not allow what was found.  The branch is created exactly where it
/// did not exist.  A failure to copy the configuration does not stop the
/// creation.  Where the store changed at all, it gained the worktree's
/// directory and the mapping from the directory's name to the branch.
/// Each refusal has its cause: the directory exists, the mode asked for a
/// new branch or for an existing one, or, after the worktree was made, the
/// repository's mapping cannot be read.
pub fn create_worktree_with_git<G: GitOperations>(
    git_repo: &G,
    storage: &mut WorktreeStorage,
    branch: &str,
    mode: CreateMode,
) -> (r: Result<CreatedWorktree, CreateError>)
    ensures
        match r {
            Ok(made) => {
                &&& file_name(made.repo_path@) == Some(made.repo_name@)
                &&& made.path@ == old(storage)@.worktree_path(made.repo_name@, branch@)
                &&& made.directory@ == directory_name(made.path@, branch@)
                &&& !old(storage)@.has_worktree(made.repo_name@, branch@)
                &&& mode == CreateMode::NewBranch ==> made.created_branch
                &&& mode == CreateMode::ExistingBranch ==> !made.created_branch
                &&& !(old(storage)@.repo(made.repo_name@).branch_mapping is Unreadable)
                &&& final(storage)@ == old(storage)@.with_worktree(
                    made.repo_name@,
                    branch@,
                ).with_mapping(made.repo_name@, branch@, made.directory@)
            },
            Err(CreateError::Storage) => exists|repo: Seq<char>, directory: Seq<char>|
                old(storage)@.repo(repo).branch_mapping is Unreadable && !old(
                    storage,
                )@.has_worktree(repo, branch@) && final(storage)@ == old(storage)@.with_worktree(
                    repo,
                    branch@,
                ).with_mapping(repo, branch@, directory),
            Err(CreateError::PathExists) => final(storage)@ == old(storage)@ && exists|
                repo: Seq<char>,
            |
                old(storage)@.has_worktree(repo, branch@),
            Err(CreateError::BranchExists) => final(storage)@ == old(storage)@ && mode
                == CreateMode::NewBranch,
            Err(CreateError::BranchMissing) => final(storage)@ == old(storage)@ && mode
                == CreateMode::ExistingBranch,
            Err(_) => final(storage)@ == old(storage)@,
        },
{
    let repo_path = git_repo.get_repo_path();
    let repo_name = match WorktreeStorage::get_repo_name(repo_path.as_str()) {
        Ok(name) => name,
        Err(_) => {
            return Err(CreateError::NoRepositoryName);
        },
    };
    let path = storage.get_worktree_path(repo_name.as_str(), branch);
    let path_exists = storage.worktree_exists(repo_name.as_str(), branch);
    if path_exists {
        return Err(CreateError::PathExists);
    }
    let branch_exists = match git_repo.branch_exists(branch) {
        Ok(found) => found,
        Err(e) => {
            return Err(CreateError::Vcs(e));
        },
    };
    let create_branch = check_request(mode, path_exists, branch_exists)?;
    match git_repo.create_worktree(branch, path.as_str(), create_branch) {
        Ok(_) => {},
        Err(e) => {
            return Err(CreateError::Vcs(e));
        },
    }
    let config_inherited = git_repo.inherit_config(path.as_str()).is_ok();
    storage.add_worktree(repo_name.as_str(), branch);
    let directory = worktree_directory_name(path.as_str(), branch);
    let ghost mid = storage@;
    proof {
        crate::storage::laws::lemma_repo_name(old(storage)@, repo_name@);
        let r = old(storage)@.repo(repo_name@);
        crate::storage::lemma_with_repo_reads(
            old(storage)@,
            r.with_directories(
                crate::lists::with_text(r.directories, crate::sanitize::sanitized(branch@)),
            ),
            repo_name@,
        );
    }
    match storage.store_branch_mapping(repo_name.as_str(), branch, directory.as_str()) {
        Ok(_) => {},
        Err(_) => {
            return Err(CreateError::Storage);
        },
    }
    Ok(
        CreatedWorktree {
            repo_name,
            repo_path,
            path,
            directory,
            created_branch: create_branch,
            config_inherited,
        },
    )
}

/// Records where a worktree came from: the canonical path of its
/// repository, under the branch's sanitized name.
pub fn store_origin_info(
    storage: &mut WorktreeStorage,
    repo_name: &str,
    branch_name: &str,
    canonical_repo_path: &str,
) -> (r: Result<(), StorageError>)
    ensures
        final(storage)@ == old(storage)@.with_origin(
            repo_name@,
            branch_name@,
            canonical_repo_path@,
        ),
        match r {
            Ok(_) => !(old(storage)@.repo(repo_name@).origins is Unreadable),
            Err(e) => old(storage)@.repo(repo_name@).origins is Unreadable && e
                == StorageError::IoFailure,
        },
{
    storage.store_worktree_origin(repo_name, branch_name, canonical_repo_path)
}

/// Finishes a creation: records the worktree's origin and, where the
/// branch was created along with it, flags the branch as managed.  Where
/// the origin cannot be recorded nothing is flagged.
pub fn record_creation(
    storage: &mut WorktreeStorage,
    repo_name: &str,
    branch_name: &str,
    canonical_repo_path: &str,
    created_branch: bool,
) -> (r: Result<(), StorageError>)
    ensures
        match r {
            Ok(_) => !(old(storage)@.repo(repo_name@).origins is Unreadable) && final(storage)@
                == if created_branch {
                old(storage)@.with_origin(repo_name@, branch_name@, canonical_repo_path@).marked(
                    repo_name@,
                    branch_name@,
                )
            } else {
                old(storage)@.with_origin(repo_name@, branch_name@, canonical_repo_path@)
            },
            Err(e) => old(storage)@.repo(repo_name@).origins is Unreadable && e
                == StorageError::IoFailure && final(storage)@ == old(storage)@.with_origin(
                repo_name@,
                branch_name@,
                canonical_repo_path@,
            ),
        },
{
    store_origin_info(storage, repo_name, branch_name, canonical_repo_path)?;
    if created_branch {
        storage.mark_branch_managed(repo_name, branch_name);
    }
    Ok(())
}

/// A pattern is a glob where it holds a `*`; any other pattern is plain
/// text.
pub open spec fn is_glob(pattern: Seq<char>) -> bool {
    pattern.contains('*')
}

/// Whether a pattern is a glob.
pub fn is_glob_pattern(pattern: &str) -> (r: bool)
    ensures
        r == is_glob(pattern@),
{
    let chars = chars_of(pattern);
    let mut i: usize = 0;
    while i < chars.len()
        invariant
            i <= chars.len(),
            chars@ == pattern@,
            forall|j: int| 0 <= j < i ==> pattern@[j] != '*',
        decreases chars.len() - i,
    {
        if chars[i] == '*' {
            return true;
        }
        i += 1;
    }
    false
}

/// The error of the glob compiler.
#[verifier::external_type_specification]
#[verifier::external_body]
pub struct ExPatternError(glob::PatternError);

/// Whether `glob::Pattern::new` accepts the pattern.
pub uninterp spec fn glob_well_formed(pattern: Seq<char>) -> bool;

/// Whether the compiled pattern matches the whole of a text, as
/// `glob::Pattern::matches` says with its default options.
pub uninterp spec fn glob_accepts(pattern: Seq<char>, text: Seq<char>) -> bool;

/// Compiles the pattern with `glob::Pattern::new` and matches it against
/// the text with `glob::Pattern::matches`.  Claimed: the compiler's error
/// comes back exactly for the patterns it does not accept; otherwise the
/// matcher's answer does.  Both are functions of the pattern and the text
/// alone; what they are is not stated here.
#[verifier::external_body]
fn glob_matches(pattern: &str, text: &str) -> (r: Result<bool, glob::PatternError>)
    ensures
        r is Ok <==> glob_well_formed(pattern@),
        r matches Ok(m) ==> m == glob_accepts(pattern@, text@),
{
    glob::Pattern::new(pattern).map(|p| p.matches(text))
}

/// Why copying configuration files was given up.
#[derive(Debug, Clone, PartialEq, Eq)]
pub enum CopyError {
    /// The exclude pattern at this index is not a well-formed glob.
    InvalidPattern(usize),
}

/// What one exclude pattern says of a file, given the glob matcher's
/// answer for a glob pattern (none where the pattern is ill-formed): a
/// glob excludes what it matches, and decides nothing where it is
/// ill-formed; plain text excludes every path that holds it.
pub open spec fn excluded_by(file: Seq<char>, pattern: Seq<char>, answer: Option<bool>) -> Option<
    bool,
> {
    if is_glob(pattern) {
        answer
    } else {
        Some(contains_text(file, pattern))
    }
}

/// The glob matcher's answer for a pattern and a file: none where the
/// pattern is ill-formed.
pub open spec fn glob_answer(pattern: Seq<char>, file: Seq<char>) -> Option<bool> {
    if glob_well_formed(pattern) {
        Some(glob_accepts(pattern, file))
    } else {
        None
    }
}

/// Whether the patterns from index `at` on exclude the file: the first
/// pattern that excludes it or is ill-formed decides.  `Err` carries the
/// index of the ill-formed pattern.
pub open spec fn exclusion_from(file: Seq<char>, patterns: Seq<Seq<char>>, at: int) -> Result<
    bool,
    int,
>
    decreases patterns.len() - at,
{
    if at < 0 || at >= patterns.len() {
        Ok(false)
    } else {
        match excluded_by(file, patterns[at], glob_answer(patterns[at], file)) {
            None => Err(at),
            Some(true) => Ok(true),
            Some(false) => exclusion_from(file, patterns, at + 1),
        }
    }
}

/// What one exclude pattern says of a file, given the glob matcher's
/// answer.
pub fn pattern_excludes(file_path: &str, pattern: &str, answer: Option<bool>) -> (r: Option<bool>)
    ensures
        r == excluded_by(file_path@, pattern@, answer),
{
    if is_glob_pattern(pattern) {
        answer
    } else {
        let file = chars_of(file_path);
        let text = chars_of(pattern);
        Some(contains_in(&file, &text))
    }
}

/// Whether a file is left out of the copy: the exclude patterns are tried
/// in order, and the first that matches excludes it.  An ill-formed glob
/// met before any match is an error.
pub fn should_exclude_file(file_path: &str, exclude_patterns: &Vec<String>) -> (r: Result<
    bool,
    CopyError,
>)
    ensures
        match r {
            Ok(excluded) => exclusion_from(file_path@, texts(exclude_patterns@), 0) == Ok::<
                bool,
                int,
            >(excluded),
            Err(CopyError::InvalidPattern(i)) => exclusion_from(
                file_path@,
                texts(exclude_patterns@),
                0,
            ) == Err::<bool, int>(i as int),
        },
{
    let ghost all = texts(exclude_patterns@);
    let mut i: usize = 0;
    while i < exclude_patterns.len()
        invariant
            i <= exclude_patterns.len(),
            all == texts(exclude_patterns@),
            exclusion_from(file_path@, all, 0) == exclusion_from(file_path@, all, i as int),
        decreases exclude_patterns.len() - i,
    {
        assert(all[i as int] == exclude_patterns@[i as int]@);
        let pattern = exclude_patterns[i].as_str();
        let answer = if is_glob_pattern(pattern) {
            match glob_matches(pattern, file_path) {
                Ok(m) => Some(m),
                Err(_) => None,
            }
        } else {
            None
        };
        match pattern_excludes(file_path, pattern, answer) {
            None => {
                return Err(CopyError::InvalidPattern(i));
            },
            Some(true) => {
                return Ok(true);
            },
            Some(false) => {},
        }
        i += 1;
    }
    Ok(false)
}

} // verus!
