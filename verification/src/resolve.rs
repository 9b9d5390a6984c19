//! Target resolution: from what the user typed to one worktree directory
//! and one canonical branch name, or a failure that says why not.

use crate::lists::has_text;
use crate::paths::{
    below, dot, dot_dot, is_absolute, is_dots, is_name, lemma_joined_components,
    lemma_joined_lies_below, path_below, path_is_absolute,
};
use crate::sanitize::{contains_special_chars, has_unsafe, sanitized};
use crate::storage::{StorageView, WorktreeStorage};
use crate::text::{same_str, texts};
use vstd::prelude::*;

verus! {

/// A worktree a partial name matched: its repository and its branch.
#[derive(Debug, Clone, PartialEq, Eq)]
pub struct Candidate {
    pub repo: String,
    pub branch: String,
}

/// Why a target did not resolve.
#[derive(Debug, Clone, PartialEq, Eq)]
pub enum ResolveError {
    /// The target names nothing.
    NotFound,
    /// Several worktrees match; all of them are listed.
    Ambiguous(Vec<Candidate>),
    /// The directory exists, but neither the registry nor the branch list
    /// says which branch it belongs to.
    AmbiguousUnresolvable,
    /// The path does not lie in the repository's storage directory.
    InvalidPath,
    /// The branch mapping is present but could not be read.
    IoFailure,
    /// The branches were needed and the version-control layer could not
    /// list them.
    VcsFailure,
}

/// The kinds of failure, without what they carry.
pub enum Failure {
    NotFound,
    Ambiguous,
    AmbiguousUnresolvable,
    InvalidPath,
    IoFailure,
    VcsFailure,
}

impl ResolveError {
    /// The kind of this failure.
    pub open spec fn kind(self) -> Failure {
        match self {
            ResolveError::NotFound => Failure::NotFound,
            ResolveError::Ambiguous(_) => Failure::Ambiguous,
            ResolveError::AmbiguousUnresolvable => Failure::AmbiguousUnresolvable,
            ResolveError::InvalidPath => Failure::InvalidPath,
            ResolveError::IoFailure => Failure::IoFailure,
            ResolveError::VcsFailure => Failure::VcsFailure,
        }
    }
}

/// Whether none of the components steps up to a parent directory.
pub open spec fn steps_down_only(components: Seq<Seq<char>>) -> bool {
    forall|i: int| 0 <= i < components.len() ==> components[i] != dot_dot()
}

/// The directory name an absolute target ends in, where the target lies
/// below the repository's storage directory, never steps up on its way
/// down from there, and ends in a name.  A target that steps up with `..`
/// may leave the storage directory again, and is refused.
pub open spec fn directory_in_storage(s: StorageView, repo: Seq<char>, target: Seq<char>) -> Option<
    Seq<char>,
> {
    match below(target, s.repo_dir(repo)) {
        Some(rest) => if rest.len() > 0 && steps_down_only(rest) && rest.last() != dot() {
            Some(rest.last())
        } else {
            None
        },
        None => None,
    }
}

/// What a target resolves to: the worktree's path and the canonical branch
/// name, or the kind of failure.
///
/// An absolute path must lie below the repository's storage directory and
/// never step up with `..` on its way down; its last component is looked
/// up in the mapping and stands for itself where the mapping has no entry.  A name with unsafe characters can only be a
/// canonical name, and resolves where its directory exists.  Any other name
/// whose directory exists is the sanitized form of what the mapping says,
/// or, without an entry, itself where a branch of that name exists; with
/// neither, nothing is guessed, and where the branches could not be listed
/// that is the failure.  A name without a directory resolves through the
/// mapping to a branch whose directory exists.
pub open spec fn resolution(
    s: StorageView,
    repo: Seq<char>,
    target: Seq<char>,
    branches: Option<Seq<Seq<char>>>,
) -> Result<(Seq<char>, Seq<char>), Failure> {
    let mapping = s.repo(repo).branch_mapping;
    if is_absolute(target) {
        match directory_in_storage(s, repo, target) {
            Some(dir) => if mapping is Unreadable {
                Err(Failure::IoFailure)
            } else {
                match mapping.get(dir) {
                    Some(canonical) => Ok((target, canonical)),
                    None => Ok((target, dir)),
                }
            },
            None => Err(Failure::InvalidPath),
        }
    } else if has_unsafe(target) {
        if s.has_worktree(repo, target) {
            Ok((s.worktree_path(repo, target), target))
        } else {
            Err(Failure::NotFound)
        }
    } else if mapping is Unreadable {
        Err(Failure::IoFailure)
    } else if s.has_worktree(repo, target) {
        match mapping.get(target) {
            Some(canonical) => Ok((s.worktree_path(repo, target), canonical)),
            None => match branches {
                Some(listed) => if listed.contains(target) {
                    Ok((s.worktree_path(repo, target), target))
                } else {
                    Err(Failure::AmbiguousUnresolvable)
                },
                None => Err(Failure::VcsFailure),
            },
        }
    } else {
        match mapping.get(target) {
            Some(canonical) => if s.has_worktree(repo, canonical) {
                Ok((s.worktree_path(repo, canonical), canonical))
            } else {
                Err(Failure::NotFound)
            },
            None => Err(Failure::NotFound),
        }
    }
}

/// Whether none of the components is `..`.
pub fn components_step_down_only(components: &Vec<String>) -> (r: bool)
    ensures
        r == steps_down_only(texts(components@)),
{
    let up = "..";
    proof {
        reveal_strlit("..");
        assert(up@ =~= dot_dot());
    }
    let mut i: usize = 0;
    while i < components.len()
        invariant
            i <= components.len(),
            up@ == dot_dot(),
            forall|j: int| 0 <= j < i ==> texts(components@)[j] != dot_dot(),
        decreases components.len() - i,
    {
        if same_str(components[i].as_str(), up) {
            assert(texts(components@)[i as int] == dot_dot());
            return false;
        }
        i += 1;
    }
    true
}

/// The directory name an absolute target ends in, where the target lies
/// below the repository's storage directory and never steps up from there.
pub fn storage_directory_of(storage: &WorktreeStorage, repo_name: &str, target: &str) -> (r:
    Option<String>)
    ensures
        match r {
            Some(dir) => directory_in_storage(storage@, repo_name@, target@) == Some(dir@),
            None => directory_in_storage(storage@, repo_name@, target@) is None,
        },
{
    let base = storage.get_repo_storage_dir(repo_name);
    match path_below(target, base.as_str()) {
        Some(mut rest) => {
            let ghost all = texts(rest@);
            if !components_step_down_only(&rest) {
                return None;
            }
            match rest.pop() {
                Some(last) => {
                    assert(all.last() == last@);
                    if is_dots(last.as_str()) {
                        None
                    } else {
                        Some(last)
                    }
                },
                None => None,
            }
        },
        None => None,
    }
}

/// The branches as plain text, where they could be listed.
pub open spec fn listed_branches(branches: Option<&Vec<String>>) -> Option<Seq<Seq<char>>> {
    match branches {
        Some(listed) => Some(texts(listed@)),
        None => None,
    }
}

/// Resolves what the user typed to a worktree path and a canonical branch
/// name.  `branches` are the repository's local branches as the
/// version-control system lists them, or none where it could not list
/// them.
pub fn resolve_target(
    target: &str,
    storage: &WorktreeStorage,
    repo_name: &str,
    branches: Option<&Vec<String>>,
) -> (r: Result<(String, String), ResolveError>)
    ensures
        match r {
            Ok(found) => resolution(storage@, repo_name@, target@, listed_branches(branches))
                == Ok::<(Seq<char>, Seq<char>), Failure>((found.0@, found.1@)),
            Err(e) => resolution(storage@, repo_name@, target@, listed_branches(branches))
                == Err::<(Seq<char>, Seq<char>), Failure>(e.kind()) && !(e is Ambiguous),
        },
{
    if path_is_absolute(target) {
        return match storage_directory_of(storage, repo_name, target) {
            Some(dir) => match storage.get_original_branch_name(repo_name, dir.as_str()) {
                Ok(Some(canonical)) => Ok((target.to_owned(), canonical)),
                Ok(None) => Ok((target.to_owned(), dir)),
                Err(_) => Err(ResolveError::IoFailure),
            },
            None => Err(ResolveError::InvalidPath),
        };
    }
    if contains_special_chars(target) {
        if storage.worktree_exists(repo_name, target) {
            return Ok((storage.get_worktree_path(repo_name, target), target.to_owned()));
        }
        return Err(ResolveError::NotFound);
    }
    let mapped = match storage.get_original_branch_name(repo_name, target) {
        Ok(found) => found,
        Err(_) => {
            return Err(ResolveError::IoFailure);
        },
    };
    if storage.worktree_exists(repo_name, target) {
        let path = storage.get_worktree_path(repo_name, target);
        return match mapped {
            Some(canonical) => Ok((path, canonical)),
            None => match branches {
                Some(listed) => if has_text(listed, target) {
                    Ok((path, target.to_owned()))
                } else {
                    Err(ResolveError::AmbiguousUnresolvable)
                },
                None => Err(ResolveError::VcsFailure),
            },
        };
    }
    match mapped {
        Some(canonical) => if storage.worktree_exists(repo_name, canonical.as_str()) {
            let path = storage.get_worktree_path(repo_name, canonical.as_str());
            Ok((path, canonical))
        } else {
            Err(ResolveError::NotFound)
        },
        None => Err(ResolveError::NotFound),
    }
}

/// A name without unsafe characters that has a directory, no mapping entry
/// and a branch of its own name resolves to itself.
pub proof fn plain_branch_resolves_to_itself(
    s: StorageView,
    repo: Seq<char>,
    name: Seq<char>,
    branches: Seq<Seq<char>>,
)
    requires
        !has_unsafe(name),
        s.repo(repo).branch_mapping.get(name) is None,
        !(s.repo(repo).branch_mapping is Unreadable),
        branches.contains(name),
        s.has_worktree(repo, name),
    ensures
        resolution(s, repo, name, Some(branches)) == Ok::<(Seq<char>, Seq<char>), Failure>(
            (s.worktree_path(repo, name), name),
        ),
{
    lemma_safe_names_are_relative(name);
}

/// A name without unsafe characters is no absolute path.
pub proof fn lemma_safe_names_are_relative(name: Seq<char>)
    requires
        !has_unsafe(name),
    ensures
        !is_absolute(name),
{
    if name.len() > 0 {
        assert(!crate::sanitize::is_unsafe(name[0]));
    }
}

/// A name without unsafe characters that has neither a mapping entry nor a
/// branch of its own name never resolves: where its directory exists the
/// failure says that nothing decides what it means, and where it does not,
/// that nothing was found.
pub proof fn unbacked_name_is_never_guessed(
    s: StorageView,
    repo: Seq<char>,
    name: Seq<char>,
    branches: Seq<Seq<char>>,
)
    requires
        !has_unsafe(name),
        s.repo(repo).branch_mapping.get(name) is None,
        !(s.repo(repo).branch_mapping is Unreadable),
        !branches.contains(name),
    ensures
        resolution(s, repo, name, Some(branches)) == Err::<(Seq<char>, Seq<char>), Failure>(
            if s.has_worktree(repo, name) {
                Failure::AmbiguousUnresolvable
            } else {
                Failure::NotFound
            },
        ),
{
    lemma_safe_names_are_relative(name);
}

/// The path of a worktree resolves to that worktree: under a repository
/// whose name is one path component, the directory that a branch's
/// worktree path ends in is the branch's sanitized name; and where the
/// storage root is absolute, the path resolves to itself and to the branch
/// the mapping records for that name, or to the name itself.
pub proof fn worktree_path_resolves_to_its_worktree(
    s: StorageView,
    repo: Seq<char>,
    branch: Seq<char>,
    branches: Option<Seq<Seq<char>>>,
)
    requires
        is_name(repo),
        is_name(sanitized(branch)),
    ensures
        directory_in_storage(s, repo, s.worktree_path(repo, branch)) == Some(sanitized(branch)),
        is_absolute(s.root_dir) && !(s.repo(repo).branch_mapping is Unreadable) ==> resolution(
            s,
            repo,
            s.worktree_path(repo, branch),
            branches,
        ) == Ok::<(Seq<char>, Seq<char>), Failure>(
            (
                s.worktree_path(repo, branch),
                match s.original_branch_name(repo, sanitized(branch)) {
                    Some(canonical) => canonical,
                    None => sanitized(branch),
                },
            ),
        ),
{
    lemma_joined_components(s.root_dir, repo);
    lemma_joined_lies_below(s.repo_dir(repo), sanitized(branch));
    lemma_joined_components(s.repo_dir(repo), sanitized(branch));
}

/// A worktree that was just recorded resolves by its branch: once the
/// store holds the worktree's directory and the mapping from the
/// directory's name to the branch, the branch's name resolves to the
/// worktree's path and to the branch itself, whatever branches there are.
pub proof fn recorded_worktree_resolves(
    s: StorageView,
    repo: Seq<char>,
    branch: Seq<char>,
    branches: Option<Seq<Seq<char>>>,
)
    requires
        !is_absolute(branch),
        !(s.repo(repo).branch_mapping is Unreadable),
    ensures
        resolution(
            s.with_worktree(repo, branch).with_mapping(repo, branch, sanitized(branch)),
            repo,
            branch,
            branches,
        ) == Ok::<(Seq<char>, Seq<char>), Failure>((s.worktree_path(repo, branch), branch)),
{
    let placed = s.with_worktree(repo, branch);
    let recorded = placed.with_mapping(repo, branch, sanitized(branch));
    crate::storage::laws::additions_keep_the_rest(s, repo, branch, sanitized(branch));
    crate::storage::laws::additions_keep_the_rest(placed, repo, branch, sanitized(branch));
    let dirs = s.repo(repo).directories;
    assert(crate::lists::with_text(dirs, sanitized(branch)).contains(sanitized(branch))) by {
        if !dirs.contains(sanitized(branch)) {
            assert(dirs.push(sanitized(branch))[dirs.len() as int] == sanitized(branch));
        }
    }
    assert(recorded.has_worktree(repo, branch));
    crate::sanitize::sanitized_names_are_safe(branch);
    crate::storage::laws::store_then_get(placed, repo, branch, sanitized(branch));
    if !has_unsafe(branch) {
        crate::sanitize::safe_names_stay_as_they_are(branch);
    }
}

/// An absolute path resolves only where it lies in the repository's
/// storage directory: it is refused as invalid exactly where it does not
/// lie below that directory, steps up with `..` on its way down, or ends in
/// no name; and what does resolve resolves to the path itself.
pub proof fn resolved_paths_stay_in_storage(
    s: StorageView,
    repo: Seq<char>,
    target: Seq<char>,
    branches: Option<Seq<Seq<char>>>,
)
    requires
        is_absolute(target),
    ensures
        resolution(s, repo, target, branches) == Err::<(Seq<char>, Seq<char>), Failure>(
            Failure::InvalidPath,
        ) <==> directory_in_storage(s, repo, target) is None,
        resolution(s, repo, target, branches) matches Ok(found) ==> found.0 == target && (below(
            target,
            s.repo_dir(repo),
        ) matches Some(rest) && rest.len() > 0 && steps_down_only(rest)),
        below(target, s.repo_dir(repo)) matches Some(rest) && !steps_down_only(rest)
            ==> resolution(s, repo, target, branches) == Err::<(Seq<char>, Seq<char>), Failure>(
            Failure::InvalidPath,
        ),
{
}

} // verus!
