//! Jumping to a worktree: by name, by a part of a name, or by choosing
//! from the list.

use crate::catalog::{
    candidate_views, catalog, entry_views, find_worktree_by_name, get_available_worktrees,
    identities, scope_of, selected, shown_with, ChooseError,
};
use crate::commands::remove::{offered_lines, selection_options};
use crate::lists::kept;
use crate::resolve::ResolveError;
use crate::selection::{extract_path_from_selection, path_in, SelectionError, SelectionProvider};
use crate::storage::{StorageView, WorktreeStorage};
use crate::text::texts;
use vstd::prelude::*;

verus! {

/// The prompt under which the worktrees are offered to jump to.
pub open spec fn jump_prompt() -> Seq<char> {
    "Jump to worktree:"@
}

/// What an answer of the provider comes to where a path is read from it.
/// A failure is handed on as it is.  A line gives the path read back from
/// it, and fails as ill-formed where none can be read.
pub open spec fn path_read_back(
    answer: Result<String, SelectionError>,
    r: Result<String, ChooseError>,
) -> bool {
    match answer {
        Err(e) => r == Err::<String, ChooseError>(ChooseError::Selection(e)),
        Ok(line) => match path_in(line@) {
            Some(path) => r matches Ok(found) && found@ == path,
            None => r == Err::<String, ChooseError>(
                ChooseError::Selection(SelectionError::InvalidFormat),
            ),
        },
    }
}

/// What choosing the worktree to jump to comes to.  Where a mapping that
/// is needed cannot be read, that failure; without a worktree in scope,
/// the failure that says so, and only then; otherwise what the provider's
/// answer comes to when it offers the lines of the worktrees in scope
/// under the prompt for jumping.
pub open spec fn chosen_for_jump<P: SelectionProvider>(
    provider: &P,
    s: StorageView,
    scope: Option<Seq<char>>,
    r: Result<String, ChooseError>,
) -> bool {
    match catalog(s, scope) {
        None => r matches Err(ChooseError::Resolve(e)) && e is IoFailure,
        Some(entries) => if entries.len() == 0 {
            r == Err::<String, ChooseError>(ChooseError::NoWorktrees)
        } else {
            exists|answer: Result<String, SelectionError>|
                provider.answers(jump_prompt(), offered_lines(entries), answer)
                    && #[trigger] path_read_back(answer, r)
        },
    }
}

/// Lets the provider choose among the worktrees in scope and returns the
/// path read from the chosen line.  Without a worktree in scope nothing is
/// asked.
pub fn select_worktree_interactive<P: SelectionProvider>(
    storage: &WorktreeStorage,
    scope: Option<&str>,
    provider: &P,
) -> (r: Result<String, ChooseError>)
    ensures
        chosen_for_jump(provider, storage@, scope_of(scope), r),
{
    let entries = match get_available_worktrees(storage, scope) {
        Ok(entries) => entries,
        Err(e) => {
            return Err(ChooseError::Resolve(e));
        },
    };
    if entries.len() == 0 {
        assert(entry_views(entries@).len() == 0);
        return Err(ChooseError::NoWorktrees);
    }
    assert(entry_views(entries@).len() > 0);
    let options = selection_options(&entries);
    proof {
        assert(texts(options@) =~= offered_lines(entry_views(entries@)));
    }
    let answer = provider.select("Jump to worktree:", options);
    let selection = match answer {
        Ok(line) => line,
        Err(e) => {
            let r = Err(ChooseError::Selection(e));
            assert(path_read_back(answer, r));
            return r;
        },
    };
    let r = match extract_path_from_selection(selection.as_str()) {
        Ok(path) => Ok(path),
        Err(e) => Err(ChooseError::Selection(e)),
    };
    assert(path_read_back(answer, r));
    r
}

/// Whether the worktree is chosen from the list rather than named: it is
/// where that was asked for, or no target was given.
pub open spec fn chosen_from_list(target: Option<&str>, interactive: bool) -> bool {
    interactive || target is None
}

/// The directory to jump to.  A target that is given, unless the list was
/// asked for, names the worktree: the one shown under exactly that name, or
/// the only one whose shown name holds it; with none the target is not
/// found, and with several every one of them is listed in the failure and
/// none is picked.  Otherwise the provider chooses from the list.
pub fn jump_worktree<P: SelectionProvider>(
    storage: &WorktreeStorage,
    target: Option<&str>,
    interactive: bool,
    scope: Option<&str>,
    provider: &P,
) -> (r: Result<String, ChooseError>)
    ensures
        chosen_from_list(target, interactive) ==> chosen_for_jump(
            provider,
            storage@,
            scope_of(scope),
            r,
        ),
        !chosen_from_list(target, interactive) ==> match catalog(storage@, scope_of(scope)) {
            None => r matches Err(ChooseError::Resolve(e)) && e is IoFailure,
            Some(entries) => {
                match r {
                    Ok(path) => selected(entries, target.unwrap()@) matches Some(e) && e.path
                        == path@,
                    Err(ChooseError::Resolve(e)) => selected(entries, target.unwrap()@) is None
                        && match e {
                        ResolveError::NotFound => kept(entries, shown_with(target.unwrap()@)).len()
                            == 0,
                        ResolveError::Ambiguous(candidates) => candidate_views(candidates@)
                            == identities(kept(entries, shown_with(target.unwrap()@)))
                            && candidates@.len() > 1,
                        _ => false,
                    },
                    Err(_) => false,
                }
            },
        },
{
    match target {
        Some(name) => {
            if !interactive {
                return match find_worktree_by_name(storage, name, scope) {
                    Ok(path) => Ok(path),
                    Err(e) => Err(ChooseError::Resolve(e)),
                };
            }
        },
        None => {},
    }
    select_worktree_interactive(storage, scope, provider)
}

} // verus!
