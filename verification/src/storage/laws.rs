//! What holds of the store's branch mapping across writes, reads and
//! removals.

use crate::lists::with_text;
use crate::registry::{
    consistent, key_rows, lemma_put_then_lookup, lemma_put_twice, lemma_remove_keeps_others,
    lemma_remove_then_lookup, lemma_removed_value_is_gone, plain_key, put,
    writes_keep_consistency,
};
use crate::sanitize::{has_unsafe, sanitized};
use crate::storage::files::FileView;
use crate::storage::{lemma_with_repo_reads, lemma_with_repo_twice, StorageView};
use crate::text::{is_line, lines_survive_rendering, rendered, split_lines};
use vstd::prelude::*;

verus! {

/// A name without unsafe characters holds no `>`, so the separator cannot
/// cut it.  Every sanitized name is such a name.
pub proof fn lemma_safe_names_are_plain(name: Seq<char>)
    requires
        !has_unsafe(name),
    ensures
        plain_key(name),
{
    assert forall|i: int| 0 <= i < name.len() implies name[i] != '>' by {
        assert(!crate::sanitize::is_unsafe(name[i]));
    }
    crate::registry::lemma_keys_without_arrow_are_plain(name);
}

/// After a canonical name was stored under a name, looking that name up
/// gives the canonical name, whatever was stored for it before.  This holds
/// of every name that the separator cannot cut, and so of every sanitized
/// name and of every name without unsafe characters.
pub proof fn store_then_get(
    s: StorageView,
    repo: Seq<char>,
    canonical: Seq<char>,
    sanitized_name: Seq<char>,
)
    requires
        plain_key(sanitized_name),
        !(s.repo(repo).branch_mapping is Unreadable),
    ensures
        s.with_mapping(repo, canonical, sanitized_name).original_branch_name(repo, sanitized_name)
            == Some(canonical),
{
    let r = s.repo(repo);
    lemma_put_then_lookup(r.branch_mapping.lines(), sanitized_name, canonical);
    lemma_repo_name(s, repo);
    lemma_with_repo_reads(
        s,
        r.with_branch_mapping(r.branch_mapping.with_entry(sanitized_name, canonical)),
        repo,
    );
}

/// What the store holds for a repository carries that repository's name.
pub proof fn lemma_repo_name(s: StorageView, repo: Seq<char>)
    ensures
        s.repo(repo).name == repo,
{
    crate::lists::lemma_first_where(s.repos, crate::storage::named(repo));
}

/// Storing the same pair twice leaves the store as storing it once did,
/// with exactly one entry under the sanitized name.
pub proof fn store_twice(
    s: StorageView,
    repo: Seq<char>,
    canonical: Seq<char>,
    sanitized_name: Seq<char>,
)
    requires
        plain_key(sanitized_name),
        !(s.repo(repo).branch_mapping is Unreadable),
    ensures
        s.with_mapping(repo, canonical, sanitized_name).with_mapping(
            repo,
            canonical,
            sanitized_name,
        ) == s.with_mapping(repo, canonical, sanitized_name),
        key_rows(
            s.with_mapping(repo, canonical, sanitized_name).repo(repo).branch_mapping.lines(),
            sanitized_name,
        ) == 1,
{
    let r = s.repo(repo);
    let once = r.with_branch_mapping(r.branch_mapping.with_entry(sanitized_name, canonical));
    lemma_put_twice(r.branch_mapping.lines(), sanitized_name, canonical);
    lemma_repo_name(s, repo);
    lemma_with_repo_reads(s, once, repo);
    lemma_with_repo_twice(s, once, once);
    assert(once.branch_mapping.with_entry(sanitized_name, canonical) == once.branch_mapping);
}

/// After the mapping of a canonical name was removed from a consistent
/// mapping, a sanitized name that mapped to it maps to nothing.
pub proof fn remove_then_get(
    s: StorageView,
    repo: Seq<char>,
    canonical: Seq<char>,
    sanitized_name: Seq<char>,
)
    requires
        s.original_branch_name(repo, sanitized_name) == Some(canonical),
        consistent(s.repo(repo).branch_mapping.lines()),
    ensures
        s.without_mapping(repo, canonical).original_branch_name(repo, sanitized_name) is None,
{
    let r = s.repo(repo);
    lemma_remove_then_lookup(r.branch_mapping.lines(), sanitized_name, canonical);
    lemma_repo_name(s, repo);
    if s.knows(repo) {
        lemma_with_repo_reads(
            s,
            r.with_branch_mapping(r.branch_mapping.without_value(canonical)),
            repo,
        );
    } else {
        crate::lists::lemma_first_where_none(
            Seq::<Seq<char>>::empty(),
            crate::registry::keyed(sanitized_name),
        );
    }
}

/// Storing and removing mappings keep a consistent mapping consistent:
/// no sanitized name comes to have more than one entry.
pub proof fn mapping_stays_consistent(
    s: StorageView,
    repo: Seq<char>,
    canonical: Seq<char>,
    sanitized_name: Seq<char>,
)
    requires
        plain_key(sanitized_name),
        consistent(s.repo(repo).branch_mapping.lines()),
    ensures
        consistent(
            s.with_mapping(repo, canonical, sanitized_name).repo(repo).branch_mapping.lines(),
        ),
        consistent(s.without_mapping(repo, canonical).repo(repo).branch_mapping.lines()),
{
    let r = s.repo(repo);
    writes_keep_consistency(r.branch_mapping.lines(), sanitized_name, canonical);
    lemma_repo_name(s, repo);
    lemma_with_repo_reads(
        s,
        r.with_branch_mapping(r.branch_mapping.with_entry(sanitized_name, canonical)),
        repo,
    );
    if s.knows(repo) {
        lemma_with_repo_reads(
            s,
            r.with_branch_mapping(r.branch_mapping.without_value(canonical)),
            repo,
        );
    }
}

/// Removing the mapping of one canonical name leaves no sanitized name
/// mapped to it, and leaves every sanitized name that mapped to another
/// canonical name mapped as before.
pub proof fn remove_keeps_unrelated(
    s: StorageView,
    repo: Seq<char>,
    removed: Seq<char>,
    other_key: Seq<char>,
)
    ensures
        s.without_mapping(repo, removed).original_branch_name(repo, other_key) != Some(removed),
        s.original_branch_name(repo, other_key) matches Some(v) && v != removed
            ==> s.without_mapping(repo, removed).original_branch_name(repo, other_key)
            == s.original_branch_name(repo, other_key),
{
    let r = s.repo(repo);
    lemma_repo_name(s, repo);
    if s.knows(repo) {
        lemma_with_repo_reads(
            s,
            r.with_branch_mapping(r.branch_mapping.without_value(removed)),
            repo,
        );
        if r.branch_mapping is Lines {
            lemma_removed_value_is_gone(r.branch_mapping.lines(), removed, other_key);
            if s.original_branch_name(repo, other_key) matches Some(v) && v != removed {
                lemma_remove_keeps_others(
                    r.branch_mapping.lines(),
                    other_key,
                    s.original_branch_name(repo, other_key).unwrap(),
                    removed,
                );
            }
        } else {
            crate::lists::lemma_first_where_none(
                Seq::<Seq<char>>::empty(),
                crate::registry::keyed(other_key),
            );
        }
    } else {
        crate::lists::lemma_first_where_none(
            Seq::<Seq<char>>::empty(),
            crate::registry::keyed(other_key),
        );
    }
}

/// Forgetting a directory, an origin or a managed flag of a repository
/// changes that one part of what is stored for it and nothing else.
pub proof fn removals_keep_the_rest(s: StorageView, repo: Seq<char>, text: Seq<char>)
    ensures
        s.without_directory(repo, text).repo(repo).branch_mapping == s.repo(repo).branch_mapping,
        s.without_directory(repo, text).repo(repo).origins == s.repo(repo).origins,
        s.without_directory(repo, text).repo(repo).managed == s.repo(repo).managed,
        s.without_origin(repo, text).repo(repo).branch_mapping == s.repo(repo).branch_mapping,
        s.without_origin(repo, text).repo(repo).directories == s.repo(repo).directories,
        s.without_origin(repo, text).repo(repo).managed == s.repo(repo).managed,
        s.unmarked(repo, text).repo(repo).branch_mapping == s.repo(repo).branch_mapping,
        s.unmarked(repo, text).repo(repo).origins == s.repo(repo).origins,
        s.unmarked(repo, text).repo(repo).directories == s.repo(repo).directories,
{
    let r = s.repo(repo);
    lemma_repo_name(s, repo);
    if s.knows(repo) {
        lemma_with_repo_reads(
            s,
            r.with_directories(crate::lists::without_text(r.directories, text)),
            repo,
        );
        lemma_with_repo_reads(
            s,
            r.with_origins(r.origins.without_key(crate::sanitize::sanitized(text))),
            repo,
        );
        lemma_with_repo_reads(
            s,
            r.with_managed(
                crate::lists::without_text(r.managed, crate::sanitize::sanitized(text)),
            ),
            repo,
        );
    }
}

/// Recording a directory, a mapping or an origin for a repository changes
/// that one part of what is stored for it and nothing else.
pub proof fn additions_keep_the_rest(
    s: StorageView,
    repo: Seq<char>,
    branch: Seq<char>,
    text: Seq<char>,
)
    ensures
        s.with_worktree(repo, branch).repo(repo).directories == with_text(
            s.repo(repo).directories,
            sanitized(branch),
        ),
        s.with_worktree(repo, branch).repo(repo).branch_mapping == s.repo(repo).branch_mapping,
        s.with_worktree(repo, branch).repo(repo).origins == s.repo(repo).origins,
        s.with_worktree(repo, branch).repo(repo).managed == s.repo(repo).managed,
        s.with_mapping(repo, branch, text).repo(repo).directories == s.repo(repo).directories,
        s.with_mapping(repo, branch, text).repo(repo).origins == s.repo(repo).origins,
        s.with_mapping(repo, branch, text).repo(repo).managed == s.repo(repo).managed,
        s.with_origin(repo, branch, text).repo(repo).directories == s.repo(repo).directories,
        s.with_origin(repo, branch, text).repo(repo).branch_mapping == s.repo(
            repo,
        ).branch_mapping,
        s.with_origin(repo, branch, text).repo(repo).managed == s.repo(repo).managed,
{
    let r = s.repo(repo);
    lemma_repo_name(s, repo);
    lemma_with_repo_reads(
        s,
        r.with_directories(with_text(r.directories, sanitized(branch))),
        repo,
    );
    lemma_with_repo_reads(
        s,
        r.with_branch_mapping(r.branch_mapping.with_entry(text, branch)),
        repo,
    );
    lemma_with_repo_reads(s, r.with_origins(r.origins.with_entry(sanitized(branch), text)), repo);
}

/// What was stored is read back from the file: after a value was written
/// under a key, the content rendered for the file, split into lines again,
/// maps the key to the value.  This holds where the key cannot be cut,
/// neither key nor value holds a line feed, the value does not end with a
/// carriage return, and the lines that were there come back as they are.
pub proof fn stored_entry_reads_back_from_the_file(
    file: FileView,
    key: Seq<char>,
    value: Seq<char>,
)
    requires
        !(file is Unreadable),
        plain_key(key),
        forall|i: int| 0 <= i < key.len() ==> key[i] != '\n',
        forall|i: int| 0 <= i < value.len() ==> value[i] != '\n',
        value.len() == 0 || value.last() != '\r',
        forall|i: int| 0 <= i < file.lines().len() ==> is_line(#[trigger] file.lines()[i]),
    ensures
        FileView::Lines(split_lines(rendered(file.with_entry(key, value).lines()))).get(key)
            == Some(value),
{
    let before = file.lines();
    let after = put(before, key, value);
    assert(file.with_entry(key, value).lines() == after);
    lemma_put_then_lookup(before, key, value);
    crate::registry::entry_lines_survive(key, value);
    crate::lists::lemma_kept_members(before, crate::registry::not_keyed(key));
    assert forall|i: int| 0 <= i < after.len() implies is_line(#[trigger] after[i]) by {
        if !crate::registry::holds_once(before, key, value) {
            let rest = crate::lists::kept(before, crate::registry::not_keyed(key));
            if i < rest.len() {
                let j = choose|j: int| 0 <= j < before.len() && before[j] == rest[i];
                assert(is_line(before[j]));
            }
        }
    }
    crate::lists::lemma_first_where(after, crate::registry::keyed(key));
    if after.len() == 1 && after[0].len() == 0 {
        assert(crate::text::find_text(after[0], crate::registry::separator()) is None) by {
            crate::text::lemma_find_text(after[0], crate::registry::separator());
            assert forall|j: int| !crate::text::occurs_at(
                after[0],
                crate::registry::separator(),
                j,
            ) by {}
        }
    }
    lines_survive_rendering(after);
}

} // verus!
