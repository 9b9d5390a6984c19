//! Git configuration that a worktree inherits from its repository: which
//! keys go along, and what type a value is written back with.

use crate::lists::{kept, lemma_kept_push};
use crate::text::{chars_of, matches_at, same_text, starts_with};
use vstd::prelude::*;

verus! {

/// A configuration value with its type.
#[derive(Debug, Clone, PartialEq, Eq)]
pub enum ConfigValue {
    String(String),
    Bool(bool),
    Int(i64),
}

/// A configuration value, as plain data.
pub enum ValueView {
    String(Seq<char>),
    Bool(bool),
    Int(i64),
}

impl View for ConfigValue {
    type V = ValueView;

    open spec fn view(&self) -> ValueView {
        match self {
            ConfigValue::String(s) => ValueView::String(s@),
            ConfigValue::Bool(b) => ValueView::Bool(*b),
            ConfigValue::Int(i) => ValueView::Int(*i),
        }
    }
}

/// One configuration entry.
#[derive(Debug, Clone, PartialEq, Eq)]
pub struct ConfigEntry {
    pub key: String,
    pub value: ConfigValue,
}

/// A configuration entry, as plain data.
pub struct ConfigEntryView {
    pub key: Seq<char>,
    pub value: ValueView,
}

impl View for ConfigEntry {
    type V = ConfigEntryView;

    open spec fn view(&self) -> ConfigEntryView {
        ConfigEntryView { key: self.key@, value: self.value@ }
    }
}

impl ConfigEntry {
    /// A copy of the entry.
    pub fn copy(&self) -> (r: Self)
        ensures
            r@ == self@,
    {
        let value = match &self.value {
            ConfigValue::String(s) => ConfigValue::String(s.clone()),
            ConfigValue::Bool(b) => ConfigValue::Bool(*b),
            ConfigValue::Int(n) => ConfigValue::Int(*n),
        };
        ConfigEntry { key: self.key.clone(), value }
    }
}

/// The views of a list of entries.
pub open spec fn entry_views(v: Seq<ConfigEntry>) -> Seq<ConfigEntryView> {
    Seq::new(v.len(), |i: int| v[i]@)
}

/// The character sequences of a list of string slices.
pub open spec fn slices(v: Seq<&'static str>) -> Seq<Seq<char>> {
    Seq::new(v.len(), |i: int| v[i]@)
}

/// The keys that belong to the repository itself and are never inherited.
pub open spec fn excluded_keys() -> Seq<Seq<char>> {
    seq![
        "core.bare"@,
        "core.worktree"@,
        "core.repositoryformatversion"@,
        "extensions.worktreeconfig"@,
    ]
}

/// The beginnings of keys that belong to the repository itself.
pub open spec fn excluded_prefixes() -> Seq<Seq<char>> {
    seq!["branch."@, "remote."@, "submodule."@]
}

/// The beginnings of keys that belong to the user and are inherited.
pub open spec fn included_prefixes() -> Seq<Seq<char>> {
    seq![
        "user."@,
        "commit."@,
        "gpg."@,
        "credential."@,
        "push."@,
        "pull."@,
        "merge."@,
        "diff."@,
        "log."@,
        "color."@,
        "core.editor"@,
        "core.pager"@,
        "core.autocrlf"@,
        "core.filemode"@,
        "init.defaultbranch"@,
    ]
}

/// `key` begins with one of `prefixes`.
pub open spec fn begins_with_any(key: Seq<char>, prefixes: Seq<Seq<char>>) -> bool {
    exists|i: int| 0 <= i < prefixes.len() && starts_with(key, #[trigger] prefixes[i])
}

/// Whether a worktree inherits the key: it is none of the excluded keys,
/// begins with none of the excluded beginnings, and begins with one of the
/// included ones.  Every other key stays behind.
pub open spec fn inherited(key: Seq<char>) -> bool {
    !excluded_keys().contains(key) && !begins_with_any(key, excluded_prefixes())
        && begins_with_any(key, included_prefixes())
}

/// Whether `key` begins with one of `prefixes`.
fn key_begins_with_any(key: &Vec<char>, prefixes: &Vec<&'static str>) -> (r: bool)
    ensures
        r == begins_with_any(key@, slices(prefixes@)),
{
    let mut i: usize = 0;
    while i < prefixes.len()
        invariant
            i <= prefixes.len(),
            forall|j: int| 0 <= j < i ==> !starts_with(key@, #[trigger] slices(prefixes@)[j]),
        decreases prefixes.len() - i,
    {
        let prefix = chars_of(prefixes[i]);
        if matches_at(key, &prefix, 0) {
            assert(starts_with(key@, slices(prefixes@)[i as int]));
            return true;
        }
        i += 1;
    }
    false
}

/// Whether `key` is one of `keys`.
fn key_is_any(key: &Vec<char>, keys: &Vec<&'static str>) -> (r: bool)
    ensures
        r == slices(keys@).contains(key@),
{
    let mut i: usize = 0;
    while i < keys.len()
        invariant
            i <= keys.len(),
            forall|j: int| 0 <= j < i ==> slices(keys@)[j] != key@,
        decreases keys.len() - i,
    {
        let other = chars_of(keys[i]);
        if same_text(key, &other) {
            assert(slices(keys@)[i as int] == key@);
            return true;
        }
        i += 1;
    }
    false
}

/// Whether a worktree inherits the configuration key.
pub fn should_inherit_config_key(key: &str) -> (r: bool)
    ensures
        r == inherited(key@),
{
    let chars = chars_of(key);
    let excluded = vec![
        "core.bare",
        "core.worktree",
        "core.repositoryformatversion",
        "extensions.worktreeconfig",
    ];
    let outside = vec!["branch.", "remote.", "submodule."];
    let inside = vec![
        "user.",
        "commit.",
        "gpg.",
        "credential.",
        "push.",
        "pull.",
        "merge.",
        "diff.",
        "log.",
        "color.",
        "core.editor",
        "core.pager",
        "core.autocrlf",
        "core.filemode",
        "init.defaultbranch",
    ];
    proof {
        assert(slices(excluded@) =~= excluded_keys());
        assert(slices(outside@) =~= excluded_prefixes());
        assert(slices(inside@) =~= included_prefixes());
    }
    if key_is_any(&chars, &excluded) {
        return false;
    }
    if key_begins_with_any(&chars, &outside) {
        return false;
    }
    key_begins_with_any(&chars, &inside)
}

/// The typed value of a configuration entry, given what reading it as a
/// truth value and as a number gave: a truth value where that reading
/// succeeded, else a number where that one did, else the raw text.
pub fn classify_config_value(as_bool: Option<bool>, as_int: Option<i64>, raw: &str) -> (r:
    ConfigValue)
    ensures
        r@ == match as_bool {
            Some(b) => ValueView::Bool(b),
            None => match as_int {
                Some(i) => ValueView::Int(i),
                None => ValueView::String(raw@),
            },
        },
{
    match as_bool {
        Some(b) => ConfigValue::Bool(b),
        None => match as_int {
            Some(i) => ConfigValue::Int(i),
            None => ConfigValue::String(raw.to_owned()),
        },
    }
}

/// Entries whose key a worktree inherits.
pub open spec fn inheritable() -> spec_fn(ConfigEntryView) -> bool {
    |e: ConfigEntryView| inherited(e.key)
}

/// The entries a worktree inherits, in order.
pub fn entries_to_inherit(entries: &Vec<ConfigEntry>) -> (r: Vec<ConfigEntry>)
    ensures
        entry_views(r@) == kept(entry_views(entries@), inheritable()),
{
    let ghost all = entry_views(entries@);
    let mut out: Vec<ConfigEntry> = Vec::new();
    let mut i: usize = 0;
    proof {
        assert(all.take(0) =~= Seq::empty());
        assert(entry_views(out@) =~= Seq::empty());
    }
    while i < entries.len()
        invariant
            i <= entries.len(),
            all == entry_views(entries@),
            entry_views(out@) == kept(all.take(i as int), inheritable()),
        decreases entries.len() - i,
    {
        proof {
            assert(all[i as int] == entries@[i as int]@);
            assert(all.take(i + 1) =~= all.take(i as int).push(all[i as int]));
            lemma_kept_push(all.take(i as int), all[i as int], inheritable());
        }
        if should_inherit_config_key(entries[i].key.as_str()) {
            let ghost before = entry_views(out@);
            out.push(entries[i].copy());
            proof {
                assert(entry_views(out@) =~= before.push(all[i as int]));
            }
        }
        i += 1;
    }
    proof {
        assert(all.take(entries.len() as int) =~= all);
    }
    out
}

/// Whether no entry after the one at index `i` has the same key.
pub open spec fn is_last_of_its_key(entries: Seq<ConfigEntryView>, i: int) -> bool {
    forall|j: int| i < j < entries.len() ==> (#[trigger] entries[j]).key != entries[i].key
}

/// The entries among the first `n` that are the last of their key, in
/// order.
pub open spec fn last_values_upto(entries: Seq<ConfigEntryView>, n: int) -> Seq<ConfigEntryView>
    decreases n,
{
    if n <= 0 {
        Seq::empty()
    } else {
        let rest = last_values_upto(entries, n - 1);
        if is_last_of_its_key(entries, n - 1) {
            rest.push(entries[n - 1])
        } else {
            rest
        }
    }
}

/// The effective entries: where a key was read more than once, its last
/// entry counts and the earlier ones are dropped.
pub open spec fn last_values(entries: Seq<ConfigEntryView>) -> Seq<ConfigEntryView> {
    last_values_upto(entries, entries.len() as int)
}

/// The effective entries of a configuration as it was read, entry by
/// entry: the last entry of each key, in the order read.
pub fn effective_entries(entries: &Vec<ConfigEntry>) -> (r: Vec<ConfigEntry>)
    ensures
        entry_views(r@) == last_values(entry_views(entries@)),
{
    let ghost all = entry_views(entries@);
    let mut out: Vec<ConfigEntry> = Vec::new();
    let mut i: usize = 0;
    proof {
        assert(entry_views(out@) =~= Seq::empty());
    }
    while i < entries.len()
        invariant
            i <= entries.len(),
            all == entry_views(entries@),
            entry_views(out@) == last_values_upto(all, i as int),
        decreases entries.len() - i,
    {
        let key = chars_of(entries[i].key.as_str());
        let mut later = false;
        let mut j: usize = i + 1;
        while j < entries.len()
            invariant
                i < j <= entries.len(),
                all == entry_views(entries@),
                key@ == entries@[i as int].key@,
                later == exists|k: int| i < k < j && (#[trigger] all[k]).key == all[i as int].key,
            decreases entries.len() - j,
        {
            let other = chars_of(entries[j].key.as_str());
            if same_text(&other, &key) {
                assert(all[j as int].key == all[i as int].key);
                later = true;
            }
            j += 1;
        }
        if !later {
            let ghost before = entry_views(out@);
            out.push(entries[i].copy());
            proof {
                assert(entry_views(out@) =~= before.push(all[i as int]));
            }
        }
        i += 1;
    }
    out
}

} // verus!
