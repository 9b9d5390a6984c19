//! The line-oriented registry format: one `key -> value` entry per line.
//!
//! A registry is a list of text lines.  A line that holds the separator is
//! an entry, split at the separator's first occurrence; any other line is
//! carried along untouched.

use crate::lists::{
    first_where, kept, lemma_first_where, lemma_first_where_is, lemma_first_where_none,
    lemma_first_where_push, lemma_kept_counts, lemma_kept_members, lemma_kept_none,
    lemma_kept_push, lemma_kept_some,
};
use crate::text::{
    append_text, chars_of, contains_text, find_in, find_text, is_line, lemma_find_text,
    lemma_find_text_is, occurs_at, same_str, same_text,
    slice_of, string_of, texts,
};
use vstd::prelude::*;

verus! {

/// The text between the key and the value of an entry: a space, `->`, a space.
pub open spec fn separator() -> Seq<char> {
    seq![' ', '-', '>', ' ']
}

/// The entry a line holds: what stands before and after the first separator.
pub open spec fn entry_of(line: Seq<char>) -> Option<(Seq<char>, Seq<char>)> {
    match find_text(line, separator()) {
        Some(i) => Some((line.take(i), line.skip(i + 4))),
        None => None,
    }
}

/// The line that records `key -> value`.
pub open spec fn entry_line(key: Seq<char>, value: Seq<char>) -> Seq<char> {
    key + separator() + value
}

/// Lines that are entries under `key`.
pub open spec fn keyed(key: Seq<char>) -> spec_fn(Seq<char>) -> bool {
    |line: Seq<char>| entry_of(line) matches Some(e) && e.0 == key
}

/// Lines that are entries with value `value`.
pub open spec fn valued(value: Seq<char>) -> spec_fn(Seq<char>) -> bool {
    |line: Seq<char>| entry_of(line) matches Some(e) && e.1 == value
}

/// Lines that are not entries under `key`.
pub open spec fn not_keyed(key: Seq<char>) -> spec_fn(Seq<char>) -> bool {
    |line: Seq<char>| !keyed(key)(line)
}

/// Lines that are not entries with value `value`.
pub open spec fn not_valued(value: Seq<char>) -> spec_fn(Seq<char>) -> bool {
    |line: Seq<char>| !valued(value)(line)
}

/// The value of the first entry under `key`.
pub open spec fn lookup(lines: Seq<Seq<char>>, key: Seq<char>) -> Option<Seq<char>> {
    match first_where(lines, keyed(key)) {
        Some(i) => Some(entry_of(lines[i]).unwrap().1),
        None => None,
    }
}

/// How many entries stand under `key`.
pub open spec fn key_rows(lines: Seq<Seq<char>>, key: Seq<char>) -> nat {
    kept(lines, keyed(key)).len()
}

/// `key` has exactly one entry, and it maps to `value`.
pub open spec fn holds_once(lines: Seq<Seq<char>>, key: Seq<char>, value: Seq<char>) -> bool {
    key_rows(lines, key) == 1 && lookup(lines, key) == Some(value)
}

/// The registry after `key -> value` is written: unchanged where that is
/// already the key's one entry; otherwise every entry under the key is
/// dropped and the new one appended.
pub open spec fn put(lines: Seq<Seq<char>>, key: Seq<char>, value: Seq<char>) -> Seq<Seq<char>> {
    if holds_once(lines, key, value) {
        lines
    } else {
        kept(lines, not_keyed(key)).push(entry_line(key, value))
    }
}

/// The registry without the entries that map to `value`.
pub open spec fn remove_value(lines: Seq<Seq<char>>, value: Seq<char>) -> Seq<Seq<char>> {
    kept(lines, not_valued(value))
}

/// The registry without the entries under `key`.
pub open spec fn remove_key(lines: Seq<Seq<char>>, key: Seq<char>) -> Seq<Seq<char>> {
    kept(lines, not_keyed(key))
}

/// The separator, as characters.
pub fn separator_chars() -> (r: Vec<char>)
    ensures
        r@ == separator(),
{
    let r = vec![' ', '-', '>', ' '];
    assert(r@ =~= separator());
    r
}

/// Splits a line at its first separator.
pub fn split_entry(line: &Vec<char>) -> (r: Option<(Vec<char>, Vec<char>)>)
    ensures
        match r {
            Some(e) => entry_of(line@) == Some((e.0@, e.1@)),
            None => entry_of(line@) is None,
        },
{
    let sep = separator_chars();
    match find_in(line, &sep, 0) {
        Some(i) => {
            proof {
                lemma_find_text(line@, sep@);
                assert(sep@.len() == 4);
                assert(occurs_at(line@, sep@, i as int));
            }
            let end = line.len();
            let key = slice_of(line, 0, i);
            let value = slice_of(line, i + 4, end);
            Some((key, value))
        },
        None => None,
    }
}

/// The entry a line of text holds, if it holds one.
pub fn parse_entry(line: &str) -> (r: Option<(String, String)>)
    ensures
        match r {
            Some(e) => entry_of(line@) == Some((e.0@, e.1@)),
            None => entry_of(line@) is None,
        },
{
    let chars = chars_of(line);
    match split_entry(&chars) {
        Some((key, value)) => Some((string_of(&key), string_of(&value))),
        None => None,
    }
}

/// The line of text that records `key -> value`.
pub fn format_entry(key: &str, value: &str) -> (r: String)
    ensures
        r@ == entry_line(key@, value@),
{
    let mut out = chars_of(key);
    let sep = separator_chars();
    append_text(&mut out, &sep);
    let v = chars_of(value);
    append_text(&mut out, &v);
    string_of(&out)
}

/// Whether `line` is an entry under `key`.
pub fn is_keyed(line: &str, key: &Vec<char>) -> (r: bool)
    ensures
        r == keyed(key@)(line@),
{
    let chars = chars_of(line);
    match split_entry(&chars) {
        Some((k, _)) => same_text(&k, key),
        None => false,
    }
}

/// Whether `line` is an entry with value `value`.
pub fn is_valued(line: &str, value: &Vec<char>) -> (r: bool)
    ensures
        r == valued(value@)(line@),
{
    let chars = chars_of(line);
    match split_entry(&chars) {
        Some((_, v)) => same_text(&v, value),
        None => false,
    }
}

/// The value of the first entry under `key`.
pub fn lookup_in(lines: &Vec<String>, key: &str) -> (r: Option<String>)
    ensures
        match r {
            Some(v) => lookup(texts(lines@), key@) == Some(v@),
            None => lookup(texts(lines@), key@) is None,
        },
{
    let k = chars_of(key);
    let ghost all = texts(lines@);
    let mut i: usize = 0;
    while i < lines.len()
        invariant
            i <= lines.len(),
            all == texts(lines@),
            k@ == key@,
            forall|j: int| 0 <= j < i ==> !keyed(key@)(#[trigger] all[j]),
        decreases lines.len() - i,
    {
        let chars = chars_of(lines[i].as_str());
        match split_entry(&chars) {
            Some((found, value)) => {
                if same_text(&found, &k) {
                    proof {
                        assert(all[i as int] == lines@[i as int]@);
                        lemma_first_where_is(all, keyed(key@), i as int);
                    }
                    return Some(string_of(&value));
                }
            },
            None => {},
        }
        assert(all[i as int] == lines@[i as int]@);
        i += 1;
    }
    proof {
        lemma_first_where_none(all, keyed(key@));
    }
    None
}

/// How many entries stand under `key`.
pub fn count_key(lines: &Vec<String>, key: &str) -> (r: usize)
    ensures
        r == key_rows(texts(lines@), key@),
{
    let k = chars_of(key);
    let ghost all = texts(lines@);
    let mut n: usize = 0;
    let mut i: usize = 0;
    proof {
        assert(all.take(0) =~= Seq::empty());
    }
    while i < lines.len()
        invariant
            i <= lines.len(),
            all == texts(lines@),
            k@ == key@,
            n <= i,
            n == kept(all.take(i as int), keyed(key@)).len(),
        decreases lines.len() - i,
    {
        proof {
            assert(all[i as int] == lines@[i as int]@);
            assert(all.take(i + 1) =~= all.take(i as int).push(all[i as int]));
            lemma_kept_push(all.take(i as int), all[i as int], keyed(key@));
        }
        if is_keyed(lines[i].as_str(), &k) {
            n += 1;
        }
        i += 1;
    }
    proof {
        assert(all.take(lines.len() as int) =~= all);
    }
    n
}

/// Keeps the lines that are not entries under `key`.
pub fn drop_key(lines: &mut Vec<String>, key: &str)
    ensures
        texts(final(lines)@) == remove_key(texts(old(lines)@), key@),
{
    let k = chars_of(key);
    let ghost all = texts(lines@);
    let mut out: Vec<String> = Vec::new();
    let mut i: usize = 0;
    proof {
        assert(all.take(0) =~= Seq::empty());
        assert(texts(out@) =~= Seq::empty());
    }
    while i < lines.len()
        invariant
            i <= lines.len(),
            all == texts(lines@),
            k@ == key@,
            texts(out@) == kept(all.take(i as int), not_keyed(key@)),
        decreases lines.len() - i,
    {
        proof {
            assert(all[i as int] == lines@[i as int]@);
            assert(all.take(i + 1) =~= all.take(i as int).push(all[i as int]));
            lemma_kept_push(all.take(i as int), all[i as int], not_keyed(key@));
        }
        if !is_keyed(lines[i].as_str(), &k) {
            let ghost before = out@;
            let line = lines[i].clone();
            out.push(line);
            proof {
                assert(texts(out@) =~= texts(before).push(all[i as int]));
            }
        }
        i += 1;
    }
    proof {
        assert(all.take(lines.len() as int) =~= all);
    }
    *lines = out;
}

/// Keeps the lines that are not entries with value `value`.
pub fn drop_value(lines: &mut Vec<String>, value: &str)
    ensures
        texts(final(lines)@) == remove_value(texts(old(lines)@), value@),
{
    let v = chars_of(value);
    let ghost all = texts(lines@);
    let mut out: Vec<String> = Vec::new();
    let mut i: usize = 0;
    proof {
        assert(all.take(0) =~= Seq::empty());
        assert(texts(out@) =~= Seq::empty());
    }
    while i < lines.len()
        invariant
            i <= lines.len(),
            all == texts(lines@),
            v@ == value@,
            texts(out@) == kept(all.take(i as int), not_valued(value@)),
        decreases lines.len() - i,
    {
        proof {
            assert(all[i as int] == lines@[i as int]@);
            assert(all.take(i + 1) =~= all.take(i as int).push(all[i as int]));
            lemma_kept_push(all.take(i as int), all[i as int], not_valued(value@));
        }
        if !is_valued(lines[i].as_str(), &v) {
            let ghost before = out@;
            let line = lines[i].clone();
            out.push(line);
            proof {
                assert(texts(out@) =~= texts(before).push(all[i as int]));
            }
        }
        i += 1;
    }
    proof {
        assert(all.take(lines.len() as int) =~= all);
    }
    *lines = out;
}

/// Writes `key -> value`: nothing changes where that is already the key's
/// one entry; otherwise the key's entries are dropped and the new entry is
/// appended.
pub fn put_in(lines: &mut Vec<String>, key: &str, value: &str)
    ensures
        texts(final(lines)@) == put(texts(old(lines)@), key@, value@),
{
    let once = count_key(lines, key) == 1;
    let same = match lookup_in(lines, key) {
        Some(v) => same_str(v.as_str(), value),
        None => false,
    };
    if !(once && same) {
        drop_key(lines, key);
        let ghost before = lines@;
        lines.push(format_entry(key, value));
        proof {
            assert(texts(lines@) =~= texts(before).push(entry_line(key@, value@)));
        }
    }
}

/// A key that the separator cannot cut: written before the separator, no
/// separator begins within the key.  That is so where the key followed by
/// ` ->` holds no separator.
pub open spec fn plain_key(key: Seq<char>) -> bool {
    !contains_text(ended_key(key), separator())
}

/// A key without `>` is plain; so is every sanitized name.
pub proof fn lemma_keys_without_arrow_are_plain(key: Seq<char>)
    requires
        forall|i: int| 0 <= i < key.len() ==> key[i] != '>',
    ensures
        plain_key(key),
{
    let ended = ended_key(key);
    let k = key.len() as int;
    assert forall|j: int| !occurs_at(ended, separator(), j) by {
        if occurs_at(ended, separator(), j) {
            assert(ended.subrange(j, j + 4)[2] == separator()[2]);
            assert(ended[j + 2] == '>');
            if j + 2 < k {
                assert(ended[j + 2] == key[j + 2]);
            } else {
                assert(ended[j + 2] == seq![' ', '-', '>'][j + 2 - k]);
            }
        }
    }
}

/// The key followed by ` ->`, which is where a separator would have to
/// begin to cut the key.
pub open spec fn ended_key(key: Seq<char>) -> Seq<char> {
    key + seq![' ', '-', '>']
}

/// The line written for an entry begins with the key followed by ` ->`.
proof fn lemma_line_begins_with_ended_key(key: Seq<char>, value: Seq<char>, i: int)
    requires
        0 <= i < key.len() + 3,
    ensures
        entry_line(key, value)[i] == ended_key(key)[i],
{
    let sep = separator();
    let tail = seq![' ', '-', '>'];
    if i < key.len() {
        assert(entry_line(key, value)[i] == key[i]);
        assert(ended_key(key)[i] == key[i]);
    } else {
        let m = i - key.len();
        assert(entry_line(key, value)[i] == sep[m]);
        assert(ended_key(key)[i] == tail[m]);
        assert(sep[m] == tail[m]);
    }
}

/// A separator that begins within the key, in the line written for an
/// entry or in the key followed by ` ->`, begins there in the other too.
proof fn lemma_cuts_agree(key: Seq<char>, value: Seq<char>, j: int)
    requires
        0 <= j < key.len(),
    ensures
        occurs_at(entry_line(key, value), separator(), j) == occurs_at(
            ended_key(key),
            separator(),
            j,
        ),
{
    let line = entry_line(key, value);
    let ended = ended_key(key);
    assert(separator().len() == 4);
    assert(ended.len() == key.len() + 3);
    assert(line.len() == key.len() + 4 + value.len());
    assert(line.subrange(j, j + 4) =~= ended.subrange(j, j + 4)) by {
        lemma_line_begins_with_ended_key(key, value, j);
        lemma_line_begins_with_ended_key(key, value, j + 1);
        lemma_line_begins_with_ended_key(key, value, j + 2);
        lemma_line_begins_with_ended_key(key, value, j + 3);
    }
}

/// A line written for a plain key reads back as that key and value.
pub proof fn lemma_entry_round_trip(key: Seq<char>, value: Seq<char>)
    requires
        plain_key(key),
    ensures
        entry_of(entry_line(key, value)) == Some((key, value)),
{
    let line = entry_line(key, value);
    let sep = separator();
    let k = key.len() as int;
    assert(sep.len() == 4);
    assert(line.subrange(k, k + 4) =~= sep);
    assert forall|j: int| 0 <= j < k implies !occurs_at(line, sep, j) by {
        lemma_cuts_agree(key, value, j);
    }
    lemma_find_text_is(line, sep, k);
    assert(line.take(k) =~= key);
    assert(line.skip(k + 4) =~= value);
}

/// A key that is not plain does not read back: the line written for it
/// is cut earlier, and holds a shorter key.
pub proof fn lemma_cut_keys_do_not_read_back(key: Seq<char>, value: Seq<char>)
    requires
        !plain_key(key),
    ensures
        entry_of(entry_line(key, value)) matches Some(e) && e.0.len() < key.len(),
{
    let line = entry_line(key, value);
    let sep = separator();
    let j = choose|j: int| occurs_at(ended_key(key), sep, j);
    assert(sep.len() == 4);
    assert(ended_key(key).len() == key.len() + 3);
    lemma_cuts_agree(key, value, j);
    lemma_find_text(line, sep);
}

/// Looking a key up in a registry with one more line.
pub proof fn lemma_lookup_push(lines: Seq<Seq<char>>, line: Seq<char>, key: Seq<char>)
    ensures
        lookup(lines.push(line), key) == match lookup(lines, key) {
            Some(v) => Some(v),
            None => if keyed(key)(line) {
                Some(entry_of(line).unwrap().1)
            } else {
                None
            },
        },
{
    lemma_first_where_push(lines, line, keyed(key));
    lemma_first_where(lines, keyed(key));
}

/// A value written under a plain key is the value read back under it,
/// whatever the registry held before.
pub proof fn lemma_put_then_lookup(lines: Seq<Seq<char>>, key: Seq<char>, value: Seq<char>)
    requires
        plain_key(key),
    ensures
        lookup(put(lines, key, value), key) == Some(value),
{
    if !holds_once(lines, key, value) {
        let rest = kept(lines, not_keyed(key));
        lemma_kept_members(lines, not_keyed(key));
        lemma_first_where_none(rest, keyed(key));
        lemma_entry_round_trip(key, value);
        lemma_lookup_push(rest, entry_line(key, value), key);
    }
}

/// After a write under a plain key the registry holds exactly one entry
/// under that key, and writing the same pair again changes nothing.
pub proof fn lemma_put_twice(lines: Seq<Seq<char>>, key: Seq<char>, value: Seq<char>)
    requires
        plain_key(key),
    ensures
        key_rows(put(lines, key, value), key) == 1,
        put(put(lines, key, value), key, value) == put(lines, key, value),
{
    lemma_put_then_lookup(lines, key, value);
    if !holds_once(lines, key, value) {
        let rest = kept(lines, not_keyed(key));
        lemma_kept_members(lines, not_keyed(key));
        lemma_kept_none(rest, keyed(key));
        lemma_entry_round_trip(key, value);
        lemma_kept_push(rest, entry_line(key, value), keyed(key));
    }
}

/// Once the entries that map to `removed` are gone, no key maps to it.
pub proof fn lemma_removed_value_is_gone(
    lines: Seq<Seq<char>>,
    removed: Seq<char>,
    key: Seq<char>,
)
    ensures
        lookup(remove_value(lines, removed), key) != Some(removed),
{
    let rest = remove_value(lines, removed);
    lemma_kept_members(lines, not_valued(removed));
    lemma_first_where(rest, keyed(key));
}

/// In a consistent registry a key that maps to `removed` maps to nothing
/// once the entries that map to `removed` are gone.
pub proof fn lemma_remove_then_lookup(lines: Seq<Seq<char>>, key: Seq<char>, removed: Seq<char>)
    requires
        lookup(lines, key) == Some(removed),
        consistent(lines),
    ensures
        lookup(remove_value(lines, removed), key) is None,
{
    let rest = remove_value(lines, removed);
    let under = kept(lines, keyed(key));
    lemma_lookup_counts(lines, key);
    assert(key_rows(lines, key) <= 1);
    lemma_first_where(lines, keyed(key));
    lemma_kept_members(lines, keyed(key));
    lemma_kept_members(lines, not_valued(removed));
    let first = first_where(lines, keyed(key)).unwrap();
    assert(under.contains(lines[first]));
    assert(under[0] == lines[first]);
    assert forall|j: int| 0 <= j < rest.len() implies !keyed(key)(#[trigger] rest[j]) by {
        if keyed(key)(rest[j]) {
            assert(lines.contains(rest[j]));
            let a = choose|a: int| 0 <= a < lines.len() && lines[a] == rest[j];
            assert(under.contains(lines[a]));
            assert(under[0] == lines[a]);
            assert(valued(removed)(rest[j]));
        }
    }
    lemma_first_where_none(rest, keyed(key));
}

/// A key that maps to another value than `removed` still maps to it once
/// the entries that map to `removed` are gone.
pub proof fn lemma_remove_keeps_others(
    lines: Seq<Seq<char>>,
    key: Seq<char>,
    value: Seq<char>,
    removed: Seq<char>,
)
    requires
        lookup(lines, key) == Some(value),
        value != removed,
    ensures
        lookup(remove_value(lines, removed), key) == Some(value),
    decreases lines.len(),
{
    if lines.len() > 0 {
        let front = lines.drop_last();
        let last = lines.last();
        assert(front.push(last) =~= lines);
        lemma_lookup_push(front, last, key);
        lemma_kept_push(front, last, not_valued(removed));
        if lookup(front, key) is Some {
            lemma_remove_keeps_others(front, key, value, removed);
            if not_valued(removed)(last) {
                lemma_lookup_push(remove_value(front, removed), last, key);
            }
        } else {
            let rest = remove_value(front, removed);
            lemma_first_where(front, keyed(key));
            lemma_kept_members(front, not_valued(removed));
            assert forall|j: int| 0 <= j < rest.len() implies !keyed(key)(#[trigger] rest[j]) by {
                let a = choose|a: int| 0 <= a < front.len() && front[a] == rest[j];
            }
            lemma_first_where_none(rest, keyed(key));
            lemma_lookup_push(rest, last, key);
        }
    }
}

/// A registry is consistent where no key has more than one entry.
pub open spec fn consistent(lines: Seq<Seq<char>>) -> bool {
    forall|key: Seq<char>| #[trigger] key_rows(lines, key) <= 1
}

/// A key that maps to something has an entry.
pub proof fn lemma_lookup_counts(lines: Seq<Seq<char>>, key: Seq<char>)
    requires
        lookup(lines, key) is Some,
    ensures
        key_rows(lines, key) >= 1,
{
    lemma_first_where(lines, keyed(key));
    lemma_kept_some(lines, keyed(key), first_where(lines, keyed(key)).unwrap());
}

/// Writing an entry under a plain key keeps a consistent registry
/// consistent, and so does removing entries.
pub proof fn writes_keep_consistency(lines: Seq<Seq<char>>, key: Seq<char>, value: Seq<char>)
    requires
        consistent(lines),
        plain_key(key),
    ensures
        consistent(put(lines, key, value)),
        consistent(remove_value(lines, value)),
        consistent(remove_key(lines, key)),
{
    assert forall|k: Seq<char>| #[trigger] key_rows(remove_value(lines, value), k) <= 1 by {
        lemma_kept_counts(lines, not_valued(value), keyed(k));
        assert(key_rows(lines, k) <= 1);
    }
    assert forall|k: Seq<char>| #[trigger] key_rows(remove_key(lines, key), k) <= 1 by {
        lemma_kept_counts(lines, not_keyed(key), keyed(k));
        assert(key_rows(lines, k) <= 1);
    }
    assert forall|k: Seq<char>| #[trigger] key_rows(put(lines, key, value), k) <= 1 by {
        if holds_once(lines, key, value) {
            assert(key_rows(lines, k) <= 1);
        } else if k == key {
            lemma_put_twice(lines, key, value);
        } else {
            let rest = kept(lines, not_keyed(key));
            lemma_kept_counts(lines, not_keyed(key), keyed(k));
            assert(key_rows(lines, k) <= 1);
            lemma_entry_round_trip(key, value);
            lemma_kept_push(rest, entry_line(key, value), keyed(k));
        }
    }
}

/// The line written for an entry comes back as it was written, where
/// neither the key nor the value holds a line feed and the value does not
/// end with a carriage return.
pub proof fn entry_lines_survive(key: Seq<char>, value: Seq<char>)
    requires
        forall|i: int| 0 <= i < key.len() ==> key[i] != '\n',
        forall|i: int| 0 <= i < value.len() ==> value[i] != '\n',
        value.len() == 0 || value.last() != '\r',
    ensures
        is_line(entry_line(key, value)),
{
    let line = entry_line(key, value);
    assert forall|i: int| 0 <= i < line.len() implies line[i] != '\n' by {
        if i < key.len() {
            assert(line[i] == key[i]);
        } else if i < key.len() + 4 {
            assert(line[i] == separator()[i - key.len()]);
        } else {
            assert(line[i] == value[i - key.len() - 4]);
        }
    }
    if value.len() == 0 {
        assert(line.last() == separator()[3]);
    } else {
        assert(line.last() == value.last());
    }
}

} // verus!
