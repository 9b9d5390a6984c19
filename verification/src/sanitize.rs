//! Directory-safe branch names.
//!
//! A branch name may hold characters that cannot stand in a directory
//! name.  Sanitizing replaces each of them with `-`.

use crate::registry::{lemma_keys_without_arrow_are_plain, plain_key};
use crate::text::{chars_of, string_of};
use vstd::prelude::*;

verus! {

/// The characters that cannot stand in a directory name:
/// `/ \ : * ? " < > |`.
pub open spec fn is_unsafe(c: char) -> bool {
    c == '/' || c == '\\' || c == ':' || c == '*' || c == '?' || c == '"' || c == '<' || c == '>'
        || c == '|'
}

/// The safe stand-in for a character: `-` for an unsafe one, itself otherwise.
pub open spec fn safe_char(c: char) -> char {
    if is_unsafe(c) {
        '-'
    } else {
        c
    }
}

/// `name` with every unsafe character replaced by `-`.
pub open spec fn sanitized(name: Seq<char>) -> Seq<char> {
    Seq::new(name.len(), |i: int| safe_char(name[i]))
}

/// `name` holds an unsafe character.
pub open spec fn has_unsafe(name: Seq<char>) -> bool {
    exists|i: int| 0 <= i < name.len() && is_unsafe(#[trigger] name[i])
}

/// Whether `c` cannot stand in a directory name.
pub fn char_is_unsafe(c: char) -> (r: bool)
    ensures
        r == is_unsafe(c),
{
    c == '/' || c == '\\' || c == ':' || c == '*' || c == '?' || c == '"' || c == '<' || c == '>'
        || c == '|'
}

/// The directory-safe form of a branch name.
pub fn sanitize(name: &str) -> (r: String)
    ensures
        r@ == sanitized(name@),
{
    let chars = chars_of(name);
    let mut out: Vec<char> = Vec::new();
    let mut i: usize = 0;
    while i < chars.len()
        invariant
            i <= chars.len(),
            chars@ == name@,
            out@.len() == i,
            forall|j: int| 0 <= j < i ==> out@[j] == safe_char(name@[j]),
        decreases chars.len() - i,
    {
        let c = chars[i];
        if char_is_unsafe(c) {
            out.push('-');
        } else {
            out.push(c);
        }
        i += 1;
    }
    assert(out@ =~= sanitized(name@));
    string_of(&out)
}

/// Whether sanitizing would alter `name`.
pub fn contains_special_chars(name: &str) -> (r: bool)
    ensures
        r == has_unsafe(name@),
{
    let chars = chars_of(name);
    let mut i: usize = 0;
    while i < chars.len()
        invariant
            i <= chars.len(),
            chars@ == name@,
            forall|j: int| 0 <= j < i ==> !is_unsafe(#[trigger] name@[j]),
        decreases chars.len() - i,
    {
        if char_is_unsafe(chars[i]) {
            return true;
        }
        i += 1;
    }
    false
}

/// Sanitizing is idempotent: a sanitized name is its own sanitized form.
pub proof fn sanitize_is_idempotent(name: Seq<char>)
    ensures
        sanitized(sanitized(name)) == sanitized(name),
{
    assert(sanitized(sanitized(name)) =~= sanitized(name));
}

/// A sanitized name holds no unsafe character, and has the length of the
/// name it came from.
pub proof fn sanitized_names_are_safe(name: Seq<char>)
    ensures
        !has_unsafe(sanitized(name)),
        sanitized(name).len() == name.len(),
        plain_key(sanitized(name)),
{
    assert forall|i: int| 0 <= i < sanitized(name).len() implies sanitized(name)[i] != '>' by {
        assert(!is_unsafe(sanitized(name)[i]));
    }
    lemma_keys_without_arrow_are_plain(sanitized(name));
}

/// Sanitizing leaves a name unchanged exactly when it holds no unsafe
/// character.
pub proof fn safe_names_stay_as_they_are(name: Seq<char>)
    ensures
        sanitized(name) == name <==> !has_unsafe(name),
{
    if !has_unsafe(name) {
        assert(sanitized(name) =~= name);
    }
    if sanitized(name) == name {
        assert forall|i: int| 0 <= i < name.len() implies !is_unsafe(#[trigger] name[i]) by {
            assert(sanitized(name)[i] == name[i]);
        }
    }
}

} // verus!
