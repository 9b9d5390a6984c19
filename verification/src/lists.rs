//! Order-preserving selection from sequences, and what it keeps.

use crate::text::{same_str, texts};
use vstd::prelude::*;

verus! {

/// The elements of `s` that satisfy `keep`, in their order in `s`.
pub open spec fn kept<A>(s: Seq<A>, keep: spec_fn(A) -> bool) -> Seq<A>
    decreases s.len(),
{
    if s.len() == 0 {
        Seq::empty()
    } else {
        let rest = kept(s.drop_last(), keep);
        if keep(s.last()) {
            rest.push(s.last())
        } else {
            rest
        }
    }
}

/// The index of the first element of `s` that satisfies `p`.
pub open spec fn first_where<A>(s: Seq<A>, p: spec_fn(A) -> bool) -> Option<int>
    decreases s.len(),
{
    if s.len() == 0 {
        None
    } else {
        match first_where(s.drop_last(), p) {
            Some(i) => Some(i),
            None => if p(s.last()) {
                Some(s.len() - 1)
            } else {
                None
            },
        }
    }
}

/// Selecting from a sequence with one more element.
pub proof fn lemma_kept_push<A>(s: Seq<A>, x: A, keep: spec_fn(A) -> bool)
    ensures
        kept(s.push(x), keep) == if keep(x) {
            kept(s, keep).push(x)
        } else {
            kept(s, keep)
        },
{
    assert(s.push(x).drop_last() =~= s);
}

/// Everything selected satisfies the test and comes from the sequence;
/// everything in the sequence that satisfies the test is selected.
pub proof fn lemma_kept_members<A>(s: Seq<A>, keep: spec_fn(A) -> bool)
    ensures
        kept(s, keep).len() <= s.len(),
        forall|i: int|
            0 <= i < kept(s, keep).len() ==> keep(#[trigger] kept(s, keep)[i]) && s.contains(
                kept(s, keep)[i],
            ),
        forall|i: int| 0 <= i < s.len() && keep(s[i]) ==> kept(s, keep).contains(#[trigger] s[i]),
    decreases s.len(),
{
    if s.len() > 0 {
        let front = s.drop_last();
        lemma_kept_members(front, keep);
        let out = kept(s, keep);
        let rest = kept(front, keep);
        assert forall|i: int| 0 <= i < out.len() implies keep(#[trigger] out[i]) && s.contains(
            out[i],
        ) by {
            if i < rest.len() {
                let j = choose|j: int| 0 <= j < front.len() && front[j] == rest[i];
                assert(s[j] == rest[i]);
            } else {
                assert(s[s.len() - 1] == out[i]);
            }
        }
        assert forall|i: int| 0 <= i < s.len() && keep(s[i]) implies out.contains(
            #[trigger] s[i],
        ) by {
            if i < front.len() {
                assert(front[i] == s[i]);
                let j = choose|j: int| 0 <= j < rest.len() && rest[j] == front[i];
                assert(out[j] == s[i]);
            } else {
                assert(out[out.len() - 1] == s[i]);
            }
        }
    }
}

/// A sequence whose elements all satisfy the test is selected whole.
pub proof fn lemma_kept_all<A>(s: Seq<A>, keep: spec_fn(A) -> bool)
    requires
        forall|i: int| 0 <= i < s.len() ==> keep(#[trigger] s[i]),
    ensures
        kept(s, keep) == s,
    decreases s.len(),
{
    if s.len() > 0 {
        lemma_kept_all(s.drop_last(), keep);
        assert(s.drop_last().push(s.last()) =~= s);
    } else {
        assert(s =~= Seq::empty());
    }
}

/// A sequence none of whose elements satisfies the test yields nothing.
pub proof fn lemma_kept_none<A>(s: Seq<A>, keep: spec_fn(A) -> bool)
    requires
        forall|i: int| 0 <= i < s.len() ==> !keep(#[trigger] s[i]),
    ensures
        kept(s, keep) == Seq::<A>::empty(),
    decreases s.len(),
{
    if s.len() > 0 {
        lemma_kept_none(s.drop_last(), keep);
    }
}

/// Selecting twice with the same test selects nothing further.
pub proof fn lemma_kept_idempotent<A>(s: Seq<A>, keep: spec_fn(A) -> bool)
    ensures
        kept(kept(s, keep), keep) == kept(s, keep),
{
    lemma_kept_members(s, keep);
    lemma_kept_all(kept(s, keep), keep);
}

/// Searching a sequence with one more element.
pub proof fn lemma_first_where_push<A>(s: Seq<A>, x: A, p: spec_fn(A) -> bool)
    ensures
        first_where(s.push(x), p) == match first_where(s, p) {
            Some(i) => Some(i),
            None => if p(x) {
                Some(s.len() as int)
            } else {
                None
            },
        },
{
    assert(s.push(x).drop_last() =~= s);
}

/// Selecting first leaves no more elements that satisfy another test than
/// there were.
pub proof fn lemma_kept_counts<A>(s: Seq<A>, keep: spec_fn(A) -> bool, test: spec_fn(A) -> bool)
    ensures
        kept(kept(s, keep), test).len() <= kept(s, test).len(),
    decreases s.len(),
{
    if s.len() > 0 {
        lemma_kept_counts(s.drop_last(), keep, test);
        if keep(s.last()) {
            lemma_kept_push(kept(s.drop_last(), keep), s.last(), test);
        }
    }
}

/// Two tests that agree on every element of a sequence select the same.
pub proof fn lemma_kept_agree<A>(s: Seq<A>, p: spec_fn(A) -> bool, q: spec_fn(A) -> bool)
    requires
        forall|i: int| 0 <= i < s.len() ==> p(#[trigger] s[i]) == q(s[i]),
    ensures
        kept(s, p) == kept(s, q),
    decreases s.len(),
{
    if s.len() > 0 {
        let front = s.drop_last();
        assert forall|i: int| 0 <= i < front.len() implies p(#[trigger] front[i]) == q(
            front[i],
        ) by {
            assert(front[i] == s[i]);
        }
        lemma_kept_agree(front, p, q);
        assert(p(s[s.len() - 1]) == q(s[s.len() - 1]));
    }
}

/// Selecting by two tests one after the other gives the same in either
/// order.
pub proof fn lemma_kept_commutes<A>(s: Seq<A>, p: spec_fn(A) -> bool, q: spec_fn(A) -> bool)
    ensures
        kept(kept(s, p), q) == kept(kept(s, q), p),
    decreases s.len(),
{
    if s.len() > 0 {
        let front = s.drop_last();
        let x = s.last();
        lemma_kept_commutes(front, p, q);
        if p(x) {
            lemma_kept_push(kept(front, p), x, q);
        }
        if q(x) {
            lemma_kept_push(kept(front, q), x, p);
        }
    }
}

/// Where an element satisfies the test, at least one element is selected.
pub proof fn lemma_kept_some<A>(s: Seq<A>, keep: spec_fn(A) -> bool, i: int)
    requires
        0 <= i < s.len(),
        keep(s[i]),
    ensures
        kept(s, keep).len() >= 1,
{
    lemma_kept_members(s, keep);
    assert(kept(s, keep).contains(s[i]));
}

/// What `first_where` returns is the least index that satisfies the test.
pub proof fn lemma_first_where<A>(s: Seq<A>, p: spec_fn(A) -> bool)
    ensures
        match first_where(s, p) {
            Some(k) => 0 <= k < s.len() && p(s[k]) && forall|j: int| 0 <= j < k ==> !p(s[j]),
            None => forall|j: int| 0 <= j < s.len() ==> !p(s[j]),
        },
    decreases s.len(),
{
    if s.len() > 0 {
        let front = s.drop_last();
        lemma_first_where(front, p);
        assert forall|j: int| 0 <= j < front.len() implies front[j] == s[j] by {}
        match first_where(front, p) {
            Some(k) => {
                assert(front[k] == s[k]);
                assert forall|j: int| 0 <= j < k implies !p(s[j]) by {
                    assert(front[j] == s[j]);
                }
            },
            None => {
                assert forall|j: int| 0 <= j < s.len() - 1 implies !p(s[j]) by {
                    assert(front[j] == s[j]);
                }
            },
        }
    }
}

/// The least index that satisfies the test is what `first_where` returns.
pub proof fn lemma_first_where_is<A>(s: Seq<A>, p: spec_fn(A) -> bool, k: int)
    requires
        0 <= k < s.len(),
        p(s[k]),
        forall|j: int| 0 <= j < k ==> !p(s[j]),
    ensures
        first_where(s, p) == Some(k),
{
    lemma_first_where(s, p);
}

/// No element satisfies the test exactly when `first_where` finds none.
pub proof fn lemma_first_where_none<A>(s: Seq<A>, p: spec_fn(A) -> bool)
    requires
        forall|j: int| 0 <= j < s.len() ==> !p(s[j]),
    ensures
        first_where(s, p) is None,
{
    lemma_first_where(s, p);
}

/// Texts other than `text`.
pub open spec fn other_than(text: Seq<char>) -> spec_fn(Seq<char>) -> bool {
    |t: Seq<char>| t != text
}

/// The list with `text` added at the end, unless it is already in it.
pub open spec fn with_text(list: Seq<Seq<char>>, text: Seq<char>) -> Seq<Seq<char>> {
    if list.contains(text) {
        list
    } else {
        list.push(text)
    }
}

/// The list without any occurrence of `text`.
pub open spec fn without_text(list: Seq<Seq<char>>, text: Seq<char>) -> Seq<Seq<char>> {
    kept(list, other_than(text))
}

/// Whether `text` is one of the strings of `list`.
pub fn has_text(list: &Vec<String>, text: &str) -> (r: bool)
    ensures
        r == texts(list@).contains(text@),
{
    let mut i: usize = 0;
    while i < list.len()
        invariant
            i <= list.len(),
            forall|j: int| 0 <= j < i ==> texts(list@)[j] != text@,
        decreases list.len() - i,
    {
        if same_str(list[i].as_str(), text) {
            assert(texts(list@)[i as int] == text@);
            return true;
        }
        i += 1;
    }
    false
}

/// Adds `text` at the end of `list` unless it is already in it.
pub fn add_text(list: &mut Vec<String>, text: &str)
    ensures
        texts(final(list)@) == with_text(texts(old(list)@), text@),
{
    if !has_text(list, text) {
        let ghost before = list@;
        list.push(text.to_owned());
        assert(texts(list@) =~= texts(before).push(text@));
    }
}

/// Removes every occurrence of `text` from `list`.
pub fn remove_text(list: &mut Vec<String>, text: &str)
    ensures
        texts(final(list)@) == without_text(texts(old(list)@), text@),
{
    let ghost all = texts(list@);
    let mut out: Vec<String> = Vec::new();
    let mut i: usize = 0;
    proof {
        assert(all.take(0) =~= Seq::empty());
        assert(texts(out@) =~= Seq::empty());
    }
    while i < list.len()
        invariant
            i <= list.len(),
            all == texts(list@),
            texts(out@) == kept(all.take(i as int), other_than(text@)),
        decreases list.len() - i,
    {
        proof {
            assert(all[i as int] == list@[i as int]@);
            assert(all.take(i + 1) =~= all.take(i as int).push(all[i as int]));
            lemma_kept_push(all.take(i as int), all[i as int], other_than(text@));
        }
        if !same_str(list[i].as_str(), text) {
            let ghost before = out@;
            out.push(list[i].clone());
            proof {
                assert(texts(out@) =~= texts(before).push(all[i as int]));
            }
        }
        i += 1;
    }
    proof {
        assert(all.take(list.len() as int) =~= all);
    }
    *list = out;
}

/// A copy of a list of strings.
pub fn copy_texts(list: &Vec<String>) -> (r: Vec<String>)
    ensures
        texts(r@) == texts(list@),
{
    let mut out: Vec<String> = Vec::new();
    let mut i: usize = 0;
    while i < list.len()
        invariant
            i <= list.len(),
            out@.len() == i,
            forall|j: int| 0 <= j < i ==> out@[j]@ == list@[j]@,
        decreases list.len() - i,
    {
        out.push(list[i].clone());
        i += 1;
    }
    assert(texts(out@) =~= texts(list@));
    out
}

} // verus!
