//! Text as sequences of characters: conversions between strings and
//! character vectors, substring search, and splitting into lines.

use vstd::prelude::*;

verus! {

/// The character sequences of a list of strings.
pub open spec fn texts(v: Seq<String>) -> Seq<Seq<char>> {
    Seq::new(v.len(), |i: int| v[i]@)
}

/// `pat` stands in `s` at index `i`.
pub open spec fn occurs_at(s: Seq<char>, pat: Seq<char>, i: int) -> bool {
    0 <= i && i + pat.len() <= s.len() && s.subrange(i, i + pat.len()) == pat
}

/// `pat` stands somewhere in `s`.
pub open spec fn contains_text(s: Seq<char>, pat: Seq<char>) -> bool {
    exists|i: int| occurs_at(s, pat, i)
}

/// `s` begins with `pat`.
pub open spec fn starts_with(s: Seq<char>, pat: Seq<char>) -> bool {
    occurs_at(s, pat, 0)
}

/// The least index at or after `from` where `pat` stands in `s`.
pub open spec fn find_from(s: Seq<char>, pat: Seq<char>, from: int) -> Option<int>
    decreases s.len() - from + 1,
{
    if from < 0 || from + pat.len() > s.len() {
        None
    } else if occurs_at(s, pat, from) {
        Some(from)
    } else {
        find_from(s, pat, from + 1)
    }
}

/// The least index where `pat` stands in `s`.
pub open spec fn find_text(s: Seq<char>, pat: Seq<char>) -> Option<int> {
    find_from(s, pat, 0)
}

/// The greatest index below `bound` where `pat` stands in `s`.
pub open spec fn rfind_below(s: Seq<char>, pat: Seq<char>, bound: int) -> Option<int>
    decreases bound,
{
    if bound <= 0 {
        None
    } else if occurs_at(s, pat, bound - 1) {
        Some(bound - 1)
    } else {
        rfind_below(s, pat, bound - 1)
    }
}

/// The greatest index where `pat` stands in `s`.
pub open spec fn rfind_text(s: Seq<char>, pat: Seq<char>) -> Option<int> {
    rfind_below(s, pat, s.len() as int + 1)
}

/// What `find_from` returns is the first occurrence at or after `from`.
pub proof fn lemma_find_from(s: Seq<char>, pat: Seq<char>, from: int)
    requires
        0 <= from,
    ensures
        match find_from(s, pat, from) {
            Some(k) => from <= k && occurs_at(s, pat, k) && forall|j: int|
                from <= j < k ==> !occurs_at(s, pat, j),
            None => forall|j: int| from <= j ==> !occurs_at(s, pat, j),
        },
    decreases s.len() - from + 1,
{
    if from + pat.len() > s.len() {
    } else if occurs_at(s, pat, from) {
    } else {
        lemma_find_from(s, pat, from + 1);
    }
}

/// `find_text` finds an occurrence exactly when there is one.
pub proof fn lemma_find_text(s: Seq<char>, pat: Seq<char>)
    ensures
        find_text(s, pat) is Some <==> contains_text(s, pat),
        find_text(s, pat) matches Some(k) ==> occurs_at(s, pat, k) && forall|j: int|
            0 <= j < k ==> !occurs_at(s, pat, j),
{
    lemma_find_from(s, pat, 0);
}

/// An occurrence that no earlier one precedes is the one `find_text` returns.
pub proof fn lemma_find_text_is(s: Seq<char>, pat: Seq<char>, k: int)
    requires
        occurs_at(s, pat, k),
        forall|j: int| 0 <= j < k ==> !occurs_at(s, pat, j),
    ensures
        find_text(s, pat) == Some(k),
{
    lemma_find_from(s, pat, 0);
}

/// What `rfind_below` returns is the last occurrence below `bound`.
pub proof fn lemma_rfind_below(s: Seq<char>, pat: Seq<char>, bound: int)
    ensures
        match rfind_below(s, pat, bound) {
            Some(k) => 0 <= k < bound && occurs_at(s, pat, k) && forall|j: int|
                k < j < bound ==> !occurs_at(s, pat, j),
            None => forall|j: int| j < bound ==> !occurs_at(s, pat, j),
        },
    decreases bound,
{
    if bound <= 0 {
    } else if occurs_at(s, pat, bound - 1) {
    } else {
        lemma_rfind_below(s, pat, bound - 1);
    }
}

/// What `rfind_text` returns is the last occurrence.
pub proof fn lemma_rfind_text(s: Seq<char>, pat: Seq<char>)
    ensures
        match rfind_text(s, pat) {
            Some(k) => occurs_at(s, pat, k) && forall|j: int| k < j ==> !occurs_at(s, pat, j),
            None => !contains_text(s, pat),
        },
{
    lemma_rfind_below(s, pat, s.len() as int + 1);
}

/// An occurrence that no later one follows is the one `rfind_text` returns.
pub proof fn lemma_rfind_text_is(s: Seq<char>, pat: Seq<char>, k: int)
    requires
        occurs_at(s, pat, k),
        forall|j: int| k < j ==> !occurs_at(s, pat, j),
    ensures
        rfind_text(s, pat) == Some(k),
{
    lemma_rfind_text(s, pat);
}

/// The characters of `s`, in order.
pub fn chars_of(s: &str) -> (r: Vec<char>)
    ensures
        r@ == s@,
{
    let mut out: Vec<char> = Vec::new();
    for c in it: s.chars()
        invariant
            it.seq() == s@,
            out@ == s@.take(it.index()),
    {
        out.push(c);
    }
    out
}

/// Builds a string from characters with `String::from_iter`; the result
/// holds exactly the given characters in the given order.
#[verifier::external_body]
pub(crate) fn string_of(chars: &Vec<char>) -> (r: String)
    ensures
        r@ == chars@,
{
    String::from_iter(chars)
}

/// Whether two texts hold the same characters.
pub fn same_text(a: &Vec<char>, b: &Vec<char>) -> (r: bool)
    ensures
        r == (a@ == b@),
{
    if a.len() != b.len() {
        return false;
    }
    let mut i: usize = 0;
    while i < a.len()
        invariant
            a.len() == b.len(),
            i <= a.len(),
            a@.take(i as int) == b@.take(i as int),
        decreases a.len() - i,
    {
        if a[i] != b[i] {
            return false;
        }
        proof {
            assert(a@.take(i + 1) =~= a@.take(i as int).push(a@[i as int]));
            assert(b@.take(i + 1) =~= b@.take(i as int).push(b@[i as int]));
        }
        i += 1;
    }
    proof {
        assert(a@.take(a.len() as int) =~= a@);
        assert(b@.take(b.len() as int) =~= b@);
    }
    true
}

/// Whether two strings hold the same characters.
pub fn same_str(a: &str, b: &str) -> (r: bool)
    ensures
        r == (a@ == b@),
{
    let x = chars_of(a);
    let y = chars_of(b);
    same_text(&x, &y)
}

/// Whether `pat` stands in `s` at index `i`.
pub fn matches_at(s: &Vec<char>, pat: &Vec<char>, i: usize) -> (r: bool)
    ensures
        r == occurs_at(s@, pat@, i as int),
{
    if pat.len() > s.len() || i > s.len() - pat.len() {
        return false;
    }
    let mut k: usize = 0;
    while k < pat.len()
        invariant
            i + pat.len() <= s.len(),
            k <= pat.len(),
            s@.subrange(i as int, i + k) == pat@.take(k as int),
        decreases pat.len() - k,
    {
        if s[i + k] != pat[k] {
            proof {
                let w = s@.subrange(i as int, i + pat.len());
                assert(w[k as int] == s@[i + k]);
            }
            return false;
        }
        proof {
            assert(s@.subrange(i as int, i + k + 1) =~= s@.subrange(i as int, i + k).push(
                s@[i + k],
            ));
            assert(pat@.take(k + 1) =~= pat@.take(k as int).push(pat@[k as int]));
        }
        k += 1;
    }
    proof {
        assert(pat@.take(pat.len() as int) =~= pat@);
    }
    true
}

/// The first index at or after `from` where `pat` stands in `s`.
pub fn find_in(s: &Vec<char>, pat: &Vec<char>, from: usize) -> (r: Option<usize>)
    ensures
        match r {
            Some(k) => find_from(s@, pat@, from as int) == Some(k as int),
            None => find_from(s@, pat@, from as int) is None,
        },
{
    if pat.len() > s.len() || from > s.len() - pat.len() {
        return None;
    }
    let last: usize = s.len() - pat.len();
    let mut i: usize = from;
    loop
        invariant
            last == s.len() - pat.len(),
            from <= i <= last,
            find_from(s@, pat@, from as int) == find_from(s@, pat@, i as int),
        decreases last - i,
    {
        if matches_at(s, pat, i) {
            return Some(i);
        }
        if i == last {
            assert(find_from(s@, pat@, i + 1) is None);
            return None;
        }
        i += 1;
    }
}

/// Whether `pat` stands somewhere in `s`.
pub fn contains_in(s: &Vec<char>, pat: &Vec<char>) -> (r: bool)
    ensures
        r == contains_text(s@, pat@),
{
    proof {
        lemma_find_text(s@, pat@);
    }
    find_in(s, pat, 0).is_some()
}

/// The last index where `pat` stands in `s`.
pub fn rfind_in(s: &Vec<char>, pat: &Vec<char>) -> (r: Option<usize>)
    ensures
        match r {
            Some(k) => rfind_text(s@, pat@) == Some(k as int),
            None => rfind_text(s@, pat@) is None,
        },
{
    if pat.len() > s.len() {
        proof {
            lemma_rfind_below(s@, pat@, s.len() + 1);
        }
        return None;
    }
    let mut k: usize = s.len() - pat.len();
    proof {
        lemma_rfind_skip(s@, pat@, s.len() + 1, k + 1);
    }
    loop
        invariant
            k <= s.len() - pat.len(),
            pat.len() <= s.len(),
            rfind_text(s@, pat@) == rfind_below(s@, pat@, k + 1),
        decreases k,
    {
        if matches_at(s, pat, k) {
            return Some(k);
        }
        if k == 0 {
            assert(rfind_below(s@, pat@, 0) is None);
            return None;
        }
        k -= 1;
    }
}

/// Indices too close to the end to hold `pat` do not count.
pub proof fn lemma_rfind_skip(s: Seq<char>, pat: Seq<char>, bound: int, low: int)
    requires
        low <= bound,
        low + pat.len() > s.len(),
        0 <= low,
    ensures
        rfind_below(s, pat, bound) == rfind_below(s, pat, low),
    decreases bound - low,
{
    if bound > low {
        lemma_rfind_skip(s, pat, bound - 1, low);
    }
}

/// The characters of `s` from index `from` up to, not including, `to`.
pub(crate) fn slice_of(s: &Vec<char>, from: usize, to: usize) -> (r: Vec<char>)
    requires
        from <= to <= s.len(),
    ensures
        r@ == s@.subrange(from as int, to as int),
{
    let mut out: Vec<char> = Vec::new();
    let mut i: usize = from;
    while i < to
        invariant
            from <= i <= to <= s.len(),
            out@ == s@.subrange(from as int, i as int),
        decreases to - i,
    {
        out.push(s[i]);
        proof {
            assert(s@.subrange(from as int, i + 1) =~= s@.subrange(from as int, i as int).push(
                s@[i as int],
            ));
        }
        i += 1;
    }
    out
}

/// Appends the characters of `tail` to `head`.
pub fn append_text(head: &mut Vec<char>, tail: &Vec<char>)
    ensures
        final(head)@ == old(head)@ + tail@,
{
    let mut i: usize = 0;
    while i < tail.len()
        invariant
            i <= tail.len(),
            head@ == old(head)@ + tail@.take(i as int),
        decreases tail.len() - i,
    {
        head.push(tail[i]);
        proof {
            assert(tail@.take(i + 1) =~= tail@.take(i as int).push(tail@[i as int]));
            assert(old(head)@ + tail@.take(i + 1) =~= (old(head)@ + tail@.take(i as int)).push(
                tail@[i as int],
            ));
        }
        i += 1;
    }
    proof {
        assert(tail@.take(tail.len() as int) =~= tail@);
    }
}

/// `line` without one carriage return at its end, if it has one.
pub open spec fn without_cr(line: Seq<char>) -> Seq<char> {
    if line.len() > 0 && line.last() == '\r' {
        line.drop_last()
    } else {
        line
    }
}

/// The lines of `s` from index `at` on, where the line being read began at
/// index `start`.
pub open spec fn lines_between(s: Seq<char>, start: int, at: int) -> Seq<Seq<char>>
    decreases s.len() - at,
{
    if at >= s.len() {
        if start < s.len() {
            seq![s.subrange(start, s.len() as int)]
        } else {
            Seq::empty()
        }
    } else if s[at] == '\n' {
        seq![without_cr(s.subrange(start, at))] + lines_between(s, at + 1, at + 1)
    } else {
        lines_between(s, start, at + 1)
    }
}

/// The lines of `s`.  A line ends at a line feed; a carriage return just
/// before the line feed belongs to the line ending.  Text after the last
/// line feed is a line of its own, unless there is none.
pub open spec fn split_lines(s: Seq<char>) -> Seq<Seq<char>> {
    lines_between(s, 0, 0)
}

/// The lines with a line feed between each two of them.
pub open spec fn joined_lines(lines: Seq<Seq<char>>) -> Seq<char>
    decreases lines.len(),
{
    if lines.len() == 0 {
        Seq::empty()
    } else if lines.len() == 1 {
        lines[0]
    } else {
        joined_lines(lines.drop_last()) + seq!['\n'] + lines.last()
    }
}

/// The lines as the content of a file: joined by line feeds and ended by
/// one, or nothing at all where that joined text is empty.
pub open spec fn rendered(lines: Seq<Seq<char>>) -> Seq<char> {
    let body = joined_lines(lines);
    if body.len() == 0 {
        body
    } else {
        body + seq!['\n']
    }
}

/// The lines of `content`.
pub fn lines_of(content: &str) -> (r: Vec<String>)
    ensures
        texts(r@) == split_lines(content@),
{
    let chars = chars_of(content);
    let mut out: Vec<String> = Vec::new();
    let mut start: usize = 0;
    let mut at: usize = 0;
    proof {
        assert(texts(out@) =~= Seq::empty());
    }
    while at < chars.len()
        invariant
            start <= at <= chars.len(),
            chars@ == content@,
            split_lines(content@) == texts(out@) + lines_between(
                content@,
                start as int,
                at as int,
            ),
        decreases chars.len() - at,
    {
        if chars[at] == '\n' {
            let ghost done = texts(out@);
            let ghost raw = content@.subrange(start as int, at as int);
            let ghost tail = lines_between(content@, at + 1, at + 1);
            let end = if at > start && chars[at - 1] == '\r' {
                at - 1
            } else {
                at
            };
            let line = slice_of(&chars, start, end);
            proof {
                if at > start {
                    assert(raw.last() == content@[at - 1]);
                }
                assert(line@ =~= without_cr(raw));
            }
            out.push(string_of(&line));
            proof {
                assert(texts(out@) =~= done + seq![without_cr(raw)]);
                assert(done + (seq![without_cr(raw)] + tail) =~= (done + seq![without_cr(raw)])
                    + tail);
            }
            start = at + 1;
        }
        at += 1;
    }
    if start < chars.len() {
        let ghost done = texts(out@);
        let line = slice_of(&chars, start, chars.len());
        out.push(string_of(&line));
        proof {
            assert(texts(out@) =~= done + seq![content@.subrange(start as int, at as int)]);
        }
    }
    out
}

/// The lines as the content of a file.
pub fn render_lines(lines: &Vec<String>) -> (r: String)
    ensures
        r@ == rendered(texts(lines@)),
{
    let ghost all = texts(lines@);
    let mut out: Vec<char> = Vec::new();
    let mut i: usize = 0;
    proof {
        assert(all.take(0) =~= Seq::empty());
    }
    while i < lines.len()
        invariant
            i <= lines.len(),
            all == texts(lines@),
            out@ == joined_lines(all.take(i as int)),
        decreases lines.len() - i,
    {
        proof {
            let next = all.take(i + 1);
            assert(next.drop_last() =~= all.take(i as int));
            assert(next.last() == lines@[i as int]@);
            assert(next[0] == all[0]);
        }
        if i > 0 {
            out.push('\n');
        }
        let line = chars_of(lines[i].as_str());
        let ghost before = out@;
        append_text(&mut out, &line);
        proof {
            if i > 0 {
                assert(out@ =~= joined_lines(all.take(i as int)) + seq!['\n'] + line@);
            } else {
                assert(before =~= Seq::empty());
                assert(out@ =~= line@);
            }
        }
        i += 1;
    }
    proof {
        assert(all.take(lines.len() as int) =~= all);
    }
    if out.len() > 0 {
        out.push('\n');
    }
    string_of(&out)
}

/// A line that comes back as it was written: it holds no line feed and
/// does not end with a carriage return.
pub open spec fn is_line(line: Seq<char>) -> bool {
    (forall|i: int| 0 <= i < line.len() ==> line[i] != '\n') && (line.len() == 0 || line.last()
        != '\r')
}

/// The lines, each followed by a line feed.
pub open spec fn ended_lines(lines: Seq<Seq<char>>) -> Seq<char>
    decreases lines.len(),
{
    if lines.len() == 0 {
        Seq::empty()
    } else {
        ended_lines(lines.drop_last()) + lines.last() + seq!['\n']
    }
}

/// Reading on over characters that are no line feeds changes nothing.
proof fn lemma_scan_line(s: Seq<char>, start: int, from: int, to: int)
    requires
        0 <= from <= to <= s.len(),
        forall|i: int| from <= i < to ==> s[i] != '\n',
    ensures
        lines_between(s, start, from) == lines_between(s, start, to),
    decreases to - from,
{
    if from < to {
        lemma_scan_line(s, start, from + 1, to);
    }
}

/// A text that ends its last line, followed by one more ended line, splits
/// into the lines of the text and that line.
proof fn lemma_lines_appended(s: Seq<char>, start: int, at: int, line: Seq<char>)
    requires
        0 <= start <= at <= s.len(),
        s.len() == 0 || s.last() == '\n',
        at == s.len() ==> start == at,
        is_line(line),
    ensures
        lines_between(s + line + seq!['\n'], start, at) == lines_between(s, start, at) + seq![
            line,
        ],
    decreases s.len() - at,
{
    let longer = s + line + seq!['\n'];
    if at < s.len() {
        assert(longer[at] == s[at]);
        if s[at] == '\n' {
            lemma_lines_appended(s, at + 1, at + 1, line);
            assert(longer.subrange(start, at) =~= s.subrange(start, at));
            let head = seq![without_cr(s.subrange(start, at))];
            assert(head + (lines_between(s, at + 1, at + 1) + seq![line]) =~= (head
                + lines_between(s, at + 1, at + 1)) + seq![line]);
        } else {
            lemma_lines_appended(s, start, at + 1, line);
        }
    } else {
        let end = (s.len() + line.len()) as int;
        assert forall|i: int| at <= i < end implies longer[i] != '\n' by {
            assert(longer[i] == line[i - s.len()]);
        }
        lemma_scan_line(longer, start, at, end);
        assert(longer[end] == '\n');
        assert(longer.subrange(start, end) =~= line);
        assert(lines_between(longer, end + 1, end + 1) =~= Seq::<Seq<char>>::empty());
        assert(lines_between(s, start, at) =~= Seq::<Seq<char>>::empty());
        assert(seq![line] + Seq::<Seq<char>>::empty() =~= Seq::<Seq<char>>::empty() + seq![
            line,
        ]);
    }
}

/// Lines that are each followed by a line feed split into those lines.
proof fn lemma_split_ended(lines: Seq<Seq<char>>)
    requires
        forall|i: int| 0 <= i < lines.len() ==> is_line(#[trigger] lines[i]),
    ensures
        split_lines(ended_lines(lines)) == lines,
        ended_lines(lines).len() == 0 || ended_lines(lines).last() == '\n',
    decreases lines.len(),
{
    if lines.len() > 0 {
        let front = lines.drop_last();
        lemma_split_ended(front);
        lemma_lines_appended(ended_lines(front), 0, 0, lines.last());
        assert(front + seq![lines.last()] =~= lines);
    }
}

/// The content rendered for at least one line is the lines joined, and a
/// line feed.
proof fn lemma_joined_then_ended(lines: Seq<Seq<char>>)
    requires
        lines.len() > 0,
    ensures
        joined_lines(lines) + seq!['\n'] == ended_lines(lines),
    decreases lines.len(),
{
    if lines.len() == 1 {
        assert(ended_lines(lines.drop_last()) =~= Seq::<char>::empty());
        assert(joined_lines(lines) + seq!['\n'] =~= ended_lines(lines));
    } else {
        lemma_joined_then_ended(lines.drop_last());
        assert(joined_lines(lines) + seq!['\n'] =~= ended_lines(lines));
    }
}

/// What is written is what is read back: lines that hold no line feed and
/// do not end with a carriage return, rendered as the content of a file,
/// split into the same lines again.  The one list left out is the single
/// empty line, which is rendered as no content at all.
pub proof fn lines_survive_rendering(lines: Seq<Seq<char>>)
    requires
        forall|i: int| 0 <= i < lines.len() ==> is_line(#[trigger] lines[i]),
        !(lines.len() == 1 && lines[0].len() == 0),
    ensures
        split_lines(rendered(lines)) == lines,
{
    lemma_split_ended(lines);
    if lines.len() > 0 {
        lemma_joined_then_ended(lines);
        if lines.len() > 1 {
            assert(joined_lines(lines).len() > 0);
        }
    }
}

} // verus!
