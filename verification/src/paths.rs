//! Storage paths as text: components separated by `/`, compared and
//! combined lexically, without touching the file system.

use crate::text::{append_text, chars_of, same_text, slice_of, string_of, texts};
use vstd::prelude::*;

verus! {

/// The text `.`, which names the directory it stands in.
pub open spec fn dot() -> Seq<char> {
    seq!['.']
}

/// The text `..`, which names the parent directory.
pub open spec fn dot_dot() -> Seq<char> {
    seq!['.', '.']
}

/// A piece between separators counts as a component unless it is empty,
/// or is `.` and not the first piece of the path.
pub open spec fn is_component(piece: Seq<char>, first: bool) -> bool {
    piece.len() > 0 && (piece != dot() || first)
}

/// The piece as a list of components: itself, or nothing.
pub open spec fn component_list(piece: Seq<char>, first: bool) -> Seq<Seq<char>> {
    if is_component(piece, first) {
        seq![piece]
    } else {
        Seq::empty()
    }
}

/// The components of `path` from index `at` on, where the piece being read
/// began at index `start`.
pub open spec fn components_between(path: Seq<char>, start: int, at: int) -> Seq<Seq<char>>
    decreases path.len() - at,
{
    if at >= path.len() {
        component_list(path.subrange(start, path.len() as int), start == 0)
    } else if path[at] == '/' {
        component_list(path.subrange(start, at), start == 0) + components_between(
            path,
            at + 1,
            at + 1,
        )
    } else {
        components_between(path, start, at + 1)
    }
}

/// The components of `path`: its non-empty pieces between `/`, without
/// `.` but where the path begins with it.
pub open spec fn components(path: Seq<char>) -> Seq<Seq<char>> {
    components_between(path, 0, 0)
}

/// A path is absolute when it begins with `/`.
pub open spec fn is_absolute(path: Seq<char>) -> bool {
    path.len() > 0 && path[0] == '/'
}

/// `name` placed under `base`: an absolute `name` replaces `base`;
/// otherwise a `/` is put between the two unless `base` is empty or already
/// ends with one.
pub open spec fn joined(base: Seq<char>, name: Seq<char>) -> Seq<char> {
    if is_absolute(name) {
        name
    } else if base.len() == 0 || base.last() == '/' {
        base + name
    } else {
        base + seq!['/'] + name
    }
}

/// The last component of `path`, unless there is none or it is `.` or
/// `..`.
pub open spec fn file_name(path: Seq<char>) -> Option<Seq<char>> {
    let parts = components(path);
    if parts.len() == 0 || parts.last() == dot() || parts.last() == dot_dot() {
        None
    } else {
        Some(parts.last())
    }
}

/// Whether `path` can lie below `base` by how the two begin: below an
/// absolute base only an absolute path does, and below a relative base with
/// components only a relative one.
pub open spec fn roots_agree(path: Seq<char>, base: Seq<char>) -> bool {
    if is_absolute(base) {
        is_absolute(path)
    } else {
        !is_absolute(path) || components(base).len() == 0
    }
}

/// What is left of `path` below `base`: the components of `path` after those
/// of `base`, where the roots agree and the components of `base` begin those
/// of `path`.
pub open spec fn below(path: Seq<char>, base: Seq<char>) -> Option<Seq<Seq<char>>> {
    let p = components(path);
    let b = components(base);
    if roots_agree(path, base) && b.len() <= p.len() && p.take(b.len() as int) == b {
        Some(p.skip(b.len() as int))
    } else {
        None
    }
}

/// Whether `path` begins with `/`.
pub fn path_is_absolute(path: &str) -> (r: bool)
    ensures
        r == is_absolute(path@),
{
    let chars = chars_of(path);
    chars.len() > 0 && chars[0] == '/'
}

/// `name` placed under `base`.
pub fn join(base: &str, name: &str) -> (r: String)
    ensures
        r@ == joined(base@, name@),
{
    let b = chars_of(base);
    let n = chars_of(name);
    if n.len() > 0 && n[0] == '/' {
        return string_of(&n);
    }
    let mut out = b;
    if out.len() > 0 && out[out.len() - 1] != '/' {
        out.push('/');
        assert(out@ =~= base@ + seq!['/']);
    }
    append_text(&mut out, &n);
    string_of(&out)
}

/// Whether the piece `path[start..end]` counts as a component.
fn piece_is_component(path: &Vec<char>, start: usize, end: usize) -> (r: bool)
    requires
        start <= end <= path.len(),
    ensures
        r == is_component(path@.subrange(start as int, end as int), start == 0),
{
    let ghost piece = path@.subrange(start as int, end as int);
    if end == start {
        return false;
    }
    if end - start == 1 && path[start] == '.' {
        assert(piece =~= dot());
        return start == 0;
    }
    proof {
        if piece == dot() {
            assert(piece.len() == 1);
            assert(piece[0] == '.');
        }
    }
    true
}

/// The components of `path`, in order.
pub fn path_components(path: &str) -> (r: Vec<String>)
    ensures
        texts(r@) == components(path@),
{
    let chars = chars_of(path);
    let mut out: Vec<String> = Vec::new();
    let mut start: usize = 0;
    let mut at: usize = 0;
    proof {
        assert(texts(out@) =~= Seq::empty());
    }
    while at < chars.len()
        invariant
            start <= at <= chars.len(),
            chars@ == path@,
            components(path@) == texts(out@) + components_between(path@, start as int, at as int),
        decreases chars.len() - at,
    {
        if chars[at] == '/' {
            let ghost done = texts(out@);
            let ghost head = component_list(path@.subrange(start as int, at as int), start == 0);
            let ghost tail = components_between(path@, at + 1, at + 1);
            if piece_is_component(&chars, start, at) {
                let piece = slice_of(&chars, start, at);
                out.push(string_of(&piece));
            }
            proof {
                assert(texts(out@) =~= done + head);
                assert(done + (head + tail) =~= (done + head) + tail);
            }
            start = at + 1;
        }
        at += 1;
    }
    let ghost done = texts(out@);
    if piece_is_component(&chars, start, at) {
        let piece = slice_of(&chars, start, at);
        out.push(string_of(&piece));
    }
    proof {
        assert(texts(out@) =~= done + component_list(
            path@.subrange(start as int, at as int),
            start == 0,
        ));
    }
    out
}

/// The last component of `path`, unless there is none or it is `.` or
/// `..`.
pub fn path_file_name(path: &str) -> (r: Option<String>)
    ensures
        match r {
            Some(name) => file_name(path@) == Some(name@),
            None => file_name(path@) is None,
        },
{
    let mut parts = path_components(path);
    match parts.pop() {
        Some(last) => {
            if is_dots(last.as_str()) {
                None
            } else {
                Some(last)
            }
        },
        None => None,
    }
}

/// Whether a component is `.` or `..`.
pub fn is_dots(component: &str) -> (r: bool)
    ensures
        r == (component@ == dot() || component@ == dot_dot()),
{
    let chars = chars_of(component);
    let here = vec!['.'];
    let up = vec!['.', '.'];
    assert(here@ =~= dot());
    assert(up@ =~= dot_dot());
    same_text(&chars, &here) || same_text(&chars, &up)
}

/// The components of `path` below `base`, where `path` lies below `base`.
pub fn path_below(path: &str, base: &str) -> (r: Option<Vec<String>>)
    ensures
        match r {
            Some(rest) => below(path@, base@) == Some(texts(rest@)),
            None => below(path@, base@) is None,
        },
{
    let p = path_components(path);
    let b = path_components(base);
    let agree = if path_is_absolute(base) {
        path_is_absolute(path)
    } else {
        !path_is_absolute(path) || b.len() == 0
    };
    if !agree || b.len() > p.len() {
        return None;
    }
    let mut i: usize = 0;
    while i < b.len()
        invariant
            i <= b.len() <= p.len(),
            texts(p@) == components(path@),
            texts(b@) == components(base@),
            roots_agree(path@, base@),
            texts(p@).take(i as int) == texts(b@).take(i as int),
        decreases b.len() - i,
    {
        if !crate::text::same_str(p[i].as_str(), b[i].as_str()) {
            proof {
                let cut = texts(p@).take(b.len() as int);
                assert(cut[i as int] == p@[i as int]@);
                assert(texts(b@)[i as int] == b@[i as int]@);
                assert(cut != texts(b@));
            }
            return None;
        }
        proof {
            assert(texts(p@).take(i + 1) =~= texts(p@).take(i as int).push(p@[i as int]@));
            assert(texts(b@).take(i + 1) =~= texts(b@).take(i as int).push(b@[i as int]@));
        }
        i += 1;
    }
    proof {
        assert(texts(b@).take(b.len() as int) =~= texts(b@));
    }
    let mut rest: Vec<String> = Vec::new();
    let mut j: usize = b.len();
    proof {
        assert(texts(rest@) =~= texts(p@).subrange(b.len() as int, j as int));
    }
    while j < p.len()
        invariant
            b.len() <= j <= p.len(),
            texts(rest@) == texts(p@).subrange(b.len() as int, j as int),
        decreases p.len() - j,
    {
        let ghost before = rest@;
        rest.push(p[j].clone());
        proof {
            assert(texts(rest@) =~= texts(before).push(p@[j as int]@));
            assert(texts(p@).subrange(b.len() as int, j + 1) =~= texts(p@).subrange(
                b.len() as int,
                j as int,
            ).push(p@[j as int]@));
        }
        j += 1;
    }
    proof {
        assert(texts(p@).subrange(b.len() as int, p.len() as int) =~= texts(p@).skip(
            b.len() as int,
        ));
    }
    Some(rest)
}

/// A name that is one component of a path: not empty, without `/`, and
/// neither `.` nor `..`.
pub open spec fn is_name(name: Seq<char>) -> bool {
    name.len() > 0 && (forall|i: int| 0 <= i < name.len() ==> name[i] != '/') && name != dot()
        && name != dot_dot()
}

/// Reading on over characters that are no separators changes nothing.
proof fn lemma_scan_piece(path: Seq<char>, start: int, from: int, to: int)
    requires
        0 <= from <= to <= path.len(),
        forall|i: int| from <= i < to ==> path[i] != '/',
    ensures
        components_between(path, start, from) == components_between(path, start, to),
    decreases to - from,
{
    if from < to {
        lemma_scan_piece(path, start, from + 1, to);
    }
}

/// A separator at the end of a path adds no component.
proof fn lemma_components_ended(path: Seq<char>, start: int, at: int)
    requires
        0 <= start <= at <= path.len(),
    ensures
        components_between(path + seq!['/'], start, at) == components_between(path, start, at),
    decreases path.len() - at,
{
    let longer = path + seq!['/'];
    if at < path.len() {
        assert(longer[at] == path[at]);
        if path[at] == '/' {
            lemma_components_ended(path, at + 1, at + 1);
            assert(longer.subrange(start, at) =~= path.subrange(start, at));
        } else {
            lemma_components_ended(path, start, at + 1);
        }
    } else {
        let last = component_list(path.subrange(start, path.len() as int), start == 0);
        assert(longer[at] == '/');
        assert(longer.subrange(start, at) =~= path.subrange(start, path.len() as int));
        assert(longer.subrange(at + 1, longer.len() as int) =~= Seq::<char>::empty());
        assert(components_between(longer, at + 1, at + 1) =~= Seq::<Seq<char>>::empty());
        assert(last + Seq::<Seq<char>>::empty() =~= last);
    }
}

/// A name appended to a path that is empty or ends with a separator adds
/// that name as the last component.
proof fn lemma_components_appended(path: Seq<char>, start: int, at: int, name: Seq<char>)
    requires
        0 <= start <= at <= path.len(),
        path.len() == 0 || path.last() == '/',
        at == path.len() ==> start == at,
        is_name(name),
    ensures
        components_between(path + name, start, at) == components_between(path, start, at) + seq![
            name,
        ],
    decreases path.len() - at,
{
    let longer = path + name;
    if at < path.len() {
        assert(longer[at] == path[at]);
        if path[at] == '/' {
            lemma_components_appended(path, at + 1, at + 1, name);
            assert(longer.subrange(start, at) =~= path.subrange(start, at));
            let head = component_list(path.subrange(start, at), start == 0);
            assert(head + (components_between(path, at + 1, at + 1) + seq![name]) =~= (head
                + components_between(path, at + 1, at + 1)) + seq![name]);
        } else {
            lemma_components_appended(path, start, at + 1, name);
        }
    } else {
        assert forall|i: int| at <= i < longer.len() implies longer[i] != '/' by {
            assert(longer[i] == name[i - path.len()]);
        }
        lemma_scan_piece(longer, start, at, longer.len() as int);
        assert(longer.subrange(start, longer.len() as int) =~= name);
        assert(path.subrange(start, path.len() as int) =~= Seq::<char>::empty());
        assert(Seq::<Seq<char>>::empty() + seq![name] =~= seq![name]);
    }
}

/// Placing a name under a path adds that name after the path's
/// components, and leaves the path absolute or relative as it was.
pub proof fn lemma_joined_components(base: Seq<char>, name: Seq<char>)
    requires
        is_name(name),
    ensures
        components(joined(base, name)) == components(base) + seq![name],
        is_absolute(joined(base, name)) == is_absolute(base),
{
    assert(name[0] != '/');
    if base.len() == 0 || base.last() == '/' {
        lemma_components_appended(base, 0, 0, name);
        if base.len() > 0 {
            assert((base + name)[0] == base[0]);
        }
    } else {
        let ended = base + seq!['/'];
        lemma_components_ended(base, 0, 0);
        lemma_components_appended(ended, 0, 0, name);
        assert(ended + name =~= base + seq!['/'] + name);
        assert((ended + name)[0] == base[0]);
    }
}

/// A name placed under a path lies just below that path.
pub proof fn lemma_joined_lies_below(base: Seq<char>, name: Seq<char>)
    requires
        is_name(name),
    ensures
        below(joined(base, name), base) == Some(seq![name]),
        file_name(joined(base, name)) == Some(name),
{
    lemma_joined_components(base, name);
    let parts = components(base) + seq![name];
    assert(parts.take(components(base).len() as int) =~= components(base));
    assert(parts.skip(components(base).len() as int) =~= seq![name]);
    assert(parts.last() == name);
}

} // verus!
