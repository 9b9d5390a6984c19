//! Copy patterns: which files of a repository go along into a worktree.
//!
//! The effective patterns are the built-in defaults with the user's
//! patterns added.  A file that an include pattern matches is still left
//! out where an exclude pattern matches it too.

use crate::lists::{add_text, with_text};
use crate::text::{chars_of, texts};
use vstd::prelude::*;

verus! {

/// The include and exclude patterns of a configuration; either list may
/// be left out.
#[derive(Debug, Clone, PartialEq, Eq)]
pub struct CopyPatterns {
    /// Glob patterns for the files to copy.
    pub includes: Option<Vec<String>>,
    /// Glob patterns for the files to leave out.
    pub exclude: Option<Vec<String>>,
}

/// The configuration of one repository.
#[derive(Debug, Clone, PartialEq, Eq)]
pub struct WorktreeConfig {
    pub copy_patterns: CopyPatterns,
}

/// The built-in include patterns:
/// `.env*`, `.vscode/`, `*.local.json`, `config/local/*`.
pub open spec fn default_includes() -> Seq<Seq<char>> {
    seq![
        seq!['.', 'e', 'n', 'v', '*'],
        seq!['.', 'v', 's', 'c', 'o', 'd', 'e', '/'],
        seq!['*', '.', 'l', 'o', 'c', 'a', 'l', '.', 'j', 's', 'o', 'n'],
        seq!['c', 'o', 'n', 'f', 'i', 'g', '/', 'l', 'o', 'c', 'a', 'l', '/', '*'],
    ]
}

/// The built-in exclude patterns:
/// `node_modules/`, `target/`, `.git/`, `*.log`, `*.tmp`.
pub open spec fn default_excludes() -> Seq<Seq<char>> {
    seq![
        seq!['n', 'o', 'd', 'e', '_', 'm', 'o', 'd', 'u', 'l', 'e', 's', '/'],
        seq!['t', 'a', 'r', 'g', 'e', 't', '/'],
        seq!['.', 'g', 'i', 't', '/'],
        seq!['*', '.', 'l', 'o', 'g'],
        seq!['*', '.', 't', 'm', 'p'],
    ]
}

/// `base` with each pattern of `extra` added at the end, in order, unless
/// the list already holds it.
pub open spec fn merged(base: Seq<Seq<char>>, extra: Seq<Seq<char>>) -> Seq<Seq<char>>
    decreases extra.len(),
{
    if extra.len() == 0 {
        base
    } else {
        with_text(merged(base, extra.drop_last()), extra.last())
    }
}

/// The patterns a list that may be left out stands for.
pub open spec fn patterns_of(list: Option<Vec<String>>) -> Seq<Seq<char>> {
    match list {
        Some(v) => texts(v@),
        None => Seq::empty(),
    }
}

impl Default for CopyPatterns {
    /// Neither list given.
    fn default() -> (r: Self)
        ensures
            r.includes is None,
            r.exclude is None,
    {
        CopyPatterns { includes: None, exclude: None }
    }
}

impl Default for WorktreeConfig {
    /// The built-in patterns.
    fn default() -> (r: Self)
        ensures
            r.copy_patterns.includes is Some,
            r.copy_patterns.exclude is Some,
            patterns_of(r.copy_patterns.includes) == default_includes(),
            patterns_of(r.copy_patterns.exclude) == default_excludes(),
    {
        WorktreeConfig {
            copy_patterns: CopyPatterns {
                includes: Some(Self::default_include_patterns()),
                exclude: Some(Self::default_exclude_patterns()),
            },
        }
    }
}

/// Adds each pattern of `extra` at the end of `base`, in order, unless the
/// list already holds it.
pub fn merge_patterns(base: &mut Vec<String>, extra: &Vec<String>)
    ensures
        texts(final(base)@) == merged(texts(old(base)@), texts(extra@)),
{
    let ghost start = texts(base@);
    let ghost all = texts(extra@);
    let mut i: usize = 0;
    proof {
        assert(all.take(0) =~= Seq::empty());
    }
    while i < extra.len()
        invariant
            i <= extra.len(),
            all == texts(extra@),
            texts(base@) == merged(start, all.take(i as int)),
        decreases extra.len() - i,
    {
        proof {
            assert(all.take(i + 1).drop_last() =~= all.take(i as int));
            assert(all.take(i + 1).last() == extra@[i as int]@);
        }
        add_text(base, extra[i].as_str());
        i += 1;
    }
    proof {
        assert(all.take(extra.len() as int) =~= all);
    }
}

impl WorktreeConfig {
    /// The built-in include patterns.
    pub fn default_include_patterns() -> (r: Vec<String>)
        ensures
            texts(r@) == default_includes(),
    {
        let a = ".env*";
        let b = ".vscode/";
        let c = "*.local.json";
        let d = "config/local/*";
        proof {
            reveal_strlit(".env*");
            reveal_strlit(".vscode/");
            reveal_strlit("*.local.json");
            reveal_strlit("config/local/*");
            assert(a@ =~= default_includes()[0]);
            assert(b@ =~= default_includes()[1]);
            assert(c@ =~= default_includes()[2]);
            assert(d@ =~= default_includes()[3]);
        }
        let r = vec![a.to_owned(), b.to_owned(), c.to_owned(), d.to_owned()];
        assert(texts(r@) =~= default_includes());
        r
    }

    /// The built-in exclude patterns.
    pub fn default_exclude_patterns() -> (r: Vec<String>)
        ensures
            texts(r@) == default_excludes(),
    {
        let a = "node_modules/";
        let b = "target/";
        let c = ".git/";
        let d = "*.log";
        let e = "*.tmp";
        proof {
            reveal_strlit("node_modules/");
            reveal_strlit("target/");
            reveal_strlit(".git/");
            reveal_strlit("*.log");
            reveal_strlit("*.tmp");
            assert(a@ =~= default_excludes()[0]);
            assert(b@ =~= default_excludes()[1]);
            assert(c@ =~= default_excludes()[2]);
            assert(d@ =~= default_excludes()[3]);
            assert(e@ =~= default_excludes()[4]);
        }
        let r = vec![a.to_owned(), b.to_owned(), c.to_owned(), d.to_owned(), e.to_owned()];
        assert(texts(r@) =~= default_excludes());
        r
    }

    /// The effective configuration: the built-in include patterns followed
    /// by the user's include patterns that are not yet in the list, and the
    /// same for the exclude patterns.  A pattern the user includes stays in
    /// the exclude list where it is a built-in exclude, and the other way
    /// round.
    pub fn merged_with_defaults(self) -> (r: Self)
        ensures
            r.copy_patterns.includes is Some,
            r.copy_patterns.exclude is Some,
            patterns_of(r.copy_patterns.includes) == merged(
                default_includes(),
                patterns_of(self.copy_patterns.includes),
            ),
            patterns_of(r.copy_patterns.exclude) == merged(
                default_excludes(),
                patterns_of(self.copy_patterns.exclude),
            ),
    {
        let mut includes = Self::default_include_patterns();
        let mut excludes = Self::default_exclude_patterns();
        match &self.copy_patterns.includes {
            Some(user) => merge_patterns(&mut includes, user),
            None => {},
        }
        match &self.copy_patterns.exclude {
            Some(user) => merge_patterns(&mut excludes, user),
            None => {},
        }
        WorktreeConfig { copy_patterns: CopyPatterns { includes: Some(includes), exclude: Some(excludes) } }
    }

    /// The configuration to work with, given what parsing the repository's
    /// configuration file gave: the parsed patterns merged with the
    /// defaults, or the defaults alone where there was no file, a blank
    /// one, or one that did not parse.
    pub fn effective(parsed: Option<WorktreeConfig>) -> (r: Self)
        ensures
            r.copy_patterns.includes is Some,
            r.copy_patterns.exclude is Some,
            patterns_of(r.copy_patterns.includes) == match parsed {
                Some(c) => merged(default_includes(), patterns_of(c.copy_patterns.includes)),
                None => default_includes(),
            },
            patterns_of(r.copy_patterns.exclude) == match parsed {
                Some(c) => merged(default_excludes(), patterns_of(c.copy_patterns.exclude)),
                None => default_excludes(),
            },
    {
        match parsed {
            Some(config) => config.merged_with_defaults(),
            None => WorktreeConfig::default(),
        }
    }
}

/// The merged list begins with the whole base list, holds every added
/// pattern, and holds nothing but patterns of the two lists.
pub proof fn merge_keeps_everything(base: Seq<Seq<char>>, extra: Seq<Seq<char>>)
    ensures
        base.len() <= merged(base, extra).len(),
        merged(base, extra).take(base.len() as int) == base,
        forall|i: int| 0 <= i < extra.len() ==> merged(base, extra).contains(#[trigger] extra[i]),
        forall|i: int|
            0 <= i < merged(base, extra).len() ==> base.contains(
                #[trigger] merged(base, extra)[i],
            ) || extra.contains(merged(base, extra)[i]),
    decreases extra.len(),
{
    let all = merged(base, extra);
    if extra.len() == 0 {
        assert(all.take(base.len() as int) =~= base);
    } else {
        let front = extra.drop_last();
        let last = extra.last();
        let prior = merged(base, front);
        merge_keeps_everything(base, front);
        assert(all.take(base.len() as int) =~= prior.take(base.len() as int));
        assert forall|i: int| 0 <= i < extra.len() implies all.contains(#[trigger] extra[i]) by {
            if i < front.len() {
                assert(front[i] == extra[i]);
                let j = choose|j: int| 0 <= j < prior.len() && prior[j] == front[i];
                assert(all[j] == extra[i]);
            } else {
                if prior.contains(last) {
                } else {
                    assert(all[prior.len() as int] == last);
                }
            }
        }
        assert forall|i: int| 0 <= i < all.len() implies base.contains(#[trigger] all[i])
            || extra.contains(all[i]) by {
            if i < prior.len() {
                assert(all[i] == prior[i]);
                if !base.contains(prior[i]) {
                    let j = choose|j: int| 0 <= j < front.len() && front[j] == prior[i];
                    assert(extra[j] == all[i]);
                }
            } else {
                assert(extra[extra.len() - 1] == all[i]);
            }
        }
    }
}

/// Merging adds no pattern twice: a base list without duplicates gives a
/// merged list without duplicates.
pub proof fn merge_adds_nothing_twice(base: Seq<Seq<char>>, extra: Seq<Seq<char>>)
    requires
        base.no_duplicates(),
    ensures
        merged(base, extra).no_duplicates(),
    decreases extra.len(),
{
    if extra.len() > 0 {
        merge_adds_nothing_twice(base, extra.drop_last());
    }
}

/// The built-in lists hold no pattern twice.
pub proof fn defaults_are_distinct()
    ensures
        default_includes().no_duplicates(),
        default_excludes().no_duplicates(),
{
    let inc = default_includes();
    let exc = default_excludes();
    assert(inc[0].len() == 5 && inc[1].len() == 8 && inc[2].len() == 12 && inc[3].len() == 14);
    assert(exc[0].len() == 13 && exc[1].len() == 7 && exc[2].len() == 5);
    assert(exc[3][3] == 'o' && exc[4][3] == 'm' && exc[2][0] == '.');
    assert(exc[3][0] == '*' && exc[4][0] == '*');
}

/// The effective lists hold no pattern twice, whatever the user's lists
/// hold.
pub proof fn effective_patterns_are_distinct(user: Seq<Seq<char>>)
    ensures
        merged(default_includes(), user).no_duplicates(),
        merged(default_excludes(), user).no_duplicates(),
{
    defaults_are_distinct();
    merge_adds_nothing_twice(default_includes(), user);
    merge_adds_nothing_twice(default_excludes(), user);
}

/// Whether a text is blank: empty, or made of white space only.
pub open spec fn is_blank(content: Seq<char>) -> bool {
    forall|i: int| 0 <= i < content.len() ==> is_white_space(#[trigger] content[i])
}

/// The white-space characters: tab to carriage return, space, next line,
/// no-break space, and the Unicode space separators and line and paragraph
/// separators.
pub open spec fn is_white_space(c: char) -> bool {
    let n = c as u32;
    (0x09 <= n <= 0x0D) || n == 0x20 || n == 0x85 || n == 0xA0 || n == 0x1680 || (0x2000 <= n
        <= 0x200A) || n == 0x2028 || n == 0x2029 || n == 0x202F || n == 0x205F || n == 0x3000
}

/// Whether `c` is a white-space character.
pub fn char_is_white_space(c: char) -> (r: bool)
    ensures
        r == is_white_space(c),
{
    let n = c as u32;
    (0x09 <= n && n <= 0x0D) || n == 0x20 || n == 0x85 || n == 0xA0 || n == 0x1680 || (0x2000 <= n
        && n <= 0x200A) || n == 0x2028 || n == 0x2029 || n == 0x202F || n == 0x205F || n == 0x3000
}

/// Whether a configuration file's content is blank, and so stands for the
/// defaults.
pub fn content_is_blank(content: &str) -> (r: bool)
    ensures
        r == is_blank(content@),
{
    let chars = chars_of(content);
    let mut i: usize = 0;
    while i < chars.len()
        invariant
            i <= chars.len(),
            chars@ == content@,
            forall|j: int| 0 <= j < i ==> is_white_space(#[trigger] content@[j]),
        decreases chars.len() - i,
    {
        if !char_is_white_space(chars[i]) {
            return false;
        }
        i += 1;
    }
    true
}

} // verus!
