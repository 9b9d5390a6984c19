//! A grouped list of references, chosen from in two steps: first the
//! group, then the reference.

use crate::lists::{copy_texts, first_where, lemma_first_where_is, lemma_first_where_none};
use crate::selection::{option_views, GitRefOption, OptionView, SelectionError, SelectionProvider};
use crate::text::{append_text, chars_of, same_str, string_of, texts};
use vstd::prelude::*;

verus! {

/// The references under one heading.
#[derive(Clone, Debug, PartialEq, Eq)]
pub struct ReferenceGroup {
    pub name: String,
    pub refs: Vec<String>,
}

/// A group as plain text: its heading and the names under it.
pub struct GroupView {
    pub name: Seq<char>,
    pub refs: Seq<Seq<char>>,
}

impl View for ReferenceGroup {
    type V = GroupView;

    open spec fn view(&self) -> GroupView {
        GroupView { name: self.name@, refs: texts(self.refs@) }
    }
}

/// The views of a list of groups.
pub open spec fn group_views(v: Seq<ReferenceGroup>) -> Seq<GroupView> {
    Seq::new(v.len(), |i: int| v[i]@)
}

/// The group collected so far, if it holds a reference.
pub open spec fn closed(name: Seq<char>, refs: Seq<Seq<char>>) -> Seq<GroupView> {
    if refs.len() > 0 {
        seq![GroupView { name, refs }]
    } else {
        Seq::empty()
    }
}

/// The groups of the options from index `at` on, where `refs` were
/// collected under the heading `name` so far.  A heading closes the group
/// before it; an empty heading keeps the name.
pub open spec fn groups_from(
    options: Seq<OptionView>,
    at: int,
    name: Seq<char>,
    refs: Seq<Seq<char>>,
) -> Seq<GroupView>
    decreases options.len() - at,
{
    if at < 0 || at >= options.len() {
        closed(name, refs)
    } else {
        match options[at] {
            OptionView::Separator(label) => closed(name, refs) + groups_from(
                options,
                at + 1,
                if label.len() > 0 {
                    label
                } else {
                    name
                },
                Seq::empty(),
            ),
            OptionView::Reference { name: reference, .. } => groups_from(
                options,
                at + 1,
                name,
                refs.push(reference),
            ),
        }
    }
}

/// The groups of a list of options: the references between headings, under
/// the last heading with a label; groups without a reference are left out.
pub open spec fn grouped(options: Seq<OptionView>) -> Seq<GroupView> {
    groups_from(options, 0, Seq::empty(), Seq::empty())
}

/// The groups of a list of options.
pub fn group_options(options: &Vec<GitRefOption>) -> (r: Vec<ReferenceGroup>)
    ensures
        group_views(r@) == grouped(option_views(options@)),
{
    let ghost views = option_views(options@);
    let mut groups: Vec<ReferenceGroup> = Vec::new();
    let mut name = String::new();
    let mut refs: Vec<String> = Vec::new();
    let mut i: usize = 0;
    proof {
        assert(group_views(groups@) =~= Seq::empty());
        assert(texts(refs@) =~= Seq::empty());
    }
    while i < options.len()
        invariant
            i <= options.len(),
            views == option_views(options@),
            grouped(views) == group_views(groups@) + groups_from(
                views,
                i as int,
                name@,
                texts(refs@),
            ),
        decreases options.len() - i,
    {
        assert(views[i as int] == options@[i as int]@);
        match &options[i] {
            GitRefOption::Separator(label) => {
                let ghost done = group_views(groups@);
                let ghost shut = closed(name@, texts(refs@));
                let next = if chars_of(label.as_str()).len() > 0 {
                    label.clone()
                } else {
                    name.clone()
                };
                if refs.len() > 0 {
                    let ghost before = group_views(groups@);
                    let group = ReferenceGroup { name: name, refs: refs };
                    groups.push(group);
                    proof {
                        assert(group_views(groups@) =~= before.push(shut[0]));
                    }
                }
                proof {
                    assert(group_views(groups@) =~= done + shut);
                    let tail = groups_from(views, i + 1, next@, Seq::empty());
                    assert(done + (shut + tail) =~= (done + shut) + tail);
                }
                name = next;
                refs = Vec::new();
                proof {
                    assert(texts(refs@) =~= Seq::empty());
                }
            },
            GitRefOption::Reference { name: reference, .. } => {
                let ghost before = texts(refs@);
                refs.push(reference.clone());
                proof {
                    assert(texts(refs@) =~= before.push(reference@));
                }
            },
        }
        i += 1;
    }
    if refs.len() > 0 {
        let ghost before = group_views(groups@);
        let ghost shut = closed(name@, texts(refs@));
        groups.push(ReferenceGroup { name, refs });
        proof {
            assert(group_views(groups@) =~= before + shut);
        }
    } else {
        proof {
            assert(group_views(groups@) + Seq::<GroupView>::empty() =~= group_views(groups@));
        }
    }
    groups
}

/// The decimal digit for a number below ten.
pub open spec fn digit(d: nat) -> char {
    if d == 0 {
        '0'
    } else if d == 1 {
        '1'
    } else if d == 2 {
        '2'
    } else if d == 3 {
        '3'
    } else if d == 4 {
        '4'
    } else if d == 5 {
        '5'
    } else if d == 6 {
        '6'
    } else if d == 7 {
        '7'
    } else if d == 8 {
        '8'
    } else {
        '9'
    }
}

/// A number in decimal digits, without leading zeros.
pub open spec fn decimal(n: nat) -> Seq<char>
    decreases n,
{
    if n < 10 {
        seq![digit(n)]
    } else {
        decimal(n / 10).push(digit(n % 10))
    }
}

/// The decimal digit for a number below ten.
fn digit_char(d: usize) -> (r: char)
    requires
        d < 10,
    ensures
        r == digit(d as nat),
{
    if d == 0 {
        '0'
    } else if d == 1 {
        '1'
    } else if d == 2 {
        '2'
    } else if d == 3 {
        '3'
    } else if d == 4 {
        '4'
    } else if d == 5 {
        '5'
    } else if d == 6 {
        '6'
    } else if d == 7 {
        '7'
    } else if d == 8 {
        '8'
    } else {
        '9'
    }
}

/// A number in decimal digits.
pub fn decimal_chars(n: usize) -> (r: Vec<char>)
    ensures
        r@ == decimal(n as nat),
    decreases n,
{
    if n < 10 {
        let r = vec![digit_char(n)];
        assert(r@ =~= seq![digit(n as nat)]);
        r
    } else {
        let mut r = decimal_chars(n / 10);
        r.push(digit_char(n % 10));
        r
    }
}

/// The label a group is offered under: its heading, then the number of
/// its references in brackets, as in `Tags (3 items)`.
pub open spec fn label_of(group: GroupView) -> Seq<char> {
    group.name + seq![' ', '('] + decimal(group.refs.len()) + seq![
        ' ',
        'i',
        't',
        'e',
        'm',
        's',
        ')',
    ]
}

/// The prompt for choosing within a group, as in `Choose from Tags:`.
pub open spec fn prompt_for(name: Seq<char>) -> Seq<char> {
    seq!['C', 'h', 'o', 'o', 's', 'e', ' ', 'f', 'r', 'o', 'm', ' '] + name + seq![':']
}

impl ReferenceGroup {
    /// The label the group is offered under.
    pub fn label(&self) -> (r: String)
        ensures
            r@ == label_of(self@),
    {
        let mut out = chars_of(self.name.as_str());
        let open = vec![' ', '('];
        append_text(&mut out, &open);
        let count = decimal_chars(self.refs.len());
        append_text(&mut out, &count);
        let close = vec![' ', 'i', 't', 'e', 'm', 's', ')'];
        append_text(&mut out, &close);
        proof {
            assert(open@ =~= seq![' ', '(']);
            assert(close@ =~= seq![' ', 'i', 't', 'e', 'm', 's', ')']);
            assert(texts(self.refs@).len() == self.refs.len());
        }
        string_of(&out)
    }

    /// The prompt for choosing within the group.
    pub fn prompt(&self) -> (r: String)
        ensures
            r@ == prompt_for(self@.name),
    {
        let mut out = vec!['C', 'h', 'o', 'o', 's', 'e', ' ', 'f', 'r', 'o', 'm', ' '];
        let ghost head = out@;
        let name = chars_of(self.name.as_str());
        append_text(&mut out, &name);
        out.push(':');
        proof {
            assert(head =~= seq!['C', 'h', 'o', 'o', 's', 'e', ' ', 'f', 'r', 'o', 'm', ' ']);
            assert(out@ =~= prompt_for(self@.name));
        }
        string_of(&out)
    }
}

/// The labels of the groups, in order.
pub fn group_labels(groups: &Vec<ReferenceGroup>) -> (r: Vec<String>)
    ensures
        texts(r@) == Seq::new(groups@.len(), |i: int| label_of(groups@[i]@)),
{
    let mut out: Vec<String> = Vec::new();
    let mut i: usize = 0;
    while i < groups.len()
        invariant
            i <= groups.len(),
            out@.len() == i,
            forall|j: int| 0 <= j < i ==> out@[j]@ == label_of(groups@[j]@),
        decreases groups.len() - i,
    {
        out.push(groups[i].label());
        i += 1;
    }
    proof {
        assert(texts(out@) =~= Seq::new(groups@.len(), |i: int| label_of(groups@[i]@)));
    }
    out
}

/// The first group offered under the label `chosen`.
pub fn find_group(groups: &Vec<ReferenceGroup>, chosen: &str) -> (r: Option<usize>)
    ensures
        match r {
            Some(i) => i < groups@.len() && label_of(groups@[i as int]@) == chosen@ && forall|
                j: int,
            |
                0 <= j < i ==> label_of(#[trigger] groups@[j]@) != chosen@,
            None => forall|j: int|
                0 <= j < groups@.len() ==> label_of(#[trigger] groups@[j]@) != chosen@,
        },
{
    let mut i: usize = 0;
    while i < groups.len()
        invariant
            i <= groups.len(),
            forall|j: int| 0 <= j < i ==> label_of(#[trigger] groups@[j]@) != chosen@,
        decreases groups.len() - i,
    {
        let label = groups[i].label();
        if same_str(label.as_str(), chosen) {
            return Some(i);
        }
        i += 1;
    }
    None
}

/// The prompt for choosing a group: `Choose a category:`.
pub open spec fn category_prompt() -> Seq<char> {
    seq![
        'C',
        'h',
        'o',
        'o',
        's',
        'e',
        ' ',
        'a',
        ' ',
        'c',
        'a',
        't',
        'e',
        'g',
        'o',
        'r',
        'y',
        ':',
    ]
}

/// The labels the groups are offered under, in order.
pub open spec fn labels_of(groups: Seq<GroupView>) -> Seq<Seq<char>> {
    Seq::new(groups.len(), |i: int| label_of(groups[i]))
}

/// Groups offered under the label `chosen`.
pub open spec fn labelled(chosen: Seq<char>) -> spec_fn(GroupView) -> bool {
    |group: GroupView| label_of(group) == chosen
}

/// What choosing within groups comes to once the category was asked for
/// and `first` was the answer.  A failure ends the selection as it is.  A
/// label picks the first group offered under it, and the result is the
/// provider's answer when it offers that group's references under that
/// group's prompt; a label that no group is offered under fails the
/// selection.
pub open spec fn after_category<P: SelectionProvider>(
    provider: &P,
    groups: Seq<GroupView>,
    first: Result<String, SelectionError>,
    r: Result<String, SelectionError>,
) -> bool {
    match first {
        Err(e) => r == Err::<String, SelectionError>(e),
        Ok(chosen) => match first_where(groups, labelled(chosen@)) {
            Some(i) => provider.answers(prompt_for(groups[i].name), groups[i].refs, r),
            None => r == Err::<String, SelectionError>(SelectionError::GroupNotFound),
        },
    }
}

/// What choosing from groups comes to.  With a single group the result is
/// the provider's answer when it offers that group's references under
/// `prompt`.  Otherwise the provider first answers which category, offered
/// the groups' labels, and the result follows from that answer.
pub open spec fn chosen_from_groups<P: SelectionProvider>(
    provider: &P,
    prompt: Seq<char>,
    groups: Seq<GroupView>,
    r: Result<String, SelectionError>,
) -> bool {
    if groups.len() == 1 {
        provider.answers(prompt, groups[0].refs, r)
    } else {
        exists|first: Result<String, SelectionError>|
            provider.answers(category_prompt(), labels_of(groups), first) && #[trigger] after_category(
                provider,
                groups,
                first,
                r,
            )
    }
}

/// Lets the provider choose from a grouped list.  With a single group the
/// provider is asked once, for a reference of that group.  Otherwise it is
/// asked for a category, by the groups' labels, and then for a reference of
/// the first group with the label it chose; where no group has that label
/// the selection fails.  What the provider answers is handed back as it
/// came.
pub fn select_from_groups<P: SelectionProvider>(
    provider: &P,
    prompt: &str,
    options: &Vec<GitRefOption>,
) -> (r: Result<String, SelectionError>)
    ensures
        chosen_from_groups(provider, prompt@, grouped(option_views(options@)), r),
{
    let groups = group_options(options);
    let ghost views = group_views(groups@);
    if groups.len() == 1 {
        assert(views[0] == groups@[0]@);
        return provider.select(prompt, copy_texts(&groups[0].refs));
    }
    let labels = group_labels(&groups);
    let category = "Choose a category:";
    proof {
        reveal_strlit("Choose a category:");
        assert(category@ =~= category_prompt());
        assert(texts(labels@) =~= labels_of(views));
    }
    let first = provider.select(category, labels);
    let chosen = match first {
        Ok(chosen) => chosen,
        Err(e) => {
            assert(after_category(provider, views, first, Err::<String, SelectionError>(e)));
            return Err(e);
        },
    };
    match find_group(&groups, chosen.as_str()) {
        Some(i) => {
            proof {
                assert forall|j: int| 0 <= j < i implies !labelled(chosen@)(views[j]) by {
                    assert(views[j] == groups@[j]@);
                }
                assert(views[i as int] == groups@[i as int]@);
                lemma_first_where_is(views, labelled(chosen@), i as int);
            }
            let within = groups[i].prompt();
            let r = provider.select(within.as_str(), copy_texts(&groups[i].refs));
            assert(after_category(provider, views, first, r));
            r
        },
        None => {
            proof {
                assert forall|j: int| 0 <= j < views.len() implies !labelled(chosen@)(
                    views[j],
                ) by {
                    assert(views[j] == groups@[j]@);
                }
                lemma_first_where_none(views, labelled(chosen@));
                assert(after_category(
                    provider,
                    views,
                    first,
                    Err::<String, SelectionError>(SelectionError::GroupNotFound),
                ));
            }
            Err(SelectionError::GroupNotFound)
        },
    }
}

} // verus!
