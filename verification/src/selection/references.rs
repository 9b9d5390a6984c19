//! The grouped list of git references offered as starting points.

use crate::selection::{option_views, GitRefOption, OptionView, SelectionError, SelectionProvider};
use crate::text::{append_text, chars_of, string_of, texts};
use vstd::prelude::*;

verus! {

/// The heading of the local branches.
pub open spec fn local_heading() -> Seq<char> {
    seq!['L', 'o', 'c', 'a', 'l', ' ', 'B', 'r', 'a', 'n', 'c', 'h', 'e', 's']
}

/// The heading of the remote branches.
pub open spec fn remote_heading() -> Seq<char> {
    seq!['R', 'e', 'm', 'o', 't', 'e', ' ', 'B', 'r', 'a', 'n', 'c', 'h', 'e', 's']
}

/// The heading of the tags.
pub open spec fn tag_heading() -> Seq<char> {
    seq!['T', 'a', 'g', 's']
}

/// The line offered for a reference: displayed with two spaces before its
/// name.
pub open spec fn reference_line(name: Seq<char>) -> OptionView {
    OptionView::Reference { name, display: seq![' ', ' '] + name }
}

/// A section of the list: nothing for no names; otherwise an empty heading
/// where lines come before it, the heading, and a line for each name.
pub open spec fn section(heading: Seq<char>, names: Seq<Seq<char>>, after_others: bool) -> Seq<
    OptionView,
> {
    if names.len() == 0 {
        Seq::empty()
    } else {
        let spacing = if after_others {
            seq![OptionView::Separator(Seq::empty())]
        } else {
            Seq::empty()
        };
        spacing + seq![OptionView::Separator(heading)] + Seq::new(
            names.len(),
            |i: int| reference_line(names[i]),
        )
    }
}

/// The list offered: local branches, then remote branches, then tags.
pub open spec fn offered(
    local: Seq<Seq<char>>,
    remote: Seq<Seq<char>>,
    tags: Seq<Seq<char>>,
) -> Seq<OptionView> {
    let first = section(local_heading(), local, false);
    let second = first + section(remote_heading(), remote, first.len() > 0);
    second + section(tag_heading(), tags, second.len() > 0)
}

/// Appends a section to the list.
fn push_section(options: &mut Vec<GitRefOption>, heading: &str, names: &Vec<String>)
    ensures
        option_views(final(options)@) == option_views(old(options)@) + section(
            heading@,
            texts(names@),
            old(options)@.len() > 0,
        ),
{
    let ghost start = option_views(options@);
    let ghost all = texts(names@);
    if names.len() == 0 {
        assert(start + Seq::<OptionView>::empty() =~= start);
        return ;
    }
    if options.len() > 0 {
        options.push(GitRefOption::Separator(String::new()));
    }
    options.push(GitRefOption::Separator(heading.to_owned()));
    let ghost opened = option_views(options@);
    let ghost lines = Seq::new(all.len(), |i: int| reference_line(all[i]));
    proof {
        let spacing = if start.len() > 0 {
            seq![OptionView::Separator(Seq::empty())]
        } else {
            Seq::empty()
        };
        assert(opened =~= start + (spacing + seq![OptionView::Separator(heading@)]));
        assert(opened + lines.take(0) =~= opened);
    }
    let mut i: usize = 0;
    while i < names.len()
        invariant
            i <= names.len(),
            all == texts(names@),
            lines == Seq::new(all.len(), |i: int| reference_line(all[i])),
            option_views(options@) == opened + lines.take(i as int),
        decreases names.len() - i,
    {
        let mut display = vec![' ', ' '];
        let name = chars_of(names[i].as_str());
        append_text(&mut display, &name);
        assert(display@ =~= seq![' ', ' '] + names@[i as int]@);
        let ghost before = option_views(options@);
        options.push(
            GitRefOption::Reference { name: names[i].clone(), display: string_of(&display) },
        );
        proof {
            assert(option_views(options@) =~= before.push(lines[i as int]));
            assert(opened + lines.take(i + 1) =~= (opened + lines.take(i as int)).push(
                lines[i as int],
            ));
        }
        i += 1;
    }
    proof {
        assert(lines.take(names.len() as int) =~= lines);
        let spacing = if start.len() > 0 {
            seq![OptionView::Separator(Seq::empty())]
        } else {
            Seq::empty()
        };
        assert(start + (spacing + seq![OptionView::Separator(heading@)]) + lines =~= start + (
        spacing + seq![OptionView::Separator(heading@)] + lines));
    }
}

/// The grouped list of references offered as starting points.
pub fn reference_options(local: &Vec<String>, remote: &Vec<String>, tags: &Vec<String>) -> (r:
    Vec<GitRefOption>)
    ensures
        option_views(r@) == offered(texts(local@), texts(remote@), texts(tags@)),
        r@.len() == 0 <==> local@.len() == 0 && remote@.len() == 0 && tags@.len() == 0,
{
    let mut options: Vec<GitRefOption> = Vec::new();
    let local_title = "Local Branches";
    let remote_title = "Remote Branches";
    let tag_title = "Tags";
    proof {
        reveal_strlit("Local Branches");
        reveal_strlit("Remote Branches");
        reveal_strlit("Tags");
        assert(local_title@ =~= local_heading());
        assert(remote_title@ =~= remote_heading());
        assert(tag_title@ =~= tag_heading());
        assert(option_views(options@) =~= Seq::empty());
    }
    push_section(&mut options, local_title, local);
    proof {
        assert(Seq::<OptionView>::empty() + section(local_heading(), texts(local@), false)
            =~= section(local_heading(), texts(local@), false));
    }
    push_section(&mut options, remote_title, remote);
    push_section(&mut options, tag_title, tags);
    options
}

/// The prompt under which the references are offered.
pub open spec fn reference_prompt() -> Seq<char> {
    "Select git reference to create worktree from:"@
}

/// What choosing a reference comes to.  Without any reference the
/// selection fails and nothing is asked; otherwise the result is the
/// provider's answer when it offers the list of local branches, remote
/// branches and tags under the prompt for references.
pub open spec fn chosen_reference<P: SelectionProvider>(
    provider: &P,
    local: Seq<Seq<char>>,
    remote: Seq<Seq<char>>,
    tags: Seq<Seq<char>>,
    r: Result<String, SelectionError>,
) -> bool {
    if local.len() == 0 && remote.len() == 0 && tags.len() == 0 {
        r == Err::<String, SelectionError>(SelectionError::NothingToSelect)
    } else {
        provider.answers_grouped(reference_prompt(), offered(local, remote, tags), r)
    }
}

/// Offers the references as a grouped list and returns the one the
/// provider chose.  Without any reference nothing is asked and the
/// selection fails; otherwise the provider is asked once, with the list
/// of local branches, remote branches and tags, and its answer is handed
/// back as it came.
pub fn select_git_reference_interactive<P: SelectionProvider>(
    local: &Vec<String>,
    remote: &Vec<String>,
    tags: &Vec<String>,
    provider: &P,
) -> (r: Result<String, SelectionError>)
    ensures
        chosen_reference(provider, texts(local@), texts(remote@), texts(tags@), r),
{
    let options = reference_options(local, remote, tags);
    if options.len() == 0 {
        return Err(SelectionError::NothingToSelect);
    }
    provider.select_grouped("Select git reference to create worktree from:", options)
}

} // verus!
