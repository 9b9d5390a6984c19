//! Choosing among options: the provider that asks, the options offered for
//! git references, and reading a choice back from its displayed form.

pub mod groups;
pub mod references;

pub use crate::selection::groups::{group_options, select_from_groups, ReferenceGroup};
pub use crate::selection::references::{reference_options, select_git_reference_interactive};

use crate::lists::has_text;
use crate::text::{
    append_text, chars_of, find_in, find_text, rfind_in, rfind_text, slice_of, string_of, texts,
};
use vstd::prelude::*;

verus! {

/// One line of a grouped list of git references.
#[derive(Clone, Debug, PartialEq, Eq)]
pub enum GitRefOption {
    /// A reference that can be chosen: its name, and how it is displayed.
    Reference { name: String, display: String },
    /// A heading, which cannot be chosen; an empty one only makes room.
    Separator(String),
}

/// A line of a grouped list, as plain text.
pub enum OptionView {
    Reference { name: Seq<char>, display: Seq<char> },
    Separator(Seq<char>),
}

impl View for GitRefOption {
    type V = OptionView;

    open spec fn view(&self) -> OptionView {
        match self {
            GitRefOption::Reference { name, display } => OptionView::Reference {
                name: name@,
                display: display@,
            },
            GitRefOption::Separator(label) => OptionView::Separator(label@),
        }
    }
}

/// The rule drawn on either side of a heading: three box-drawing dashes.
pub open spec fn rule() -> Seq<char> {
    seq!['\u{2500}', '\u{2500}', '\u{2500}']
}

impl OptionView {
    /// The text shown for the line: a reference's display text; for a
    /// heading its label between two rules, or nothing where the label is
    /// empty.
    pub open spec fn shown(self) -> Seq<char> {
        match self {
            OptionView::Reference { display, .. } => display,
            OptionView::Separator(label) => if label.len() == 0 {
                Seq::empty()
            } else {
                rule() + seq![' '] + label + seq![' '] + rule()
            },
        }
    }
}

impl GitRefOption {
    /// The text shown for the line.
    pub fn to_string(&self) -> (r: String)
        ensures
            r@ == self@.shown(),
    {
        match self {
            GitRefOption::Reference { display, .. } => display.clone(),
            GitRefOption::Separator(label) => {
                let text = chars_of(label.as_str());
                if text.len() == 0 {
                    String::new()
                } else {
                    let mut out = vec!['\u{2500}', '\u{2500}', '\u{2500}', ' '];
                    assert(out@ =~= rule() + seq![' ']);
                    append_text(&mut out, &text);
                    let tail = vec![' ', '\u{2500}', '\u{2500}', '\u{2500}'];
                    assert(tail@ =~= seq![' '] + rule());
                    append_text(&mut out, &tail);
                    assert(out@ =~= rule() + seq![' '] + label@ + seq![' '] + rule());
                    string_of(&out)
                }
            },
        }
    }
}

/// The views of a list of options.
pub open spec fn option_views(v: Seq<GitRefOption>) -> Seq<OptionView> {
    Seq::new(v.len(), |i: int| v[i]@)
}

/// Why a selection failed.
#[derive(Clone, Debug, PartialEq, Eq)]
pub enum SelectionError {
    /// The answer is not among the options.
    NotAnOption,
    /// The selection is not of the form that was displayed.
    InvalidFormat,
    /// There is nothing to choose from.
    NothingToSelect,
    /// The category chosen is not one of the groups.
    GroupNotFound,
    /// Asking failed, or the user gave up; with the reason.
    Prompt(String),
}

/// Asks the user to choose.  Nothing is assumed of what an implementation
/// answers.
pub trait SelectionProvider {
    /// Whether `answer` is an answer this provider gives when it offers
    /// `options` under `prompt`.  It is for the provider to say; one that
    /// says nothing gives any answer.
    open spec fn answers(
        &self,
        prompt: Seq<char>,
        options: Seq<Seq<char>>,
        answer: Result<String, SelectionError>,
    ) -> bool {
        true
    }

    /// Offers the options and returns the one chosen.
    fn select(&self, prompt: &str, options: Vec<String>) -> (r: Result<String, SelectionError>)
        ensures
            self.answers(prompt@, texts(options@), r),
    ;

    /// Whether `answer` is an answer this provider gives when it offers
    /// the grouped list `options` under `prompt`.  It is for the provider
    /// to say; one that says nothing gives any answer.
    open spec fn answers_grouped(
        &self,
        prompt: Seq<char>,
        options: Seq<OptionView>,
        answer: Result<String, SelectionError>,
    ) -> bool {
        true
    }

    /// Offers a grouped list and returns the name of the reference chosen.
    fn select_grouped(&self, prompt: &str, options: Vec<GitRefOption>) -> (r: Result<
        String,
        SelectionError,
    >)
        ensures
            self.answers_grouped(prompt@, option_views(options@), r),
    ;

    /// Asks for a line of text.
    fn get_text_input(&self, prompt: &str) -> Result<String, SelectionError>;
}

/// A provider that always answers with the same response.
#[derive(Clone, Debug)]
pub struct MockSelectionProvider {
    pub response: String,
}

/// The names of the references among the options, in order.
pub open spec fn reference_names(options: Seq<OptionView>) -> Seq<Seq<char>>
    decreases options.len(),
{
    if options.len() == 0 {
        Seq::empty()
    } else {
        let rest = reference_names(options.drop_last());
        match options.last() {
            OptionView::Reference { name, .. } => rest.push(name),
            OptionView::Separator(_) => rest,
        }
    }
}

/// The names of the references among the options, in order.
pub fn selectable_names(options: &Vec<GitRefOption>) -> (r: Vec<String>)
    ensures
        texts(r@) == reference_names(option_views(options@)),
{
    let ghost views = option_views(options@);
    let mut out: Vec<String> = Vec::new();
    let mut i: usize = 0;
    proof {
        assert(views.take(0) =~= Seq::empty());
        assert(texts(out@) =~= Seq::empty());
    }
    while i < options.len()
        invariant
            i <= options.len(),
            views == option_views(options@),
            texts(out@) == reference_names(views.take(i as int)),
        decreases options.len() - i,
    {
        proof {
            assert(views.take(i + 1).drop_last() =~= views.take(i as int));
            assert(views.take(i + 1).last() == options@[i as int]@);
        }
        match &options[i] {
            GitRefOption::Reference { name, .. } => {
                let ghost before = texts(out@);
                out.push(name.clone());
                proof {
                    assert(texts(out@) =~= before.push(name@));
                }
            },
            GitRefOption::Separator(_) => {},
        }
        i += 1;
    }
    proof {
        assert(views.take(options.len() as int) =~= views);
    }
    out
}

impl MockSelectionProvider {
    /// A provider that answers `response`.
    pub fn new(response: &str) -> (r: Self)
        ensures
            r.response@ == response@,
    {
        MockSelectionProvider { response: response.to_owned() }
    }
}

impl SelectionProvider for MockSelectionProvider {
    /// The response, where it is one of the options; else a failure that
    /// says it is none.
    open spec fn answers(
        &self,
        prompt: Seq<char>,
        options: Seq<Seq<char>>,
        answer: Result<String, SelectionError>,
    ) -> bool {
        match answer {
            Ok(s) => options.contains(self.response@) && s@ == self.response@,
            Err(e) => !options.contains(self.response@) && e == SelectionError::NotAnOption,
        }
    }

    /// The response, where it is one of the options.
    fn select(&self, prompt: &str, options: Vec<String>) -> (r: Result<String, SelectionError>)
        ensures
            match r {
                Ok(s) => texts(options@).contains(self.response@) && s@ == self.response@,
                Err(e) => !texts(options@).contains(self.response@) && e
                    == SelectionError::NotAnOption,
            },
    {
        if has_text(&options, self.response.as_str()) {
            Ok(self.response.clone())
        } else {
            Err(SelectionError::NotAnOption)
        }
    }

    /// The response, where it is the name of one of the references; else
    /// a failure that says it is none.
    open spec fn answers_grouped(
        &self,
        prompt: Seq<char>,
        options: Seq<OptionView>,
        answer: Result<String, SelectionError>,
    ) -> bool {
        match answer {
            Ok(s) => reference_names(options).contains(self.response@) && s@ == self.response@,
            Err(e) => !reference_names(options).contains(self.response@) && e
                == SelectionError::NotAnOption,
        }
    }

    /// The response, where it is the name of one of the references.
    fn select_grouped(&self, prompt: &str, options: Vec<GitRefOption>) -> (r: Result<
        String,
        SelectionError,
    >)
        ensures
            match r {
                Ok(s) => reference_names(option_views(options@)).contains(self.response@) && s@
                    == self.response@,
                Err(e) => !reference_names(option_views(options@)).contains(self.response@) && e
                    == SelectionError::NotAnOption,
            },
    {
        let names = selectable_names(&options);
        if has_text(&names, self.response.as_str()) {
            Ok(self.response.clone())
        } else {
            Err(SelectionError::NotAnOption)
        }
    }

    /// The response.
    fn get_text_input(&self, prompt: &str) -> (r: Result<String, SelectionError>)
        ensures
            r matches Ok(s) && s@ == self.response@,
    {
        Ok(self.response.clone())
    }
}

/// The text that opens the path in a displayed worktree: a space and `(`.
pub open spec fn path_opener() -> Seq<char> {
    seq![' ', '(']
}

/// The path in a selection displayed as `repo/branch (path)`: what stands
/// between the last ` (` and the final character.
pub open spec fn path_in(selection: Seq<char>) -> Option<Seq<char>> {
    match rfind_text(selection, path_opener()) {
        Some(i) => if i + 2 < selection.len() {
            Some(selection.subrange(i + 2, selection.len() - 1))
        } else {
            None
        },
        None => None,
    }
}

/// The branch in a selection displayed as `repo/branch (path)`: what stands
/// between the last `/` before the last ` (` and that ` (`.
pub open spec fn branch_in(selection: Seq<char>) -> Option<Seq<char>> {
    match rfind_text(selection, path_opener()) {
        Some(i) => match rfind_text(selection.take(i), seq!['/']) {
            Some(j) => Some(selection.subrange(j + 1, i)),
            None => None,
        },
        None => None,
    }
}

/// The reference in a selection displayed as `name (kind)`: what stands
/// before the first ` (`.
pub open spec fn reference_in(selection: Seq<char>) -> Option<Seq<char>> {
    match find_text(selection, path_opener()) {
        Some(i) => Some(selection.take(i)),
        None => None,
    }
}

/// The path of a worktree chosen from a list of `repo/branch (path)`.
pub fn extract_path_from_selection(selection: &str) -> (r: Result<String, SelectionError>)
    ensures
        match r {
            Ok(path) => path_in(selection@) == Some(path@),
            Err(e) => path_in(selection@) is None && e == SelectionError::InvalidFormat,
        },
{
    let chars = chars_of(selection);
    let opener = vec![' ', '('];
    assert(opener@ =~= path_opener());
    match rfind_in(&chars, &opener) {
        Some(i) => {
            let end = chars.len();
            proof {
                crate::text::lemma_rfind_text(chars@, opener@);
                assert(opener@.len() == 2);
            }
            if i + 2 < end {
                let path = slice_of(&chars, i + 2, end - 1);
                Ok(string_of(&path))
            } else {
                Err(SelectionError::InvalidFormat)
            }
        },
        None => Err(SelectionError::InvalidFormat),
    }
}

/// The branch of a worktree chosen from a list of `repo/branch (path)`.
pub fn extract_branch_from_selection(selection: &str) -> (r: Result<String, SelectionError>)
    ensures
        match r {
            Ok(branch) => branch_in(selection@) == Some(branch@),
            Err(e) => branch_in(selection@) is None && e == SelectionError::InvalidFormat,
        },
{
    let chars = chars_of(selection);
    let opener = vec![' ', '('];
    assert(opener@ =~= path_opener());
    match rfind_in(&chars, &opener) {
        Some(i) => {
            proof {
                crate::text::lemma_rfind_text(chars@, opener@);
            }
            let head = slice_of(&chars, 0, i);
            assert(head@ =~= selection@.take(i as int));
            let slash = vec!['/'];
            assert(slash@ =~= seq!['/']);
            match rfind_in(&head, &slash) {
                Some(j) => {
                    proof {
                        crate::text::lemma_rfind_text(head@, slash@);
                    }
                    let branch = slice_of(&chars, j + 1, i);
                    Ok(string_of(&branch))
                },
                None => Err(SelectionError::InvalidFormat),
            }
        },
        None => Err(SelectionError::InvalidFormat),
    }
}

/// The reference chosen from a list of `name (kind)`.
pub fn extract_reference_from_selection(selection: &str) -> (r: Result<String, SelectionError>)
    ensures
        match r {
            Ok(name) => reference_in(selection@) == Some(name@),
            Err(e) => reference_in(selection@) is None && e == SelectionError::InvalidFormat,
        },
{
    let chars = chars_of(selection);
    let opener = vec![' ', '('];
    assert(opener@ =~= path_opener());
    match find_in(&chars, &opener, 0) {
        Some(i) => {
            proof {
                crate::text::lemma_find_text(chars@, opener@);
            }
            let name = slice_of(&chars, 0, i);
            assert(name@ =~= selection@.take(i as int));
            Ok(string_of(&name))
        },
        None => Err(SelectionError::InvalidFormat),
    }
}

} // verus!
