//! Showing what would change in a settings file, and reading the answer to
//! the question whether to go on.

use crate::text::{
    chars_of, lowercase, lowercased, push_text, same_text, string_of, trim_bounds, trimmed,
};
use vstd::prelude::*;
use vstd::slice::slice_subrange;

verus! {

/// What a line of a comparison says.
#[derive(Debug, Clone, Copy, PartialEq, Eq)]
pub enum ChangeKind {
    /// The line stands in both texts.
    Equal,
    /// The line stands in the old text only.
    Delete,
    /// The line stands in the new text only.
    Insert,
}

/// One line of a comparison: what it says, and the line, ending in a line
/// feed.
#[derive(Debug, PartialEq, Eq)]
pub struct LineChange {
    pub kind: ChangeKind,
    pub text: String,
}

/// What is to be done after the comparison was shown.
#[derive(Debug, Clone, Copy, PartialEq, Eq)]
pub enum DiffDecision {
    /// The two texts do not differ.
    Unchanged,
    /// Write the new text.
    Apply,
    /// Leave the file as it is.
    Cancel,
}

/// The lines of a comparison as plain values.
pub open spec fn changes_view(changes: Seq<LineChange>) -> Seq<(ChangeKind, Seq<char>)> {
    Seq::new(changes.len(), |i: int| (changes[i].kind, changes[i].text@))
}

/// The line-by-line comparison that `similar::TextDiff::from_lines` makes
/// of two texts, in the order of `iter_all_changes`.
pub uninterp spec fn compared_lines(old: Seq<char>, new: Seq<char>) -> Seq<(ChangeKind, Seq<char>)>;

/// `similar::TextDiff::from_lines` and `iter_all_changes`, each change as
/// its tag and its text as `Display` shows it. The contract claims only
/// that the outcome is a function of the two texts.
#[verifier::external_body]
fn line_changes(old: &str, new: &str) -> (changes: Vec<LineChange>)
    ensures
        changes_view(changes@) == compared_lines(old@, new@),
{
    similar::TextDiff::from_lines(old, new).iter_all_changes().map(
        |change|
            LineChange {
                kind: match change.tag() {
                    similar::ChangeTag::Equal => ChangeKind::Equal,
                    similar::ChangeTag::Delete => ChangeKind::Delete,
                    similar::ChangeTag::Insert => ChangeKind::Insert,
                },
                text: change.to_string(),
            },
    ).collect()
}

/// Compares two texts line by line.
pub fn compare_lines(old: &str, new: &str) -> (changes: Vec<LineChange>)
    ensures
        changes_view(changes@) == compared_lines(old@, new@),
{
    line_changes(old, new)
}

/// Whether a comparison holds a line that is not in both texts.
pub open spec fn differs(changes: Seq<(ChangeKind, Seq<char>)>) -> bool {
    exists|i: int| 0 <= i < changes.len() && (#[trigger] changes[i]).0 != ChangeKind::Equal
}

/// Whether a comparison holds a line that is not in both texts.
pub fn has_changes(changes: &Vec<LineChange>) -> (r: bool)
    ensures
        r == differs(changes_view(changes@)),
{
    let mut i: usize = 0;
    while i < changes.len()
        invariant
            i <= changes.len(),
            forall|j: int|
                0 <= j < i ==> (#[trigger] changes_view(changes@)[j]).0 == ChangeKind::Equal,
        decreases changes.len() - i,
    {
        match changes[i].kind {
            ChangeKind::Equal => {},
            _ => {
                assert(changes_view(changes@)[i as int].0 != ChangeKind::Equal);
                return true;
            },
        }
        i = i + 1;
    }
    false
}

/// How one line of a comparison is shown: a deleted line in red behind a
/// `-`, an inserted line in green behind a `+`, and a line that stands in
/// both texts not at all.
pub open spec fn shown_line(change: (ChangeKind, Seq<char>)) -> Seq<char> {
    match change.0 {
        ChangeKind::Equal => Seq::empty(),
        ChangeKind::Delete => "\x1b[31m"@ + "-"@ + change.1 + "\x1b[0m"@,
        ChangeKind::Insert => "\x1b[32m"@ + "+"@ + change.1 + "\x1b[0m"@,
    }
}

/// How the first `n` lines of a comparison are shown.
pub open spec fn shown_lines(changes: Seq<(ChangeKind, Seq<char>)>, n: nat) -> Seq<char>
    decreases n,
{
    if n == 0 {
        Seq::empty()
    } else {
        shown_lines(changes, (n - 1) as nat) + shown_line(changes[n - 1])
    }
}

/// Renders a comparison: every line that is not in both texts, marked and
/// coloured.
pub fn render_changes(changes: &Vec<LineChange>) -> (shown: String)
    ensures
        shown@ == shown_lines(changes_view(changes@), changes@.len()),
{
    let mut out: Vec<char> = Vec::new();
    let mut i: usize = 0;
    while i < changes.len()
        invariant
            i <= changes.len(),
            out@ == shown_lines(changes_view(changes@), i as nat),
        decreases changes.len() - i,
    {
        match changes[i].kind {
            ChangeKind::Equal => {},
            ChangeKind::Delete => {
                push_text(&mut out, "\x1b[31m");
                push_text(&mut out, "-");
                push_text(&mut out, changes[i].text.as_str());
                push_text(&mut out, "\x1b[0m");
            },
            ChangeKind::Insert => {
                push_text(&mut out, "\x1b[32m");
                push_text(&mut out, "+");
                push_text(&mut out, changes[i].text.as_str());
                push_text(&mut out, "\x1b[0m");
            },
        }
        i = i + 1;
    }
    string_of(out.as_slice())
}

/// What an answer means once it is trimmed and in lower case: `y` and
/// `yes` mean to go on, everything else means not to.
pub open spec fn said_decision(said: Seq<char>) -> DiffDecision {
    if said == "y"@ || said == "yes"@ {
        DiffDecision::Apply
    } else {
        DiffDecision::Cancel
    }
}

/// What an answer to the question means: `y` and `yes`, in any case and
/// with white space around, mean to go on; everything else means not to.
pub open spec fn answer_decision(answer: Seq<char>) -> DiffDecision {
    said_decision(lowercased(trimmed(answer)))
}

/// Reads an answer that is already trimmed and in lower case.
pub fn decision_of(said: &str) -> (decision: DiffDecision)
    ensures
        decision == said_decision(said@),
        decision == if said@ == "y"@ || said@ == "yes"@ {
            DiffDecision::Apply
        } else {
            DiffDecision::Cancel
        },
{
    if same_text(said, "y") || same_text(said, "yes") {
        DiffDecision::Apply
    } else {
        DiffDecision::Cancel
    }
}

/// Reads the answer to the question whether to go on.
pub fn decide(answer: &str) -> (decision: DiffDecision)
    ensures
        decision == answer_decision(answer@),
{
    let chars = chars_of(answer);
    assert(chars@.skip(0) =~= chars@);
    let (from, to) = trim_bounds(chars.as_slice(), 0);
    let said = lowercase(string_of(slice_subrange(chars.as_slice(), from, to)).as_str());
    decision_of(said.as_str())
}

} // verus!
