//! One line of the file and what the report shows of it.

use crate::ansi::{clean, cleaned, colour_off, colour_on, paint, painted, Tint};
use crate::chars::text_of;
use crate::decimal::{decimal, push_decimal};
use crate::highlight::{
    first_occurrence, highlight, highlighted, is_first_occurrence, lemma_first_occurrence,
    occurs_in,
};
use crate::pattern::{MatchResult, Pattern};
use vstd::prelude::*;
use vstd::string::StringExecFns;

verus! {

/// The word that opens the label of a line.
pub open spec fn label_start() -> Seq<char> {
    seq!['l', 'i', 'n', 'e', 'n', 'o', ' ']
}

/// The colon and line feed that close the label of a line.
pub open spec fn label_end() -> Seq<char> {
    seq![':', '\n']
}

/// The label of the line with index `lineno`: the index in green, between
/// the opening word and the closing colon.
pub open spec fn label(lineno: nat) -> Seq<char> {
    label_start() + painted(Tint::Green, decimal(lineno)) + label_end()
}

/// The two lines that the report shows for a line of the file: its label, and
/// under it the line's text `data`.
pub open spec fn rendered(lineno: nat, data: Seq<char>) -> Seq<char> {
    label(lineno) + data
}

/// A line that matched, ready for the report: its index in the file, counted
/// from zero, and its text with the match marked.
#[derive(Debug, PartialEq, Eq)]
pub struct Output {
    pub lineno: usize,
    pub data: String,
}

impl Output {
    /// The output of the line with index `lineno` whose marked text is
    /// `data`.
    pub fn new(lineno: usize, data: String) -> (output: Output)
        ensures
            output.lineno == lineno,
            output.data == data,
    {
        Output { lineno, data }
    }

    /// The label and the text, as the report shows them.
    pub fn render(&self) -> (text: String)
        ensures
            text@ == rendered(self.lineno as nat, self.data@),
    {
        let mut number = String::new();
        push_decimal(&mut number, self.lineno);
        let mut text = "lineno ".to_owned();
        text.append(paint(Tint::Green, number.as_str()).as_str());
        text.append(":\n");
        text.append(self.data.as_str());
        proof {
            reveal_strlit("lineno ");
            reveal_strlit(":\n");
            assert("lineno "@ == label_start());
            assert(":\n"@ == label_end());
            assert(number@ == decimal(self.lineno as nat));
        }
        text
    }
}

/// What the report shows of the line `line` with index `lineno`, in which
/// the pattern matched the text `matched`.
pub open spec fn shown(lineno: nat, line: Seq<char>, matched: Seq<char>) -> Seq<char> {
    rendered(lineno, highlighted(line, matched))
}

/// What is shown of a line in which the matched text occurs holds both
/// colours: the index stands between the green sequence and the reset, and
/// the first occurrence of the matched text between the red sequence and the
/// reset, with the rest of the line around it as it was.
pub proof fn lemma_shown_marks_index_and_match(lineno: nat, line: Seq<char>, matched: Seq<char>)
    requires
        occurs_in(line, matched),
    ensures
        is_first_occurrence(line, matched, first_occurrence(line, matched)),
        shown(lineno, line, matched) == label_start() + colour_on(Tint::Green) + decimal(lineno)
            + colour_off() + label_end() + line.subrange(0, first_occurrence(line, matched))
            + colour_on(Tint::Red) + matched + colour_off() + line.subrange(
            first_occurrence(line, matched) + matched.len(),
            line.len() as int,
        ),
{
    lemma_first_occurrence(line, matched);
}

/// Whether `pattern` matches somewhere in the line `raw`, once the line is
/// cleaned of escape sequences.
pub open spec fn line_matches(pattern: Pattern, raw: Seq<char>) -> bool {
    pattern.matches(cleaned(raw))
}

/// What the report shows of the line `raw` with index `lineno`: nothing where
/// `pattern` does not match in the cleaned line, else the label and the
/// cleaned line with the matched text marked.
pub open spec fn line_output(pattern: Pattern, lineno: nat, raw: Seq<char>) -> Option<
    Seq<char>,
> {
    let line = cleaned(raw);
    match pattern.first_match(line) {
        Some((_, _, matched)) => Some(shown(lineno, line, matched)),
        None => None,
    }
}

/// What the report shows of the line `line` with index `lineno`, given the
/// match that was found in it.
pub fn format_match(lineno: usize, line: &str, found: &MatchResult) -> (text: String)
    ensures
        text@ == shown(lineno as nat, line@, found.text@),
{
    Output::new(lineno, highlight(line, found.text.as_str())).render()
}

/// Cleans the line `raw` of escape sequences, searches it for `pattern`, and
/// formats it for the report if the pattern matched. The text of a match
/// occurs in the cleaned line, so that an output always holds the mark.
pub fn process_line(lineno: usize, raw: &str, pattern: &Pattern) -> (output: Option<String>)
    ensures
        text_of(output) == line_output(*pattern, lineno as nat, raw@),
        output is Some <==> line_matches(*pattern, raw@),
        pattern.first_match(cleaned(raw@)) matches Some((_, _, matched)) ==> occurs_in(
            cleaned(raw@),
            matched,
        ),
{
    let line = clean(raw);
    match pattern.find(line.as_str()) {
        Some(found) => Some(format_match(lineno, line.as_str(), &found)),
        None => None,
    }
}

} // verus!
