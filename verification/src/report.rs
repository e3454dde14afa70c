//! The report: what every matching line shows, in the order of the file.

use crate::ansi::{ansi_strip, clean, cleaned, ESCAPE};
use crate::error::Error;
use crate::lines::{joined, lemma_joined_nonempty, lines_of, split_lines, texts};
use crate::pattern::Pattern;
use crate::record::{line_matches, line_output, process_line};
use vstd::prelude::*;
use vstd::string::StringExecFns;

verus! {

/// The blank line between two entries of a report.
pub open spec fn separator() -> Seq<char> {
    seq!['\n', '\n']
}

/// The texts of a sequence of strings of which some may be absent.
pub open spec fn outputs_of(outputs: Seq<Option<String>>) -> Seq<Option<Seq<char>>> {
    Seq::new(
        outputs.len(),
        |i: int|
            match outputs[i] {
                Some(s) => Some(s@),
                None => None,
            },
    )
}

/// The values that are present in `outputs`, in their order.
pub open spec fn kept<T>(outputs: Seq<Option<T>>) -> Seq<T>
    decreases outputs.len(),
{
    if outputs.len() == 0 {
        Seq::empty()
    } else {
        let before = kept(outputs.drop_last());
        match outputs.last() {
            Some(output) => before.push(output),
            None => before,
        }
    }
}

/// The indices of `outputs` at which a value is present, in ascending order.
pub open spec fn kept_indices<T>(outputs: Seq<Option<T>>) -> Seq<int>
    decreases outputs.len(),
{
    if outputs.len() == 0 {
        Seq::empty()
    } else {
        let before = kept_indices(outputs.drop_last());
        if outputs.last() is Some {
            before.push(outputs.len() - 1)
        } else {
            before
        }
    }
}

/// The values kept of a sequence are those at the kept indices, one for one;
/// the kept indices ascend, and no index with a value is missing from them.
pub proof fn lemma_kept_in_order<T>(outputs: Seq<Option<T>>)
    ensures
        kept(outputs).len() == kept_indices(outputs).len(),
        forall|k: int|
            0 <= k < kept_indices(outputs).len() ==> 0 <= #[trigger] kept_indices(outputs)[k]
                < outputs.len() && outputs[kept_indices(outputs)[k]] == Some(kept(outputs)[k]),
        forall|j: int, k: int|
            0 <= j < k < kept_indices(outputs).len() ==> kept_indices(outputs)[j] < kept_indices(
                outputs,
            )[k],
        forall|i: int|
            0 <= i < outputs.len() && (#[trigger] outputs[i]) is Some ==> kept_indices(
                outputs,
            ).contains(i),
    decreases outputs.len(),
{
    if outputs.len() > 0 {
        let before = outputs.drop_last();
        let last = outputs.len() - 1;
        lemma_kept_in_order(before);
        let indices = kept_indices(outputs);
        assert forall|i: int| 0 <= i < outputs.len() && (#[trigger] outputs[i]) is Some implies indices.contains(
            i,
        ) by {
            if i < last {
                assert(before[i] is Some);
                let k = choose|k: int|
                    0 <= k < kept_indices(before).len() && kept_indices(before)[k] == i;
                assert(indices[k] == i);
            } else {
                assert(indices[indices.len() - 1] == i);
            }
        }
    }
}

/// The report made of `outputs`: those that are present, in their order,
/// with a blank line between each two neighbours.
pub open spec fn report_of(outputs: Seq<Option<Seq<char>>>) -> Seq<char> {
    joined(kept(outputs), separator())
}

/// Joins the outputs that are present into one report. A report that would
/// be empty is no report: that is the failure `NoMatches`.
pub fn aggregate(outputs: &Vec<Option<String>>) -> (r: Result<String, Error>)
    ensures
        match r {
            Ok(report) => report@ == report_of(outputs_of(outputs@)) && report@.len() > 0,
            Err(e) => e == Error::NoMatches && report_of(outputs_of(outputs@)).len() == 0,
        },
{
    let mut report = String::new();
    let mut any = false;
    let mut i: usize = 0;
    while i < outputs.len()
        invariant
            i <= outputs.len(),
            any == (kept(outputs_of(outputs@).take(i as int)).len() > 0),
            report@ == report_of(outputs_of(outputs@).take(i as int)),
        decreases outputs.len() - i,
    {
        proof {
            let next = outputs_of(outputs@).take(i + 1);
            assert(next.drop_last() == outputs_of(outputs@).take(i as int));
        }
        match &outputs[i] {
            Some(output) => {
                if any {
                    report.append("\n\n");
                }
                report.append(output.as_str());
                any = true;
                proof {
                    reveal_strlit("\n\n");
                    assert("\n\n"@ == separator());
                    let before = kept(outputs_of(outputs@).take(i as int));
                    assert(before.push(output@).drop_last() == before);
                }
            },
            None => {},
        }
        i += 1;
    }
    assert(outputs_of(outputs@).take(outputs.len() as int) == outputs_of(outputs@));
    if report.as_str().is_empty() {
        Err(Error::NoMatches)
    } else {
        Ok(report)
    }
}

/// What the report shows of each of `lines`, in order, the index of a line
/// being its place in the sequence.
pub open spec fn line_outputs(pattern: Pattern, lines: Seq<Seq<char>>) -> Seq<
    Option<Seq<char>>,
> {
    Seq::new(lines.len(), |i: int| line_output(pattern, i as nat, lines[i]))
}

/// Whether `pattern` matches in none of `lines`.
pub open spec fn no_line_matches(pattern: Pattern, lines: Seq<Seq<char>>) -> bool {
    forall|i: int| 0 <= i < lines.len() ==> !line_matches(pattern, #[trigger] lines[i])
}

/// The report of a search for `pattern` in the lines of `text`.
pub open spec fn report_text(pattern: Pattern, text: Seq<char>) -> Seq<char> {
    report_of(line_outputs(pattern, lines_of(text)))
}

/// What a search ends in: the report, or the failure `NoMatches` where the
/// pattern matches in no line.
pub open spec fn search_outcome(pattern: Pattern, text: Seq<char>) -> Result<Seq<char>, Error> {
    if no_line_matches(pattern, lines_of(text)) {
        Err(Error::NoMatches)
    } else {
        Ok(report_text(pattern, text))
    }
}

/// The text of a report that may be a failure instead.
pub open spec fn outcome_of(r: Result<String, Error>) -> Result<Seq<char>, Error> {
    match r {
        Ok(report) => Ok(report@),
        Err(e) => Err(e),
    }
}

/// What is printed of a report: the report as it is where colour is wanted,
/// else the report cleaned of its escape sequences.
pub open spec fn printed(report: Seq<char>, color: bool) -> Seq<char> {
    if color {
        report
    } else {
        cleaned(report)
    }
}

/// A report lists exactly the lines in which the pattern matches, each once,
/// in ascending order of their indices: its entries are what these lines
/// show, joined with blank lines.
pub proof fn lemma_report_lists_matching_lines(pattern: Pattern, lines: Seq<Seq<char>>)
    ensures
        ({
            let outputs = line_outputs(pattern, lines);
            let indices = kept_indices(outputs);
            let entries = kept(outputs);
            &&& report_of(outputs) == joined(entries, separator())
            &&& entries.len() == indices.len()
            &&& forall|j: int, k: int| 0 <= j < k < indices.len() ==> indices[j] < indices[k]
            &&& forall|i: int|
                0 <= i < lines.len() ==> (indices.contains(i) <==> line_matches(
                    pattern,
                    #[trigger] lines[i],
                ))
            &&& forall|k: int|
                0 <= k < indices.len() ==> 0 <= #[trigger] indices[k] < lines.len() && line_output(
                    pattern,
                    indices[k] as nat,
                    lines[indices[k]],
                ) == Some(entries[k])
        }),
{
    let outputs = line_outputs(pattern, lines);
    let indices = kept_indices(outputs);
    lemma_kept_in_order(outputs);
    assert forall|i: int| 0 <= i < lines.len() implies (indices.contains(i) <==> line_matches(
        pattern,
        #[trigger] lines[i],
    )) by {
        if indices.contains(i) {
            let k = choose|k: int| 0 <= k < indices.len() && indices[k] == i;
            assert(outputs[indices[k]] is Some);
        }
        if line_matches(pattern, lines[i]) {
            assert(outputs[i] is Some);
        }
    }
}

/// A search can be repeated: two patterns compiled from one pattern text,
/// searched in one text, end alike, in the same report or the same failure,
/// and what is printed of the report is the same both times.
pub proof fn lemma_search_is_repeatable(
    pattern_text: Seq<char>,
    text: Seq<char>,
    color: bool,
    first_pattern: Pattern,
    second_pattern: Pattern,
    first: Result<String, Error>,
    second: Result<String, Error>,
)
    requires
        Pattern::compilation(pattern_text) == Ok::<Pattern, Seq<char>>(first_pattern),
        Pattern::compilation(pattern_text) == Ok::<Pattern, Seq<char>>(second_pattern),
        outcome_of(first) == search_outcome(first_pattern, text),
        outcome_of(second) == search_outcome(second_pattern, text),
    ensures
        outcome_of(first) == outcome_of(second),
        first is Ok ==> second is Ok && printed(first->Ok_0@, color) == printed(
            second->Ok_0@,
            color,
        ),
{
}

/// The report of a search is empty exactly when the pattern matches in no
/// line.
pub proof fn lemma_empty_report_iff_no_match(pattern: Pattern, lines: Seq<Seq<char>>)
    ensures
        report_of(line_outputs(pattern, lines)).len() == 0 <==> no_line_matches(pattern, lines),
{
    let outputs = line_outputs(pattern, lines);
    let indices = kept_indices(outputs);
    lemma_kept_in_order(outputs);
    if no_line_matches(pattern, lines) {
        if indices.len() > 0 {
            assert(outputs[indices[0]] is Some);
            assert(line_matches(pattern, lines[indices[0]]));
        }
    } else {
        let i = choose|i: int| 0 <= i < lines.len() && line_matches(pattern, lines[i]);
        assert(outputs[i] is Some);
        assert(indices.contains(i));
        let last = indices.len() - 1;
        assert(outputs[indices[last]] == Some(kept(outputs)[last]));
        lemma_joined_nonempty(kept(outputs), separator());
    }
}

/// Processes each of `lines` in turn, the index of a line being its place in
/// the vector.
pub fn process_lines(lines: &Vec<String>, pattern: &Pattern) -> (outputs: Vec<Option<String>>)
    ensures
        outputs_of(outputs@) == line_outputs(*pattern, texts(lines@)),
{
    let mut outputs: Vec<Option<String>> = Vec::new();
    let mut i: usize = 0;
    while i < lines.len()
        invariant
            i <= lines.len(),
            outputs_of(outputs@) == line_outputs(*pattern, texts(lines@)).take(i as int),
        decreases lines.len() - i,
    {
        let ghost before = outputs_of(outputs@);
        let output = process_line(i, lines[i].as_str(), pattern);
        outputs.push(output);
        assert(outputs_of(outputs@) == before.push(
            line_output(*pattern, i as nat, texts(lines@)[i as int]),
        ));
        i += 1;
    }
    outputs
}

/// Searches every line of `text` for `pattern`, and reports the lines in
/// which it matches, in the order of the file. Where it matches in no line
/// there is no report, and the failure is `NoMatches`.
pub fn search(text: &str, pattern: &Pattern) -> (r: Result<String, Error>)
    ensures
        outcome_of(r) == search_outcome(*pattern, text@),
{
    let lines = split_lines(text);
    let outputs = process_lines(&lines, pattern);
    proof {
        lemma_empty_report_iff_no_match(*pattern, lines_of(text@));
    }
    aggregate(&outputs)
}

/// The report as it is printed: as it is where colour is wanted, else
/// without its escape sequences. A failure to strip them is not reported: the
/// report is then printed as it is.
pub fn present(report: &str, color: bool) -> (text: String)
    ensures
        text@ == printed(report@, color),
        !color && ansi_strip(report@) is Some ==> !text@.contains(ESCAPE),
{
    if color {
        report.to_owned()
    } else {
        clean(report)
    }
}

} // verus!
