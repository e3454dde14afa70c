//! Marking a matched text in its line.
//!
//! The mark is put on the first place where the matched text occurs in the
//! line, read as plain text. That need not be the place where the pattern
//! matched: a pattern bound to a word's edge or to the line's end may match
//! later than its text first occurs.

use crate::ansi::{paint, painted, Tint};
use crate::chars::{chars_of, string_of};
use vstd::prelude::*;
use vstd::string::StringExecFns;

verus! {

/// Whether `part` stands in `text` at index `at`.
pub open spec fn occurs_at(text: Seq<char>, part: Seq<char>, at: int) -> bool {
    &&& 0 <= at
    &&& at + part.len() <= text.len()
    &&& text.subrange(at, at + part.len()) == part
}

/// Whether `part` stands somewhere in `text`.
pub open spec fn occurs_in(text: Seq<char>, part: Seq<char>) -> bool {
    exists|at: int| occurs_at(text, part, at)
}

/// Whether `at` is the first index of `text` at which `part` stands.
pub open spec fn is_first_occurrence(text: Seq<char>, part: Seq<char>, at: int) -> bool {
    &&& occurs_at(text, part, at)
    &&& forall|earlier: int| 0 <= earlier < at ==> !occurs_at(text, part, earlier)
}

/// The first index of `text` at which `part` stands, where it stands in it
/// at all.
pub open spec fn first_occurrence(text: Seq<char>, part: Seq<char>) -> int {
    choose|at: int| is_first_occurrence(text, part, at)
}

/// `text` with the first occurrence of `part` replaced by `with`; `text`
/// itself where `part` does not occur in it.
pub open spec fn replace_first(text: Seq<char>, part: Seq<char>, with: Seq<char>) -> Seq<char> {
    if occurs_in(text, part) {
        let at = first_occurrence(text, part);
        text.subrange(0, at) + with + text.subrange(at + part.len(), text.len() as int)
    } else {
        text
    }
}

/// `line` with the first occurrence of `matched` painted red.
pub open spec fn highlighted(line: Seq<char>, matched: Seq<char>) -> Seq<char> {
    replace_first(line, matched, painted(Tint::Red, matched))
}

/// A part that stands at some index of a text has a first occurrence in it,
/// at or before that index.
proof fn lemma_first_occurrence_before(text: Seq<char>, part: Seq<char>, at: int)
    requires
        occurs_at(text, part, at),
    ensures
        exists|first: int| first <= at && is_first_occurrence(text, part, first),
    decreases at,
{
    if exists|earlier: int| 0 <= earlier < at && occurs_at(text, part, earlier) {
        let earlier = choose|earlier: int| 0 <= earlier < at && occurs_at(text, part, earlier);
        lemma_first_occurrence_before(text, part, earlier);
    } else {
        assert(is_first_occurrence(text, part, at));
    }
}

/// A part that occurs in a text has exactly one first occurrence in it, and
/// `first_occurrence` is its index.
pub proof fn lemma_first_occurrence(text: Seq<char>, part: Seq<char>)
    requires
        occurs_in(text, part),
    ensures
        is_first_occurrence(text, part, first_occurrence(text, part)),
        forall|at: int|
            is_first_occurrence(text, part, at) ==> at == first_occurrence(text, part),
{
    let at = choose|at: int| occurs_at(text, part, at);
    lemma_first_occurrence_before(text, part, at);
}

/// Whether `part` stands in `text` at index `at`.
fn stands_at(text: &Vec<char>, part: &Vec<char>, at: usize) -> (r: bool)
    requires
        at + part.len() <= text.len(),
    ensures
        r == occurs_at(text@, part@, at as int),
{
    let mut i: usize = 0;
    while i < part.len()
        invariant
            i <= part.len(),
            at + part.len() <= text.len(),
            text@.subrange(at as int, at + i) == part@.subrange(0, i as int),
        decreases part.len() - i,
    {
        if text[at + i] != part[i] {
            assert(text@.subrange(at as int, at + part.len())[i as int] != part@[i as int]);
            return false;
        }
        assert(text@.subrange(at as int, at + i + 1) == text@.subrange(at as int, at + i).push(
            text@[at + i],
        ));
        assert(part@.subrange(0, i + 1) == part@.subrange(0, i as int).push(part@[i as int]));
        i += 1;
    }
    assert(part@.subrange(0, part.len() as int) == part@);
    true
}

/// The first index of `text` at which `part` stands, if it stands in it.
pub fn find_first(text: &Vec<char>, part: &Vec<char>) -> (r: Option<usize>)
    ensures
        match r {
            Some(at) => is_first_occurrence(text@, part@, at as int),
            None => !occurs_in(text@, part@),
        },
{
    if part.len() > text.len() {
        return None;
    }
    let last: usize = text.len() - part.len();
    let mut at: usize = 0;
    loop
        invariant
            at <= last,
            last == text.len() - part.len(),
            forall|earlier: int| 0 <= earlier < at ==> !occurs_at(text@, part@, earlier),
        decreases last - at,
    {
        if stands_at(text, part, at) {
            return Some(at);
        }
        if at == last {
            return None;
        }
        at += 1;
    }
}

/// `line` with the first occurrence of `matched` painted red; `line` itself
/// where `matched` does not occur in it.
pub fn highlight(line: &str, matched: &str) -> (r: String)
    ensures
        r@ == highlighted(line@, matched@),
{
    let text = chars_of(line);
    let part = chars_of(matched);
    match find_first(&text, &part) {
        Some(at) => {
            proof {
                assert(occurs_at(line@, matched@, at as int));
                assert(at + part.len() <= text.len());
                lemma_first_occurrence(line@, matched@);
            }
            let mut r = string_of(&text, 0, at);
            let mark = paint(Tint::Red, matched);
            r.append(mark.as_str());
            let rest = string_of(&text, at + part.len(), text.len());
            r.append(rest.as_str());
            r
        },
        None => line.to_owned(),
    }
}

} // verus!
