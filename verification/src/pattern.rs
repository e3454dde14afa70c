//! Compiled patterns and the first match of one in a line.
//!
//! The engine reports a match by its byte offsets in the line. The text of
//! the match is cut out of the line here, and shown to occur in it.

use crate::engine::{
    compile_outcome, compile_regex, find_offsets, is_match_range, leftmost_match, regex_source,
};
use crate::highlight::{occurs_at, occurs_in};
use regex::Regex;
use vstd::prelude::*;
use vstd::string::StringSliceAdditionalSpecFns;
use vstd::utf8::*;

verus! {

/// The text that lies between two byte offsets of the UTF-8 encoding of
/// `haystack`.
pub open spec fn text_between(haystack: Seq<char>, start: int, end: int) -> Seq<char> {
    decode_utf8(encode_utf8(haystack).subrange(start, end))
}

/// The text before a byte offset of the UTF-8 encoding of `haystack`.
pub open spec fn text_before(haystack: Seq<char>, start: int) -> Seq<char> {
    decode_utf8(encode_utf8(haystack).subrange(0, start))
}

/// The text from a byte offset of the UTF-8 encoding of `haystack` on.
pub open spec fn text_after(haystack: Seq<char>, end: int) -> Seq<char> {
    decode_utf8(encode_utf8(haystack).subrange(end, encode_utf8(haystack).len() as int))
}

/// A character boundary of a byte sequence is one of each of its suffixes that
/// starts at a boundary before it.
proof fn lemma_boundary_in_suffix(bytes: Seq<u8>, start: int, end: int)
    requires
        valid_utf8(bytes),
        0 <= start <= end <= bytes.len(),
        is_char_boundary(bytes, start),
        is_char_boundary(bytes, end),
    ensures
        valid_utf8(bytes.subrange(start, bytes.len() as int)),
        is_char_boundary(bytes.subrange(start, bytes.len() as int), end - start),
{
    valid_utf8_split(bytes, start);
    let suffix = bytes.subrange(start, bytes.len() as int);
    if end == start || end == bytes.len() {
        is_char_boundary_start_end_of_seq(suffix);
    } else {
        is_char_boundary_iff_not_is_continuation_byte(bytes, end);
        is_char_boundary_iff_not_is_continuation_byte(suffix, end - start);
    }
}

/// A match range cuts its haystack into three texts: what lies before the
/// range, what lies in it, and what lies after it.
pub proof fn lemma_match_range_cuts(haystack: Seq<char>, start: int, end: int)
    requires
        is_match_range(haystack, start, end),
    ensures
        haystack == text_before(haystack, start) + text_between(haystack, start, end) + text_after(
            haystack,
            end,
        ),
{
    let bytes = encode_utf8(haystack);
    let suffix = bytes.subrange(start, bytes.len() as int);
    encode_utf8_valid_utf8(haystack);
    encode_utf8_decode_utf8(haystack);
    lemma_boundary_in_suffix(bytes, start, end);
    decode_utf8_split(bytes, start);
    decode_utf8_split(suffix, end - start);
    assert(suffix.subrange(0, end - start) == bytes.subrange(start, end));
    assert(suffix.subrange(end - start, suffix.len() as int) == bytes.subrange(
        end,
        bytes.len() as int,
    ));
}

/// The text in a match range of a haystack occurs in the haystack.
pub proof fn lemma_matched_text_occurs(haystack: Seq<char>, start: int, end: int)
    requires
        is_match_range(haystack, start, end),
    ensures
        occurs_in(haystack, text_between(haystack, start, end)),
{
    lemma_match_range_cuts(haystack, start, end);
    let before = text_before(haystack, start);
    let between = text_between(haystack, start, end);
    assert(haystack.subrange(before.len() as int, (before.len() + between.len()) as int)
        == between);
    assert(occurs_at(haystack, between, before.len() as int));
}

/// The first match of a pattern in a line: the matched text and the byte
/// offsets at which it starts and ends in the line.
#[derive(Debug, PartialEq, Eq)]
pub struct MatchResult {
    pub start: usize,
    pub end: usize,
    pub text: String,
}

/// The match that the byte range `start..end` of `line` stands for; `None`
/// where the two offsets are no ordered pair of character boundaries of the
/// line.
pub fn match_at(line: &str, start: usize, end: usize) -> (r: Option<MatchResult>)
    ensures
        r is Some <==> is_match_range(line@, start as int, end as int),
        r matches Some(m) ==> m.start == start && m.end == end && m.text@ == text_between(
            line@,
            start as int,
            end as int,
        ),
{
    proof {
        encode_utf8_valid_utf8(line@);
    }
    let byte_len = line.as_bytes().len();
    if start > end || end > byte_len || !line.is_char_boundary(start) || !line.is_char_boundary(
        end,
    ) {
        return None;
    }
    proof {
        lemma_boundary_in_suffix(line.spec_bytes(), start as int, end as int);
    }
    let (_, rest) = line.split_at(start);
    let (middle, _) = rest.split_at(end - start);
    proof {
        let bytes = line.spec_bytes();
        assert(rest.spec_bytes().subrange(0, end - start) == bytes.subrange(
            start as int,
            end as int,
        ));
        encode_utf8_decode_utf8(middle@);
    }
    Some(MatchResult { start, end, text: middle.to_owned() })
}

/// A pattern text that the engine refused, with the engine's description of
/// what is wrong with it.
#[derive(Debug, PartialEq, Eq)]
pub struct PatternError {
    pub description: String,
}

/// A regular expression, compiled once and searched in many lines. Its view
/// is the pattern text it was compiled from.
#[derive(Debug)]
pub struct Pattern {
    regex: Regex,
}

impl View for Pattern {
    type V = Seq<char>;

    closed spec fn view(&self) -> Seq<char> {
        regex_source(self.regex)
    }
}

impl MatchResult {
    /// The offsets and the text of the match, as one value.
    pub open spec fn parts(self) -> (usize, usize, Seq<char>) {
        (self.start, self.end, self.text@)
    }
}

/// The parts of a match that may be absent.
pub open spec fn parts_of(m: Option<MatchResult>) -> Option<(usize, usize, Seq<char>)> {
    match m {
        Some(m) => Some(m.parts()),
        None => None,
    }
}

impl Pattern {
    /// What compiling the pattern text `text` yields: the pattern, or the
    /// engine's description of what is wrong with the text.
    pub closed spec fn compilation(text: Seq<char>) -> Result<Pattern, Seq<char>> {
        match compile_outcome(text) {
            Ok(regex) => Ok(Pattern { regex }),
            Err(description) => Err(description),
        }
    }

    /// The byte offsets of the leftmost match of the pattern in `line`.
    pub closed spec fn match_offsets(self, line: Seq<char>) -> Option<(usize, usize)> {
        leftmost_match(self.regex, line)
    }

    /// Whether the pattern matches somewhere in `line`.
    pub open spec fn matches(self, line: Seq<char>) -> bool {
        self.match_offsets(line) is Some
    }

    /// What searching `line` for the pattern yields: the byte offsets of the
    /// leftmost match and the text between them.
    pub open spec fn first_match(self, line: Seq<char>) -> Option<(usize, usize, Seq<char>)> {
        match self.match_offsets(line) {
            Some((start, end)) => Some((start, end, text_between(line, start as int, end as int))),
            None => None,
        }
    }

    /// Compiles the pattern text `text`. Whether that succeeds, which pattern
    /// it yields and what is said of a text that is refused is the engine's
    /// answer, and depends on the text alone.
    pub fn compile(text: &str) -> (r: Result<Pattern, PatternError>)
        ensures
            match r {
                Ok(pattern) => Pattern::compilation(text@) == Ok::<Pattern, Seq<char>>(pattern)
                    && pattern@ == text@,
                Err(e) => Pattern::compilation(text@) == Err::<Pattern, Seq<char>>(
                    e.description@,
                ),
            },
    {
        match compile_regex(text) {
            Ok(regex) => Ok(Pattern { regex }),
            Err(description) => Err(PatternError { description }),
        }
    }

    /// The pattern text.
    pub fn as_str(&self) -> (text: &str)
        ensures
            text@ == self@,
    {
        self.regex.as_str()
    }

    /// The first match of the pattern in `line`, if there is one. The offsets
    /// of a match are a match range of the line, so that its text occurs in
    /// the line.
    pub fn find(&self, line: &str) -> (r: Option<MatchResult>)
        ensures
            parts_of(r) == self.first_match(line@),
            r matches Some(m) ==> is_match_range(line@, m.start as int, m.end as int)
                && occurs_in(line@, m.text@),
    {
        match find_offsets(&self.regex, line) {
            Some((start, end)) => {
                proof {
                    lemma_matched_text_occurs(line@, start as int, end as int);
                }
                match_at(line, start, end)
            },
            None => None,
        }
    }
}

} // verus!
