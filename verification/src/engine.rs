//! The regular-expression engine: the `regex` crate, as far as this library
//! calls it.
//!
//! Nothing in this file is proved. Each call into the engine stands behind a
//! contract that gives the engine's answer a name and says of it what the
//! engine documents; the rest of the library is verified against these
//! contracts.

use regex::Regex;
use vstd::prelude::*;
use vstd::utf8::{encode_utf8, is_char_boundary};

verus! {

/// A compiled regular expression of the `regex` crate.
#[verifier::external_type_specification]
#[verifier::external_body]
pub struct ExRegex(Regex);

/// The pattern text that a compiled expression was built from: what
/// `Regex::as_str` returns of it.
pub uninterp spec fn regex_source(re: Regex) -> Seq<char>;

/// What `Regex::new` makes of a pattern text: the compiled expression, or,
/// where the engine refuses the text, the description that the error it
/// returns gives of itself.
pub uninterp spec fn compile_outcome(pattern: Seq<char>) -> Result<Regex, Seq<char>>;

/// The byte offsets, start and end, of the leftmost match that `Regex::find`
/// reports for the expression `re` in `haystack`; `None` where it reports no
/// match.
pub uninterp spec fn leftmost_match(re: Regex, haystack: Seq<char>) -> Option<(usize, usize)>;

/// Calls `Regex::new` on `pattern`, and turns the error it may return into
/// that error's description of itself. What the engine makes of a pattern
/// depends on the pattern text alone: two expressions compiled from one text
/// answer every search alike, and are taken for one value here. A compiled
/// expression remembers the text it was built from.
#[verifier::external_body]
pub(crate) fn compile_regex(pattern: &str) -> (r: Result<Regex, String>)
    ensures
        match r {
            Ok(re) => compile_outcome(pattern@) == Ok::<Regex, Seq<char>>(re) && regex_source(re)
                == pattern@,
            Err(text) => compile_outcome(pattern@) == Err::<Regex, Seq<char>>(text@),
        },
{
    match Regex::new(pattern) {
        Ok(re) => Ok(re),
        Err(e) => Err(e.to_string()),
    }
}

/// `Regex::as_str` returns the pattern text that the expression was built
/// from.
pub assume_specification<'a>[ Regex::as_str ](re: &'a Regex) -> (s: &'a str)
    ensures
        s@ == regex_source(*re),
;

/// Whether `start..end` can be the byte range of a match in `haystack`: an
/// ordered pair of character boundaries of its UTF-8 encoding.
pub open spec fn is_match_range(haystack: Seq<char>, start: int, end: int) -> bool {
    let bytes = encode_utf8(haystack);
    &&& 0 <= start <= end <= bytes.len()
    &&& is_char_boundary(bytes, start)
    &&& is_char_boundary(bytes, end)
}

/// Calls `Regex::find`, and hands back the byte offsets of the match it
/// reports. The offsets depend on the expression and the haystack alone. As
/// the engine documents, the start is not behind the end, neither lies
/// outside the haystack, and both fall on character boundaries of it.
#[verifier::external_body]
pub(crate) fn find_offsets(re: &Regex, haystack: &str) -> (r: Option<(usize, usize)>)
    ensures
        r == leftmost_match(*re, haystack@),
        r matches Some((start, end)) ==> is_match_range(haystack@, start as int, end as int),
{
    re.find(haystack).map(|m| (m.start(), m.end()))
}

} // verus!
