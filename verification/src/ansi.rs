//! Terminal colour: painting a text, and taking escape sequences out of one.
//!
//! Painting is done by the `ansi_term` crate and stripping by the
//! `strip_ansi_escapes` crate. Neither is proved here; each call stands
//! behind a contract that says what the crate's source shows of it.

use crate::chars::text_of;
use vstd::prelude::*;

verus! {

/// The character that starts every escape sequence.
pub const ESCAPE: char = '\u{1b}';

/// The two colours of a report.
#[derive(Debug, Clone, Copy, PartialEq, Eq, Structural)]
pub enum Tint {
    /// The colour of a matched text.
    Red,
    /// The colour of a line's index.
    Green,
}

impl Tint {
    /// The digits by which a colour is selected as the foreground.
    pub open spec fn code(self) -> Seq<char> {
        match self {
            Tint::Red => seq!['3', '1'],
            Tint::Green => seq!['3', '2'],
        }
    }
}

/// The sequence that switches the foreground to `tint`.
pub open spec fn colour_on(tint: Tint) -> Seq<char> {
    seq![ESCAPE, '['] + tint.code() + seq!['m']
}

/// The sequence that resets every colour and style.
pub open spec fn colour_off() -> Seq<char> {
    seq![ESCAPE, '[', '0', 'm']
}

/// `text` in `tint`: the text between the sequence that switches the colour
/// on and the one that resets it.
pub open spec fn painted(tint: Tint, text: Seq<char>) -> Seq<char> {
    colour_on(tint) + text + colour_off()
}

/// What `strip_ansi_escapes::strip` makes of `text`, read back as text:
/// `None` where it reports a failure, else what is left of `text` without its
/// escape sequences.
pub uninterp spec fn ansi_strip(text: Seq<char>) -> Option<Seq<char>>;

/// Calls `Colour::paint` of `ansi_term` with the colour that `tint` stands
/// for, and writes the painted string out. For a plain foreground colour the
/// crate writes `ESC [`, the colour's code and `m` before the text, and the
/// reset sequence `ESC [ 0 m` after it, whatever the text holds.
#[verifier::external_body]
pub(crate) fn paint(tint: Tint, text: &str) -> (r: String)
    ensures
        r@ == painted(tint, text@),
{
    let colour = match tint {
        Tint::Red => ansi_term::Colour::Red,
        Tint::Green => ansi_term::Colour::Green,
    };
    colour.paint(text).to_string()
}

/// Calls `strip_ansi_escapes::strip` on `text` and reads the bytes it
/// returns back as text. The outcome depends on `text` alone. The crate
/// writes out only the characters that its parser prints and the line feeds
/// it executes; the parser never prints the escape character, which always
/// starts a sequence.
#[verifier::external_body]
fn strip(text: &str) -> (r: Option<String>)
    ensures
        text_of(r) == ansi_strip(text@),
        r matches Some(s) ==> !s@.contains(ESCAPE),
{
    match strip_ansi_escapes::strip(text) {
        Ok(bytes) => Some(String::from_utf8_lossy(&bytes).into_owned()),
        Err(_) => None,
    }
}

/// What is kept of the text `raw` after an attempt to strip it: the stripped
/// text where the attempt succeeded, the text as it was where it failed.
pub open spec fn stripped_or(outcome: Option<Seq<char>>, raw: Seq<char>) -> Seq<char> {
    match outcome {
        Some(stripped) => stripped,
        None => raw,
    }
}

/// `text` without its escape sequences; `text` itself where stripping fails.
pub open spec fn cleaned(text: Seq<char>) -> Seq<char> {
    stripped_or(ansi_strip(text), text)
}

/// The stripped text where there is one, else a copy of the text `raw` as it
/// was.
pub fn stripped_or_raw(outcome: Option<String>, raw: &str) -> (r: String)
    ensures
        r@ == stripped_or(text_of(outcome), raw@),
{
    match outcome {
        Some(stripped) => stripped,
        None => raw.to_owned(),
    }
}

/// `text` without its escape sequences. A failure to strip is not reported:
/// the text then comes back unchanged. Where stripping succeeds, no escape
/// character is left.
pub fn clean(text: &str) -> (r: String)
    ensures
        r@ == cleaned(text@),
        ansi_strip(text@) is Some ==> !r@.contains(ESCAPE),
{
    stripped_or_raw(strip(text), text)
}

} // verus!
