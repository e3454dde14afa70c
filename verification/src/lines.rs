//! Cutting a text into lines and joining texts with a separator.

use vstd::prelude::*;

verus! {

/// The character that ends a line.
pub const LINE_FEED: char = '\n';

/// The texts of a sequence of strings.
pub open spec fn texts(strings: Seq<String>) -> Seq<Seq<char>> {
    Seq::new(strings.len(), |i: int| strings[i]@)
}

/// The lines of `text`: the pieces that its line feeds separate. A text that
/// grows by a line feed gains an empty last line; a text that grows by any
/// other character has it added to its last line. Nothing is trimmed and no
/// line is dropped, so a text without a line feed, the empty text too, is one
/// line.
pub open spec fn lines_of(text: Seq<char>) -> Seq<Seq<char>>
    decreases text.len(),
{
    if text.len() == 0 {
        seq![Seq::empty()]
    } else {
        let before = lines_of(text.drop_last());
        if text.last() == LINE_FEED {
            before.push(Seq::empty())
        } else {
            before.drop_last().push(before.last().push(text.last()))
        }
    }
}

/// The texts of `parts`, in order, with `separator` between each two
/// neighbours.
pub open spec fn joined(parts: Seq<Seq<char>>, separator: Seq<char>) -> Seq<char>
    decreases parts.len(),
{
    if parts.len() == 0 {
        Seq::empty()
    } else if parts.len() == 1 {
        parts[0]
    } else {
        joined(parts.drop_last(), separator) + separator + parts.last()
    }
}

/// Every text has at least one line.
pub proof fn lemma_lines_nonempty(text: Seq<char>)
    ensures
        lines_of(text).len() >= 1,
    decreases text.len(),
{
    if text.len() > 0 {
        lemma_lines_nonempty(text.drop_last());
    }
}

/// Texts of which the last is not empty join to a text that is not empty.
pub proof fn lemma_joined_nonempty(parts: Seq<Seq<char>>, separator: Seq<char>)
    requires
        parts.len() > 0,
        parts.last().len() > 0,
    ensures
        joined(parts, separator).len() > 0,
{
}

/// Joining the lines of a text with line feeds gives the text back.
pub proof fn lemma_lines_join_back(text: Seq<char>)
    ensures
        joined(lines_of(text), seq![LINE_FEED]) == text,
    decreases text.len(),
{
    if text.len() > 0 {
        let shorter = text.drop_last();
        let before = lines_of(shorter);
        lemma_lines_join_back(shorter);
        lemma_lines_nonempty(shorter);
        assert(text == shorter.push(text.last()));
        if text.last() == LINE_FEED {
            assert(before.push(Seq::empty()).drop_last() == before);
        } else {
            let grown = before.drop_last().push(before.last().push(text.last()));
            assert(grown.drop_last() == before.drop_last());
        }
    }
}

/// No line of a text holds a line feed.
pub proof fn lemma_lines_hold_no_line_feed(text: Seq<char>)
    ensures
        forall|i: int|
            0 <= i < lines_of(text).len() ==> !(#[trigger] lines_of(text)[i]).contains(LINE_FEED),
    decreases text.len(),
{
    if text.len() > 0 {
        lemma_lines_hold_no_line_feed(text.drop_last());
        lemma_lines_nonempty(text.drop_last());
    }
}

/// The lines of `text`, in order.
pub fn split_lines(text: &str) -> (lines: Vec<String>)
    ensures
        texts(lines@) == lines_of(text@),
{
    let mut lines: Vec<String> = Vec::new();
    let mut current = String::new();
    for c in it: text.chars()
        invariant
            it.seq() == text@,
            texts(lines@).push(current@) == lines_of(text@.take(it.index() as int)),
    {
        proof {
            let seen = text@.take(it.index() as int);
            let next = text@.take(it.index() + 1);
            assert(next.drop_last() == seen);
            assert(next.last() == c);
            assert(texts(lines@).push(current@).drop_last() == texts(lines@));
        }
        if c == LINE_FEED {
            let ghost before = texts(lines@).push(current@);
            lines.push(current);
            current = String::new();
            assert(texts(lines@) == before);
        } else {
            current.push(c);
        }
    }
    let ghost before = texts(lines@).push(current@);
    lines.push(current);
    assert(texts(lines@) == before);
    assert(text@.take(text@.len() as int) == text@);
    lines
}

} // verus!
