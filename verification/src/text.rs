//! Text as sequences of characters: what replacing and line splitting mean,
//! and the standard library's string operations that the renderer calls.

use vstd::prelude::*;

verus! {

/// The text of each string of a sequence.
pub open spec fn texts(strings: Seq<String>) -> Seq<Seq<char>> {
    Seq::new(strings.len(), |i: int| strings[i]@)
}

/// `text` with every occurrence of the non-empty `from` replaced by `to`,
/// occurrences being found from left to right and never overlapping.
pub open spec fn replace_all(text: Seq<char>, from: Seq<char>, to: Seq<char>) -> Seq<char>
    decreases text.len(),
{
    if from.len() == 0 || text.len() < from.len() {
        text
    } else if text.subrange(0, from.len() as int) == from {
        to + replace_all(text.skip(from.len() as int), from, to)
    } else {
        seq![text[0]] + replace_all(text.skip(1), from, to)
    }
}

/// `token` stands in `text` at position `at`.
pub open spec fn occurs_at(text: Seq<char>, token: Seq<char>, at: int) -> bool {
    0 <= at && at + token.len() <= text.len() && text.subrange(at, at + token.len()) == token
}

/// `token` stands somewhere in `text`.
pub open spec fn occurs(text: Seq<char>, token: Seq<char>) -> bool {
    exists|at: int| occurs_at(text, token, at)
}

/// The position of the first line feed of `text`, or its length if it has none.
pub open spec fn line_end(text: Seq<char>) -> int
    decreases text.len(),
{
    if text.len() == 0 || text[0] == '\n' {
        0
    } else {
        1 + line_end(text.skip(1))
    }
}

/// `line` without one carriage return at its end, if it has one.
pub open spec fn without_cr(line: Seq<char>) -> Seq<char> {
    if line.len() > 0 && line.last() == '\r' {
        line.drop_last()
    } else {
        line
    }
}

/// The lines of `text`. A line ends at a line feed, or at a carriage return
/// directly followed by one, and holds neither. What follows the last line
/// feed is a line only if it is not empty, and keeps a carriage return at its
/// end.
pub open spec fn split_lines(text: Seq<char>) -> Seq<Seq<char>>
    decreases text.len(),
{
    let end = line_end(text);
    if text.len() == 0 {
        Seq::empty()
    } else if 0 <= end < text.len() {
        seq![without_cr(text.take(end))] + split_lines(text.skip(end + 1))
    } else {
        seq![text]
    }
}

/// `str::replace` with a string as the pattern. Trusted: the result is `text`
/// with each occurrence of `from`, found from left to right without overlap,
/// replaced by `to`. An empty `from` is left out, since the standard library
/// then inserts `to` between all characters.
#[verifier::external_body]
pub(crate) fn replace(text: &str, from: &str, to: &str) -> (out: String)
    requires
        from@.len() > 0,
    ensures
        out@ == replace_all(text@, from@, to@),
{
    text.replace(from, to)
}

/// `str::lines`, collected. Trusted: the result holds the lines of `text` in
/// order, as the standard library documents them: split at `\n` or `\r\n`,
/// without the line ending, and with no empty line after a final line ending.
#[verifier::external_body]
pub(crate) fn lines(text: &str) -> (out: Vec<String>)
    ensures
        texts(out@) == split_lines(text@),
{
    text.lines().map(String::from).collect()
}

} // verus!
