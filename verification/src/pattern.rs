//! Placeholder tokens, and the regular-expression search that finds them.

use vstd::prelude::*;
use crate::text::{occurs, texts};

verus! {

/// The regular expression of a placeholder: an opening brace, one or more
/// ASCII letters, a closing brace.
pub const PLACEHOLDER_PATTERN: &'static str = "[{][a-zA-Z]+[}]";

/// An ASCII letter, upper or lower case.
pub open spec fn is_letter(c: char) -> bool {
    ('a' <= c && c <= 'z') || ('A' <= c && c <= 'Z')
}

/// `token` begins with an opening brace and ends with a closing one, which are
/// two distinct characters of it.
pub open spec fn is_wrapped(token: Seq<char>) -> bool {
    token.len() >= 2 && token[0] == '{' && token[token.len() - 1] == '}'
}

/// `token` is a placeholder: `{`, one or more ASCII letters, `}`.
pub open spec fn is_placeholder(token: Seq<char>) -> bool {
    &&& token.len() >= 3
    &&& is_wrapped(token)
    &&& forall|i: int| 0 < i < token.len() - 1 ==> is_letter(#[trigger] token[i])
}

/// `token` without its first and its last character.
pub open spec fn strip_braces(token: Seq<char>) -> Seq<char> {
    token.subrange(1, token.len() - 1)
}

/// The texts of the successive non-overlapping matches of the regular
/// expression `pattern` in `text`, from left to right; `None` where `pattern`
/// is not a regular expression that the engine accepts.
pub uninterp spec fn regex_matches(pattern: Seq<char>, text: Seq<char>) -> Option<Seq<Seq<char>>>;

/// The placeholder tokens of `line`, in the order in which they are found.
pub open spec fn placeholders(line: Seq<char>) -> Seq<Seq<char>> {
    match regex_matches(PLACEHOLDER_PATTERN@, line) {
        Some(found) => found,
        None => Seq::empty(),
    }
}

/// Every placeholder token of `line` is a placeholder and stands in `line`.
pub open spec fn placeholders_fit(line: Seq<char>) -> bool {
    forall|i: int|
        0 <= i < placeholders(line).len() ==> is_placeholder(#[trigger] placeholders(line)[i]) && occurs(
            line,
            placeholders(line)[i],
        )
}

/// `regex::Regex::new` and `Regex::find_iter`, each match taken as its text.
/// Trusted: the result is the named list of matches, and `None` exactly where
/// the pattern does not compile; each match stands in `text`. Of the
/// placeholder pattern it is trusted that it compiles and that each match has
/// the pattern's form.
#[verifier::external_body]
pub(crate) fn find_matches(pattern: &str, text: &str) -> (found: Option<Vec<String>>)
    ensures
        match found {
            Some(list) => regex_matches(pattern@, text@) == Some(texts(list@)),
            None => regex_matches(pattern@, text@).is_none(),
        },
        found matches Some(list) ==> forall|i: int| 0 <= i < list.len() ==> occurs(text@, #[trigger] list[i]@),
        pattern@ == PLACEHOLDER_PATTERN@ ==> found.is_some() && forall|i: int|
            0 <= i < found.unwrap().len() ==> is_placeholder(#[trigger] found.unwrap()[i]@),
{
    match regex::Regex::new(pattern) {
        Ok(re) => Some(re.find_iter(text).map(|m| String::from(m.as_str())).collect()),
        Err(_) => None,
    }
}

} // verus!
