//! Regular expressions, through the `regex` crate.

use vstd::prelude::*;
use crate::types::opt_view;

verus! {

/// What compiling `pattern` with `regex::Regex::new` and testing `text` with
/// `Regex::is_match` gives: `None` when the pattern is refused, else whether the
/// expression matches somewhere in `text`.
pub uninterp spec fn regex_is_match(pattern: Seq<char>, text: Seq<char>) -> Option<bool>;

/// What compiling `pattern` with `regex::Regex::new` and walking `Regex::captures_iter`
/// over `text` gives: `None` when the pattern is refused, else, for each successive
/// non-overlapping match, the text of its first capture group when that group took part.
pub uninterp spec fn regex_first_groups(pattern: Seq<char>, text: Seq<char>) -> Option<Seq<Option<Seq<char>>>>;

/// Whether `c` is an ASCII letter or digit.
pub open spec fn is_ascii_alnum(c: char) -> bool {
    ('a' <= c && c <= 'z') || ('A' <= c && c <= 'Z') || ('0' <= c && c <= '9')
}

/// What the expression `^[a-zA-Z0-9][a-zA-Z0-9_-]*$` matches, as the regex crate's
/// syntax defines it: `^` and `$` anchor at the two ends of the text, each bracket is
/// the set of the characters and ranges it lists, and `*` repeats zero or more times. So
/// the text is one ASCII letter or digit followed by ASCII letters, digits, `_` and `-`.
pub open spec fn matches_name_expression(text: Seq<char>) -> bool {
    &&& text.len() > 0
    &&& is_ascii_alnum(text[0])
    &&& forall|i: int| 1 <= i < text.len() ==> is_ascii_alnum(#[trigger] text[i]) || text[i] == '_' || text[i] == '-'
}

/// Calls `regex::Regex::new` and `Regex::is_match`. The contract names the outcome
/// (`regex_is_match`); for the one expression `^[a-zA-Z0-9][a-zA-Z0-9_-]*$`, which
/// compiles, it also states what the regex crate's syntax makes of it.
#[verifier::external_body]
pub(crate) fn regex_match(pattern: &str, text: &str) -> (res: Option<bool>)
    ensures
        res == regex_is_match(pattern@, text@),
        pattern@ == "^[a-zA-Z0-9][a-zA-Z0-9_-]*$"@ ==> res == Some(matches_name_expression(text@)),
{
    match regex::Regex::new(pattern) {
        Ok(re) => Some(re.is_match(text)),
        Err(_) => None,
    }
}

/// Calls `regex::Regex::new` and `Regex::captures_iter`, keeping the first group of each
/// match. The contract only names the outcome (`regex_first_groups`).
#[verifier::external_body]
pub(crate) fn regex_first_group_captures(pattern: &str, text: &str) -> (res: Option<Vec<Option<String>>>)
    ensures
        match res {
            Some(v) => regex_first_groups(pattern@, text@) == Some(v@.map_values(|o: Option<String>| opt_view(o))),
            None => regex_first_groups(pattern@, text@) is None,
        },
{
    match regex::Regex::new(pattern) {
        Ok(re) => Some(re.captures_iter(text).map(|c| c.get(1).map(|m| m.as_str().to_string())).collect()),
        Err(_) => None,
    }
}

} // verus!
