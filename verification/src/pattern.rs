//! Regular expressions, as the `regex` crate understands them.

use vstd::prelude::*;

verus! {

/// Whether `pattern` is a regular expression that `regex::Regex::new` compiles.
pub uninterp spec fn pattern_compiles(pattern: Seq<char>) -> bool;

/// Whether the regular expression `pattern` matches somewhere in `text`: a
/// search, which is anchored only where the expression anchors itself.
pub uninterp spec fn pattern_found(pattern: Seq<char>, text: Seq<char>) -> bool;

/// What searching `text` for `pattern` gives: nothing where the pattern does
/// not compile, else whether a match was found.
pub open spec fn search_result(pattern: Seq<char>, text: Seq<char>) -> Option<bool> {
    if pattern_compiles(pattern) {
        Some(pattern_found(pattern, text))
    } else {
        None
    }
}

/// Compiles `pattern` with `regex::Regex::new` and, where that succeeds, asks
/// `regex::Regex::is_match` whether the expression matches anywhere in `text`.
/// Both depend on their arguments alone; the contract only gives their
/// results the names above.
#[verifier::external_body]
pub(crate) fn regex_search(pattern: &str, text: &str) -> (found: Option<bool>)
    ensures
        found == (if pattern_compiles(pattern@) {
            Some(pattern_found(pattern@, text@))
        } else {
            None
        }),
{
    match regex::Regex::new(pattern) {
        Ok(compiled) => Some(compiled.is_match(text)),
        Err(_) => None,
    }
}

/// Whether `pattern` is a regular expression that can be used in a rule.
pub fn is_valid_pattern(pattern: &str) -> (ok: bool)
    ensures
        ok == pattern_compiles(pattern@),
{
    regex_search(pattern, "").is_some()
}

/// Whether `text` matches `pattern`, given what the search for it returned.
/// A pattern that does not compile matches nothing.
pub fn matched(found: Option<bool>) -> (ok: bool)
    ensures
        ok == (found == Some(true)),
{
    match found {
        Some(hit) => hit,
        None => false,
    }
}

/// Searches `text` for the regular expression `pattern`.
pub fn matches_pattern(pattern: &str, text: &str) -> (ok: bool)
    ensures
        ok == (search_result(pattern@, text@) == Some(true)),
{
    matched(regex_search(pattern, text))
}

} // verus!
