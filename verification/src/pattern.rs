//! Regular expressions, through the `regex` crate.
//!
//! A regex is handled by its pattern text: each operation compiles the
//! pattern with `regex::Regex::new` and runs one search on the haystack.
//! What a search returns takes the whole regex semantics to state, so it is
//! named here by an uninterpreted function of the pattern and haystack.
use vstd::prelude::*;

verus! {

/// Whether `regex::Regex::new(pattern)` succeeds.
pub uninterp spec fn regex_compiles(pattern: Seq<char>) -> bool;

/// `Regex::is_match(haystack)` for the regex compiled from `pattern`.
pub uninterp spec fn regex_is_match(pattern: Seq<char>, haystack: Seq<char>) -> bool;

/// `Regex::replace_all(haystack, rep)` for the regex compiled from `pattern`
/// (with `$` in `rep` expanded as the regex crate documents).
pub uninterp spec fn regex_replace_all(
    pattern: Seq<char>,
    haystack: Seq<char>,
    rep: Seq<char>,
) -> Seq<char>;

/// The texts of the matches that `Regex::find_iter(haystack)` yields, in order.
pub uninterp spec fn regex_find_all(pattern: Seq<char>, haystack: Seq<char>) -> Seq<Seq<char>>;

/// Calls `regex::Regex::new(pattern)` and reports whether it succeeded.
/// Claims: the result is `regex_compiles(pattern)`, a fixed property of the
/// pattern text.
#[verifier::external_body]
pub(crate) fn compiles(pattern: &str) -> (r: bool)
    ensures
        r == regex_compiles(pattern@),
{
    regex::Regex::new(pattern).is_ok()
}

/// Compiles `pattern` with `regex::Regex::new` and calls `Regex::is_match`.
/// Claims: `None` exactly when the pattern does not compile; otherwise the
/// named result of `is_match` on the haystack.
#[verifier::external_body]
pub(crate) fn is_match(pattern: &str, haystack: &str) -> (r: Option<bool>)
    ensures
        r is None <==> !regex_compiles(pattern@),
        r matches Some(b) ==> b == regex_is_match(pattern@, haystack@),
{
    match regex::Regex::new(pattern) {
        Ok(re) => Some(re.is_match(haystack)),
        Err(_) => None,
    }
}

/// Compiles `pattern` with `regex::Regex::new` and calls `Regex::replace_all`.
/// Claims: `None` exactly when the pattern does not compile; otherwise the
/// named result of `replace_all`.
#[verifier::external_body]
pub(crate) fn replace_all(pattern: &str, haystack: &str, rep: &str) -> (r: Option<String>)
    ensures
        r is None <==> !regex_compiles(pattern@),
        r matches Some(s) ==> s@ == regex_replace_all(pattern@, haystack@, rep@),
{
    match regex::Regex::new(pattern) {
        Ok(re) => Some(re.replace_all(haystack, rep).into_owned()),
        Err(_) => None,
    }
}

/// Compiles `pattern` with `regex::Regex::new` and collects the texts of
/// `Regex::find_iter(haystack)`.
/// Claims: `None` exactly when the pattern does not compile; otherwise the
/// named list of matches.  The crate documents the matches as successive and
/// non-overlapping, at most one starting at each character boundary of the
/// haystack, so there are at most `haystack.len() + 1` of them.
#[verifier::external_body]
pub(crate) fn find_all(pattern: &str, haystack: &str) -> (r: Option<Vec<String>>)
    ensures
        r is None <==> !regex_compiles(pattern@),
        r matches Some(v) ==> v@.map_values(|s: String| s@) == regex_find_all(
            pattern@,
            haystack@,
        ),
        r matches Some(v) ==> v@.len() <= haystack@.len() + 1,
{
    match regex::Regex::new(pattern) {
        Ok(re) => Some(re.find_iter(haystack).map(|m| m.as_str().to_string()).collect()),
        Err(_) => None,
    }
}

} // verus!
