//! JSON lists of strings, through `serde_json`.
use vstd::prelude::*;

use crate::chars::string_views;

verus! {

/// What `serde_json::from_str::<Vec<String>>` gives for a text: the list of
/// strings when the text is a JSON array of strings, `None` otherwise.
pub uninterp spec fn json_string_list(text: Seq<char>) -> Option<Seq<Seq<char>>>;

/// Decodes a JSON array of strings with `serde_json::from_str::<Vec<String>>`.
/// Claims: the result is the named decoding of the text.
#[verifier::external_body]
pub(crate) fn parse_string_list(text: &str) -> (r: Option<Vec<String>>)
    ensures
        r is None <==> json_string_list(text@) is None,
        r matches Some(v) ==> json_string_list(text@) == Some(string_views(v@)),
{
    serde_json::from_str::<Vec<String>>(text).ok()
}

/// Encodes a list of strings with `serde_json::to_string`.
/// Claims what serde_json documents for a sequence of strings: encoding
/// cannot fail (no map keys are involved), the text is a JSON array (it
/// starts with `[`), and decoding it gives the same list back.
#[verifier::external_body]
pub(crate) fn encode_string_list(list: &[String]) -> (r: Option<String>)
    ensures
        r is Some,
        r matches Some(s) ==> s@.len() > 0 && s@[0] == '[' && json_string_list(s@) == Some(
            string_views(list@),
        ),
{
    serde_json::to_string(list).ok()
}

} // verus!
