//! The blacklist: regular expressions whose matches are masked as `***`
//! before a text is sent to the language model.
//!
//! Patterns are kept as their text; a pattern that does not compile is
//! skipped, as `regex::Regex::new` would refuse it.
use vstd::prelude::*;

use crate::chars::{string_views, trim_seq, trim_str};
use crate::json::{encode_string_list, json_string_list, parse_string_list};
use crate::pattern::{compiles, is_match, regex_compiles, regex_is_match, regex_replace_all, replace_all};

verus! {

/// The default patterns: mobile numbers, ID-card numbers and e-mail addresses.
pub open spec fn default_blacklist() -> Seq<&'static str> {
    seq!["1[3-9]\\d{9}", "\\d{17}[\\dXx]", "[A-Za-z0-9.+-]+@[A-Za-z0-9-]+\\.[A-Za-z0-9.-]+"]
}

/// The default blacklist patterns, for display when none are configured.
pub fn default_patterns() -> (r: Vec<String>)
    ensures
        string_views(r@) == default_blacklist().map_values(|s: &'static str| s@),
{
    let mut r: Vec<String> = Vec::new();
    r.push("1[3-9]\\d{9}".to_owned());
    r.push("\\d{17}[\\dXx]".to_owned());
    r.push("[A-Za-z0-9.+-]+@[A-Za-z0-9-]+\\.[A-Za-z0-9.-]+".to_owned());
    assert(string_views(r@) =~= default_blacklist().map_values(|s: &'static str| s@));
    r
}

/// The patterns of a list that compile, in order.
pub open spec fn valid_patterns(patterns: Seq<Seq<char>>) -> Seq<Seq<char>>
    decreases patterns.len(),
{
    if patterns.len() == 0 {
        Seq::empty()
    } else if regex_compiles(patterns.last()) {
        valid_patterns(patterns.drop_last()).push(patterns.last())
    } else {
        valid_patterns(patterns.drop_last())
    }
}

/// Keeps the patterns that compile, in order; the others are skipped.
pub fn compile_patterns(patterns: &Vec<String>) -> (r: Vec<String>)
    ensures
        string_views(r@) == valid_patterns(string_views(patterns@)),
{
    let ghost pv = string_views(patterns@);
    let mut out: Vec<String> = Vec::new();
    let mut i: usize = 0;
    while i < patterns.len()
        invariant
            i <= patterns.len(),
            pv == string_views(patterns@),
            string_views(out@) == valid_patterns(pv.take(i as int)),
        decreases patterns.len() - i,
    {
        assert(pv.take(i + 1).drop_last() =~= pv.take(i as int));
        assert(pv[i as int] == patterns@[i as int]@);
        if compiles(patterns[i].as_str()) {
            let ghost before = string_views(out@);
            out.push(patterns[i].clone());
            assert(string_views(out@) =~= before.push(pv[i as int]));
        }
        i = i + 1;
    }
    assert(pv.take(patterns.len() as int) =~= pv);
    out
}

/// Some compiling pattern matches the text.
pub open spec fn blacklisted(text: Seq<char>, patterns: Seq<Seq<char>>) -> bool {
    exists|i: int|
        0 <= i < patterns.len() && regex_compiles(#[trigger] patterns[i]) && regex_is_match(
            patterns[i],
            text,
        )
}

/// Whether the text matches one of the patterns.
pub fn is_blacklisted(text: &str, patterns: &Vec<String>) -> (r: bool)
    ensures
        r == blacklisted(text@, string_views(patterns@)),
{
    let ghost pv = string_views(patterns@);
    let mut i: usize = 0;
    while i < patterns.len()
        invariant
            i <= patterns.len(),
            pv == string_views(patterns@),
            forall|k: int|
                0 <= k < i ==> !(regex_compiles(#[trigger] pv[k]) && regex_is_match(pv[k], text@)),
        decreases patterns.len() - i,
    {
        assert(pv[i as int] == patterns@[i as int]@);
        if let Some(true) = is_match(patterns[i].as_str(), text) {
            return true;
        }
        i = i + 1;
    }
    false
}

/// The text after masking with the first `k` patterns, in order.
pub open spec fn masked_prefix(text: Seq<char>, patterns: Seq<Seq<char>>, k: int) -> Seq<char>
    decreases k,
{
    if k <= 0 || k > patterns.len() {
        text
    } else {
        let prev = masked_prefix(text, patterns, k - 1);
        if regex_compiles(patterns[k - 1]) {
            regex_replace_all(patterns[k - 1], prev, "***"@)
        } else {
            prev
        }
    }
}

/// The text with every match of every pattern replaced by `***`, pattern by pattern.
pub open spec fn masked(text: Seq<char>, patterns: Seq<Seq<char>>) -> Seq<char> {
    masked_prefix(text, patterns, patterns.len() as int)
}

/// Masks the matches of the patterns as `***`, one pattern after another.
pub fn apply_blacklist(text: &str, patterns: &Vec<String>) -> (r: String)
    ensures
        r@ == masked(text@, string_views(patterns@)),
{
    let ghost pv = string_views(patterns@);
    let mut result = text.to_owned();
    let mut i: usize = 0;
    while i < patterns.len()
        invariant
            i <= patterns.len(),
            pv == string_views(patterns@),
            result@ == masked_prefix(text@, pv, i as int),
        decreases patterns.len() - i,
    {
        assert(pv[i as int] == patterns@[i as int]@);
        if let Some(s) = replace_all(patterns[i].as_str(), result.as_str(), "***") {
            result = s;
        }
        i = i + 1;
    }
    result
}

/// The blacklist stored in the settings: empty for a blank text or a text
/// that is not a JSON array of strings.
pub open spec fn blacklist_of_json(json: Seq<char>) -> Seq<Seq<char>> {
    if trim_seq(json).len() == 0 {
        Seq::empty()
    } else {
        match json_string_list(json) {
            Some(list) => list,
            None => Seq::empty(),
        }
    }
}

/// Reads the blacklist from its JSON form in the settings.
pub fn parse_blacklist_json(json: &str) -> (r: Vec<String>)
    ensures
        string_views(r@) == blacklist_of_json(json@),
{
    let t = trim_str(json);
    if t.as_str().is_empty() {
        let r: Vec<String> = Vec::new();
        assert(string_views(r@) =~= Seq::<Seq<char>>::empty());
        return r;
    }
    match parse_string_list(json) {
        Some(list) => list,
        None => {
            let r: Vec<String> = Vec::new();
            assert(string_views(r@) =~= Seq::<Seq<char>>::empty());
            r
        },
    }
}

/// Writes the blacklist in its JSON form (`[]` should encoding ever fail).
pub fn serialize_blacklist(patterns: &Vec<String>) -> (r: String)
    ensures
        json_string_list(r@) == Some(string_views(patterns@)),
        r@.len() > 0 && r@[0] == '[',
{
    match encode_string_list(patterns.as_slice()) {
        Some(s) => s,
        None => "[]".to_owned(),
    }
}

/// Writing a blacklist and reading it back gives the same patterns.
pub proof fn lemma_blacklist_roundtrip(patterns: Seq<Seq<char>>, json: Seq<char>)
    requires
        json_string_list(json) == Some(patterns),
        json.len() > 0 && json[0] == '[',
    ensures
        blacklist_of_json(json) == patterns,
{
    crate::chars::lemma_trim_start_shape(json);
    assert(!crate::chars::is_white_space('['));
    assert(trim_seq(json).len() > 0) by {
        crate::chars::lemma_trim_nonblank(json, 0);
    }
}

/// The blacklist shown in the settings: the stored one, or the defaults
/// when none is stored.
pub fn blacklist_for_display(stored: Option<String>) -> (r: Vec<String>)
    ensures
        stored matches Some(j) ==> string_views(r@) == blacklist_of_json(j@),
        stored is None ==> string_views(r@) == default_blacklist().map_values(|s: &'static str| s@),
{
    match stored {
        Some(j) => parse_blacklist_json(j.as_str()),
        None => default_patterns(),
    }
}

} // verus!
