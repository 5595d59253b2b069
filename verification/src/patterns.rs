//! The boundary to the `regex` crate. Each pattern-based stage keeps the
//! pattern source text and calls through the small set of trusted wrappers
//! below; what a call returns is named by an uninterpreted spec function of
//! the pattern and the haystack, so contracts elsewhere stay exact.

use vstd::prelude::*;

verus! {

/// The pattern compiles as a regular expression.
pub uninterp spec fn pattern_valid(p: Seq<char>) -> bool;

/// The pieces of `text` between successive non-overlapping matches of the
/// pattern `p`.
pub uninterp spec fn re_split(p: Seq<char>, text: Seq<char>) -> Seq<Seq<char>>;

/// The pattern `p` matches somewhere in `text`.
pub uninterp spec fn re_is_match(p: Seq<char>, text: Seq<char>) -> bool;

/// The leftmost match of the pattern `p` in `text`, if any.
pub uninterp spec fn re_first_match(p: Seq<char>, text: Seq<char>) -> Option<Seq<char>>;

/// `text` with every non-overlapping match of the pattern `p` replaced by the
/// literal `sub`.
pub uninterp spec fn re_replace_all(p: Seq<char>, text: Seq<char>, sub: Seq<char>) -> Seq<char>;

/// Relies on `regex::Regex::new`: compilation succeeds exactly on patterns
/// that are valid regex syntax within the crate's default size limits, a
/// function of the pattern text alone.
#[verifier::external_body]
pub(crate) fn regex_compiles(pattern: &str) -> (r: bool)
    ensures
        r == pattern_valid(pattern@),
{
    regex::Regex::new(pattern).is_ok()
}

/// Relies on `regex::Regex::new` and `regex::Regex::split`: the parts of the
/// haystack not matched by the regex, in order, as `re_split` names them.
#[verifier::external_body]
pub(crate) fn regex_split(pattern: &str, text: &str) -> (r: Vec<String>)
    requires
        pattern_valid(pattern@),
    ensures
        r.deep_view() == re_split(pattern@, text@),
{
    let re = regex::Regex::new(pattern).unwrap();
    re.split(text).map(|s| s.to_string()).collect()
}

/// Relies on `regex::Regex::new` and `regex::Regex::is_match`: whether the
/// regex matches anywhere in the haystack, as `re_is_match` names it.
#[verifier::external_body]
pub(crate) fn regex_is_match(pattern: &str, text: &str) -> (r: bool)
    requires
        pattern_valid(pattern@),
    ensures
        r == re_is_match(pattern@, text@),
{
    let re = regex::Regex::new(pattern).unwrap();
    re.is_match(text)
}

/// Relies on `regex::Regex::new` and `regex::Regex::find`: the substring of
/// the leftmost match, if any, as `re_first_match` names it.
#[verifier::external_body]
pub(crate) fn regex_find(pattern: &str, text: &str) -> (r: Option<String>)
    requires
        pattern_valid(pattern@),
    ensures
        r.deep_view() == re_first_match(pattern@, text@),
{
    let re = regex::Regex::new(pattern).unwrap();
    re.find(text).map(|m| m.as_str().to_string())
}

/// Relies on `regex::Regex::new` and `regex::Regex::replace_all` under
/// `regex::NoExpand`: every non-overlapping match replaced by the literal
/// substitute, as `re_replace_all` names it.
#[verifier::external_body]
pub(crate) fn regex_replace_all(pattern: &str, text: &str, substitute: &str) -> (r: String)
    requires
        pattern_valid(pattern@),
    ensures
        r@ == re_replace_all(pattern@, text@, substitute@),
{
    let re = regex::Regex::new(pattern).unwrap();
    re.replace_all(text, regex::NoExpand(substitute)).into_owned()
}

} // verus!
