//! Trusted boundary to the `regex` crate.
//!
//! Patterns may be regular expressions and normalization rules are
//! regex substitutions; compiling and running them is the one piece of
//! work this library hands to an outside crate. Each result is a
//! function of the arguments alone, so it is given a name, and the
//! wrappers below state the calls in terms of those names.

use vstd::prelude::*;

verus! {

/// Whether `regex::Regex::new` accepts this pattern.
pub uninterp spec fn regex_ok(re: Seq<char>) -> bool;

/// What `regex::Regex::is_match` returns for this pattern and haystack.
pub uninterp spec fn regex_match_of(re: Seq<char>, text: Seq<char>) -> bool;

/// Whether `regex::bytes::Regex::new` accepts this pattern.
pub uninterp spec fn bytes_regex_ok(re: Seq<char>) -> bool;

/// What `regex::bytes::Regex::replace_all` returns for this pattern,
/// haystack and replacement.
pub uninterp spec fn bytes_replace_all_of(re: Seq<char>, hay: Seq<u8>, rep: Seq<u8>) -> Seq<u8>;

/// Relies on `regex::Regex::new`: whether a pattern compiles depends on
/// the pattern text alone.
#[verifier::external_body]
pub(crate) fn regex_is_valid(re: &str) -> (r: bool)
    ensures
        r == regex_ok(re@),
{
    regex::Regex::new(re).is_ok()
}

/// Relies on `regex::Regex::new` and `regex::Regex::is_match`: whether a
/// compiled pattern matches depends on the pattern and haystack alone.
#[verifier::external_body]
pub(crate) fn regex_matches(re: &str, text: &str) -> (r: bool)
    requires
        regex_ok(re@),
    ensures
        r == regex_match_of(re@, text@),
{
    regex::Regex::new(re).unwrap().is_match(text)
}

/// Relies on `regex::bytes::Regex::new`: whether a pattern compiles
/// depends on the pattern text alone.
#[verifier::external_body]
pub(crate) fn bytes_regex_is_valid(re: &str) -> (r: bool)
    ensures
        r == bytes_regex_ok(re@),
{
    regex::bytes::Regex::new(re).is_ok()
}

/// Relies on `regex::bytes::Regex::new` and
/// `regex::bytes::Regex::replace_all`: the substituted text depends on
/// the pattern, haystack and replacement alone.
#[verifier::external_body]
pub(crate) fn bytes_replace_all(re: &str, hay: &Vec<u8>, rep: &Vec<u8>) -> (r: Vec<u8>)
    requires
        bytes_regex_ok(re@),
    ensures
        r@ == bytes_replace_all_of(re@, hay@, rep@),
{
    regex::bytes::Regex::new(re).unwrap().replace_all(hay.as_slice(), rep.as_slice()).into_owned()
}

} // verus!
