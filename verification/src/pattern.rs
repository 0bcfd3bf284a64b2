//! Regular expressions over URLs, through the `regex` crate.
use regex::Regex;
use vstd::prelude::*;

verus! {

/// `pattern` is a regular expression that `regex::Regex::new` accepts.
pub uninterp spec fn regex_compiles(pattern: Seq<char>) -> bool;

/// The regular expression `pattern` matches somewhere in `text`.
pub uninterp spec fn regex_finds(pattern: Seq<char>, text: Seq<char>) -> bool;

/// Calls `regex::Regex::new` on `pattern` and reports whether it succeeded.
/// The contract claims only that the answer is a function of the pattern.
#[verifier::external_body]
pub(crate) fn pattern_compiles(pattern: &str) -> (ok: bool)
    ensures
        ok == regex_compiles(pattern@),
{
    Regex::new(pattern).is_ok()
}

/// Compiles `pattern` with `regex::Regex::new` and calls `Regex::is_match` on
/// `text`. The contract claims that the answer is a function of the pattern
/// and the text; what the regex language means is left unsaid.
#[verifier::external_body]
pub(crate) fn pattern_finds(pattern: &str, text: &str) -> (m: bool)
    requires
        regex_compiles(pattern@),
    ensures
        m == regex_finds(pattern@, text@),
{
    match Regex::new(pattern) {
        Ok(re) => re.is_match(text),
        Err(_) => false,
    }
}

} // verus!
