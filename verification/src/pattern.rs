//! Regular-expression matching and replacement, delegated to the `regex`
//! crate. Patterns are given as text; each call compiles its pattern.

use vstd::prelude::*;

verus! {

/// Whether `regex::Regex::new` accepts this pattern.
pub uninterp spec fn regex_valid(pattern: Seq<char>) -> bool;

/// What `regex::Regex::is_match` returns for this pattern and haystack.
pub uninterp spec fn regex_matches(pattern: Seq<char>, haystack: Seq<char>) -> bool;

/// What `regex::Regex::replace_all` returns (every non-overlapping,
/// leftmost-first match replaced by the expanded replacement).
pub uninterp spec fn regex_replaced(pattern: Seq<char>, haystack: Seq<char>, replacement: Seq<char>) -> Seq<char>;

/// `regex::Regex::new(pattern).is_ok()`: whether the pattern compiles. The
/// contract only names the answer.
#[verifier::external_body]
pub(crate) fn regex_compiles(pattern: &str) -> (ok: bool)
    ensures
        ok == regex_valid(pattern@),
{
    regex::Regex::new(pattern).is_ok()
}

/// `regex::Regex::is_match` on a freshly compiled pattern. The answer is
/// named, not described.
#[verifier::external_body]
pub(crate) fn regex_is_match(pattern: &str, haystack: &str) -> (b: bool)
    requires
        regex_valid(pattern@),
    ensures
        b == regex_matches(pattern@, haystack@),
{
    regex::Regex::new(pattern).expect("pattern compiles").is_match(haystack)
}

/// `regex::Regex::replace_all` on a freshly compiled pattern. The result is
/// named; the crate documents one fact about it, stated here: with no match
/// the haystack comes back unchanged.
#[verifier::external_body]
pub(crate) fn regex_replace_all(pattern: &str, haystack: &str, replacement: &str) -> (r: String)
    requires
        regex_valid(pattern@),
    ensures
        r@ == regex_replaced(pattern@, haystack@, replacement@),
        !regex_matches(pattern@, haystack@) ==> r@ == haystack@,
{
    regex::Regex::new(pattern).expect("pattern compiles").replace_all(haystack, replacement).into_owned()
}

} // verus!
