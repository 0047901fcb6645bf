//! Aggressive text normalisation: timestamps, UUIDs, paths, hex blobs and
//! long numbers are replaced by placeholders, then the text is lowercased
//! and its white space collapsed, so that failure messages differing only in
//! "when" or "which file" share one normal form.

use vstd::prelude::*;

use crate::pattern::{regex_compiles, regex_replace_all, regex_replaced, regex_valid};
use crate::text::{collapse_whitespace, collapse_ws, lemma_collapse_single_spaced, lowercase, single_spaced, to_lowercase};

verus! {

/// ISO 8601-like timestamps such as `2026-04-19T14:23:45.123Z`.
pub const TIMESTAMP_PATTERN: &'static str = r"\d{4}-\d{2}-\d{2}[T ]\d{2}:\d{2}:\d{2}(?:\.\d+)?(?:Z|[+\-]\d{2}:?\d{2})?";

/// Hyphenated UUIDs.
pub const UUID_PATTERN: &'static str = r"[0-9a-fA-F]{8}-[0-9a-fA-F]{4}-[0-9a-fA-F]{4}-[0-9a-fA-F]{4}-[0-9a-fA-F]{12}";

/// Absolute POSIX paths.
pub const PATH_PATTERN: &'static str = r"(?:/[A-Za-z0-9._\-]+)+";

/// Hex blobs of six or more digits.
pub const HEX_PATTERN: &'static str = r"\b[0-9a-fA-F]{6,}\b";

/// Numbers of three or more digits.
pub const NUM_PATTERN: &'static str = r"\b\d{3,}\b";

/// All five placeholder patterns compile.
pub open spec fn normalization_patterns_valid() -> bool {
    &&& regex_valid(TIMESTAMP_PATTERN@)
    &&& regex_valid(UUID_PATTERN@)
    &&& regex_valid(PATH_PATTERN@)
    &&& regex_valid(HEX_PATTERN@)
    &&& regex_valid(NUM_PATTERN@)
}

/// The text after the five placeholder replacements, in order: timestamps,
/// UUIDs, paths, hex blobs, numbers.
pub open spec fn with_placeholders(text: Seq<char>) -> Seq<char> {
    let s1 = regex_replaced(TIMESTAMP_PATTERN@, text, "<TS>"@);
    let s2 = regex_replaced(UUID_PATTERN@, s1, "<UUID>"@);
    let s3 = regex_replaced(PATH_PATTERN@, s2, "<PATH>"@);
    let s4 = regex_replaced(HEX_PATTERN@, s3, "<HEX>"@);
    regex_replaced(NUM_PATTERN@, s4, "<NUM>"@)
}

/// The normal form: placeholders, then lowercase, then collapsed white space.
pub open spec fn normalized(text: Seq<char>) -> Seq<char> {
    collapse_ws(lowercase(with_placeholders(text)))
}

/// Normalises `text` (see the module comment). Deterministic: the result
/// depends on the text alone.
pub fn normalize_aggressive(text: &str) -> (r: String)
    requires
        normalization_patterns_valid(),
    ensures
        r@ == normalized(text@),
        single_spaced(r@),
{
    let s = regex_replace_all(TIMESTAMP_PATTERN, text, "<TS>");
    let s = regex_replace_all(UUID_PATTERN, s.as_str(), "<UUID>");
    let s = regex_replace_all(PATH_PATTERN, s.as_str(), "<PATH>");
    let s = regex_replace_all(HEX_PATTERN, s.as_str(), "<HEX>");
    let s = regex_replace_all(NUM_PATTERN, s.as_str(), "<NUM>");
    let lowered = to_lowercase(s.as_str());
    let r = collapse_whitespace(lowered.as_str());
    proof {
        lemma_collapse_single_spaced(lowercase(with_placeholders(text@)));
    }
    r
}

/// Whether every normalisation pattern compiles.
pub fn normalization_patterns_compile() -> (ok: bool)
    ensures
        ok == normalization_patterns_valid(),
{
    regex_compiles(TIMESTAMP_PATTERN) && regex_compiles(UUID_PATTERN) && regex_compiles(
        PATH_PATTERN,
    ) && regex_compiles(HEX_PATTERN) && regex_compiles(NUM_PATTERN)
}

/// `normalize_aggressive`, or `None` when a pattern fails to compile.
pub fn try_normalize_aggressive(text: &str) -> (r: Option<String>)
    ensures
        r is Some <==> normalization_patterns_valid(),
        r matches Some(s) ==> s@ == normalized(text@),
{
    if normalization_patterns_compile() {
        Some(normalize_aggressive(text))
    } else {
        None
    }
}

} // verus!
