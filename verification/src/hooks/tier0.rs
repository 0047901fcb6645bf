//! Tier 0: a deterministic failure classifier. A small set of pattern and
//! substring rules resolves common failures without an LLM; anything else
//! falls through to Tier 1.
//!
//! Coverage: transient network trouble (timeouts, resets, DNS), rate
//! limits (the status code 429, as in "HTTP 429", or the phrase), and
//! missing files.

use vstd::prelude::*;

use crate::common::{Category, Level};
use crate::pattern::{regex_compiles, regex_is_match, regex_matches, regex_valid};
use crate::text::{chars_of, has_substring, lowercase, str_contains, to_lowercase};

verus! {

/// Timeouts, connection resets/refusals and name-resolution failures.
pub const TIMEOUT_PATTERN: &'static str = r"(?i)(?:timeout|timed out|connection reset|connection refused|network unreachable|temporary failure in name resolution|dns resolution failed)";

/// Missing files, in shell, errno and Python phrasing.
pub const FILE_NOT_FOUND_PATTERN: &'static str = r"(?i)(?:no such file or directory|enoent|filenotfounderror|file not found)";

/// A Tier 0 verdict on a failure.
#[derive(Debug, Clone, PartialEq, Eq)]
pub struct DeterministicClassification {
    pub level: Level,
    pub category: Category,
    /// Machine-readable label; caselog.jsonl's `rationale` field.
    pub rationale: &'static str,
}

/// Both Tier 0 patterns compile.
pub open spec fn tier0_patterns_valid() -> bool {
    regex_valid(TIMEOUT_PATTERN@) && regex_valid(FILE_NOT_FOUND_PATTERN@)
}

/// A classification with these fields.
pub open spec fn classification(
    level: Level,
    category: Category,
    rationale: Seq<char>,
    c: DeterministicClassification,
) -> bool {
    c.level == level && c.category == category && c.rationale@ == rationale
}

/// A character that can be part of a word: an ASCII letter or digit, or `_`.
pub open spec fn word_char(c: char) -> bool {
    ('0' <= c && c <= '9') || ('a' <= c && c <= 'z') || ('A' <= c && c <= 'Z') || c == '_'
}

/// `429` stands at position `i` of `s` as a word of its own: no word
/// character right before it or right after it.
pub open spec fn status_429_at(s: Seq<char>, i: int) -> bool {
    &&& 0 <= i
    &&& i + 3 <= s.len()
    &&& s[i] == '4' && s[i + 1] == '2' && s[i + 2] == '9'
    &&& (i == 0 || !word_char(s[i - 1]))
    &&& (i + 3 == s.len() || !word_char(s[i + 3]))
}

/// `s` carries the status code 429 (as in "HTTP 429"), not merely the
/// digits inside a longer number or word.
pub open spec fn has_status_429(s: Seq<char>) -> bool {
    exists|i: int| status_429_at(s, i)
}

/// Whether `c` is a word character.
fn is_word_char(c: char) -> (b: bool)
    ensures
        b == word_char(c),
{
    ('0' <= c && c <= '9') || ('a' <= c && c <= 'z') || ('A' <= c && c <= 'Z') || c == '_'
}

/// Whether `error` carries the status code 429 as a word of its own.
pub fn mentions_status_429(error: &str) -> (b: bool)
    ensures
        b == has_status_429(error@),
{
    let v = chars_of(error);
    let n = v.len();
    if n < 3 {
        assert forall|i: int| !status_429_at(error@, i) by {}
        return false;
    }
    let mut i: usize = 0;
    while i <= n - 3
        invariant
            n == v@.len(),
            v@ == error@,
            3 <= n,
            i <= n - 2,
            forall|k: int| 0 <= k < i ==> !status_429_at(error@, k),
        decreases n - i,
    {
        if v[i] == '4' && v[i + 1] == '2' && v[i + 2] == '9' && (i == 0 || !is_word_char(v[i - 1]))
            && (i + 3 == n || !is_word_char(v[i + 3])) {
            assert(status_429_at(error@, i as int));
            return true;
        }
        i += 1;
    }
    assert forall|k: int| !status_429_at(error@, k) by {}
    false
}

/// The Tier 0 rules, first match wins: network trouble, then the status
/// code 429, then a rate-limit phrase (any case), then a missing file.
pub open spec fn tier0_result(error: Seq<char>, r: Option<DeterministicClassification>) -> bool {
    if regex_matches(TIMEOUT_PATTERN@, error) {
        r matches Some(c) && classification(Level::Low, Category::Process, "transient_network"@, c)
    } else if has_status_429(error) || has_substring(lowercase(error), "rate limit"@)
        || has_substring(lowercase(error), "ratelimit"@) {
        r matches Some(c) && classification(Level::Low, Category::Process, "rate_limit"@, c)
    } else if regex_matches(FILE_NOT_FOUND_PATTERN@, error) {
        r matches Some(c) && classification(
            Level::Medium,
            Category::Correctness,
            "file_not_found"@,
            c,
        )
    } else {
        r is None
    }
}

/// Classifies `error` against the Tier 0 rules; `None` sends the failure
/// on to Tier 1.
pub fn classify(error: &str) -> (r: Option<DeterministicClassification>)
    requires
        tier0_patterns_valid(),
    ensures
        tier0_result(error@, r),
        !regex_matches(TIMEOUT_PATTERN@, error@) && (has_substring(lowercase(error@), "rate limit"@)
            || has_substring(lowercase(error@), "ratelimit"@)) ==> (r matches Some(c) && c.level
            == Level::Low && c.category == Category::Process && c.rationale@ == "rate_limit"@),
{
    if regex_is_match(TIMEOUT_PATTERN, error) {
        return Some(
            DeterministicClassification {
                level: Level::Low,
                category: Category::Process,
                rationale: "transient_network",
            },
        );
    }
    if mentions_status_429(error) {
        return Some(
            DeterministicClassification {
                level: Level::Low,
                category: Category::Process,
                rationale: "rate_limit",
            },
        );
    }
    let lower = to_lowercase(error);
    if str_contains(lower.as_str(), "rate limit") || str_contains(lower.as_str(), "ratelimit") {
        return Some(
            DeterministicClassification {
                level: Level::Low,
                category: Category::Process,
                rationale: "rate_limit",
            },
        );
    }
    if regex_is_match(FILE_NOT_FOUND_PATTERN, error) {
        return Some(
            DeterministicClassification {
                level: Level::Medium,
                category: Category::Correctness,
                rationale: "file_not_found",
            },
        );
    }
    None
}

/// A rate-limit phrase is recognised in any letter case: when no network
/// trouble is reported and the error, lowercased, says "rate limit" or
/// "ratelimit", Tier 0 files it as a rate limit (low, process).
pub proof fn lemma_rate_limit_phrase_any_case(error: Seq<char>, r: Option<DeterministicClassification>)
    requires
        tier0_result(error, r),
        !regex_matches(TIMEOUT_PATTERN@, error),
        has_substring(lowercase(error), "rate limit"@) || has_substring(lowercase(error), "ratelimit"@),
    ensures
        r matches Some(c) && c.level == Level::Low && c.category == Category::Process
            && c.rationale@ == "rate_limit"@,
{
}

/// Changing the case of letters changes nothing Tier 0 decides: two errors
/// with the same lowercase text, on which the (case-insensitive) patterns
/// and the 429 status agree, are classified alike.
pub proof fn lemma_tier0_case_insensitive(
    e1: Seq<char>,
    e2: Seq<char>,
    r1: Option<DeterministicClassification>,
    r2: Option<DeterministicClassification>,
)
    requires
        tier0_result(e1, r1),
        tier0_result(e2, r2),
        lowercase(e1) == lowercase(e2),
        regex_matches(TIMEOUT_PATTERN@, e1) == regex_matches(TIMEOUT_PATTERN@, e2),
        regex_matches(FILE_NOT_FOUND_PATTERN@, e1) == regex_matches(FILE_NOT_FOUND_PATTERN@, e2),
        has_status_429(e1) == has_status_429(e2),
    ensures
        (r1 is None && r2 is None) || (r1 matches Some(c1) && r2 matches Some(c2) && c1.level
            == c2.level && c1.category == c2.category && c1.rationale@ == c2.rationale@),
{
}

/// Why a Tier 0 classification could not be made.
#[derive(Debug, Clone, Copy, PartialEq, Eq)]
pub enum Tier0Error {
    /// One of the rule patterns does not compile.
    PatternRejected,
}

/// `classify`, after checking that the rule patterns compile.
pub fn classify_checked(error: &str) -> (r: Result<Option<DeterministicClassification>, Tier0Error>)
    ensures
        r is Ok <==> tier0_patterns_valid(),
        r matches Ok(c) ==> tier0_result(error@, c),
{
    if regex_compiles(TIMEOUT_PATTERN) && regex_compiles(FILE_NOT_FOUND_PATTERN) {
        Ok(classify(error))
    } else {
        Err(Tier0Error::PatternRejected)
    }
}

} // verus!
