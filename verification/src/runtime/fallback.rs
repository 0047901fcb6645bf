//! Quota exhaustion: recognising it in the agent CLI's stderr, and what to do
//! about it under each policy.

use std::time::Duration;

use vstd::prelude::*;

use crate::text::{has_substring, lowercase, str_contains, to_lowercase};

verus! {

/// The stderr text, lowercased, mentions a rate limit, an exceeded quota or
/// an upgrade prompt.
pub open spec fn quota_exhausted(stderr: Seq<char>) -> bool {
    let lc = lowercase(stderr);
    has_substring(lc, "rate limit"@) || has_substring(lc, "quota exceeded"@) || has_substring(
        lc,
        "upgrade to continue"@,
    )
}

/// Whether stderr shows that the quota ran out (case-insensitive).
pub fn detect_quota_exhausted(stderr: &str) -> (b: bool)
    ensures
        b == quota_exhausted(stderr@),
        b <==> (has_substring(lowercase(stderr@), "rate limit"@) || has_substring(
            lowercase(stderr@),
            "quota exceeded"@,
        ) || has_substring(lowercase(stderr@), "upgrade to continue"@)),
{
    let lc = to_lowercase(stderr);
    str_contains(lc.as_str(), "rate limit") || str_contains(lc.as_str(), "quota exceeded")
        || str_contains(lc.as_str(), "upgrade to continue")
}

/// Quota detection ignores letter case: stderr texts with the same
/// lowercase form get the same answer, and any text whose lowercase form
/// mentions "rate limit" is a quota exhaustion.
pub proof fn lemma_quota_case_insensitive(s1: Seq<char>, s2: Seq<char>)
    requires
        lowercase(s1) == lowercase(s2),
    ensures
        quota_exhausted(s1) == quota_exhausted(s2),
        has_substring(lowercase(s1), "rate limit"@) ==> quota_exhausted(s1),
{
}

/// What to do when the quota runs out.
#[derive(Debug, Clone, Copy, PartialEq, Eq, Structural)]
pub enum QuotaPolicy {
    Wait,
    UseExtraUsage,
    Abort,
}

impl Default for QuotaPolicy {
    /// Abort is the default.
    fn default() -> (p: QuotaPolicy)
        ensures
            p == QuotaPolicy::Abort,
    {
        QuotaPolicy::Abort
    }
}

/// The action taken on quota exhaustion.
#[derive(Debug, Clone)]
pub enum QuotaAction {
    Wait { retry_after: Option<Duration> },
    EnableExtraUsage,
    Abort,
}

/// The action a policy prescribes: waiting (with no retry time known),
/// switching to extra usage, or aborting.
pub fn action_for(policy: QuotaPolicy) -> (a: QuotaAction)
    ensures
        match policy {
            QuotaPolicy::Wait => a matches QuotaAction::Wait { retry_after: None },
            QuotaPolicy::UseExtraUsage => a is EnableExtraUsage,
            QuotaPolicy::Abort => a is Abort,
        },
{
    match policy {
        QuotaPolicy::Wait => QuotaAction::Wait { retry_after: None },
        QuotaPolicy::UseExtraUsage => QuotaAction::EnableExtraUsage,
        QuotaPolicy::Abort => QuotaAction::Abort,
    }
}

} // verus!
