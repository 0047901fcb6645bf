//! Tier 3: the LLM judge, disabled until Milestone A. While disabled it
//! never confirms a match; the enabled path is not built yet.

use vstd::prelude::*;

verus! {

/// Why the judge gave no answer.
#[derive(Debug, Clone, Copy, PartialEq, Eq, Structural)]
pub enum Tier3Error {
    /// Tier 3 is switched on but its dispatch path is not built yet.
    DispatchNotImplemented,
}

impl Tier3Error {
    /// The error message.
    pub fn to_string(&self) -> (s: String)
        ensures
            s@ == "tier3 Milestone A dispatch path not yet implemented"@,
    {
        "tier3 Milestone A dispatch path not yet implemented".to_owned()
    }
}

/// Whether two failure texts are the same lesson, by the Tier 3 judge.
/// `enabled` is whether Tier 3 is switched on (`MYTH_TIER3_ENABLED`). While
/// disabled the answer is always "no".
pub fn judge(enabled: bool, candidate_a: &str, candidate_b: &str) -> (r: Result<bool, Tier3Error>)
    ensures
        !enabled ==> r == Ok::<bool, Tier3Error>(false),
        enabled ==> r == Err::<bool, Tier3Error>(Tier3Error::DispatchNotImplemented),
{
    if !enabled {
        return Ok(false);
    }
    Err(Tier3Error::DispatchNotImplemented)
}

} // verus!
