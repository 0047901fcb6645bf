//! Remand orchestration scaffold, reserved until the Tier 3 assessor
//! lands: a per-(session, task) retry counter capped at three attempts
//! (the Reflexion cap).

use vstd::prelude::*;

verus! {

/// The hard limit on retries within one task.
pub const MAX_REMAND_ATTEMPTS: u32 = 3;

/// Retries spent on one (session, task), and the hash of the previous
/// response (for mode-collapse detection). Reset on a pass or a Strike.
#[derive(Debug, Clone, Copy, PartialEq, Eq, Structural)]
pub struct RemandCounter {
    pub attempts: u32,
    pub previous_response_hash: Option<u64>,
}

impl RemandCounter {
    /// A fresh counter: no attempts, no previous response.
    pub fn new() -> (c: RemandCounter)
        ensures
            c.attempts == 0,
            c.previous_response_hash is None,
    {
        RemandCounter { attempts: 0, previous_response_hash: None }
    }

    /// Whether another retry is allowed (fewer than three spent).
    pub fn budget_remaining(&self) -> (b: bool)
        ensures
            b == (self.attempts < MAX_REMAND_ATTEMPTS),
    {
        self.attempts < MAX_REMAND_ATTEMPTS
    }
}

impl Default for RemandCounter {
    fn default() -> (c: RemandCounter)
        ensures
            c.attempts == 0,
            c.previous_response_hash is None,
    {
        RemandCounter::new()
    }
}

} // verus!
