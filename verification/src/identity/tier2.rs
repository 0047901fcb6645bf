//! Tier 2: embedding similarity. A candidate lesson found by vector search
//! is merged, escalated to Tier 3, or ignored depending on its similarity
//! (the thresholds, 0.90 and 0.75, are applied where the similarity is
//! computed).

use vstd::prelude::*;

verus! {

/// What Tier 2 does with the nearest candidate.
#[derive(Debug, Clone, Copy, PartialEq, Eq, Structural)]
pub enum Tier2Decision {
    /// Similarity at least 0.90: the same lesson.
    AutoMerge,
    /// Similarity in [0.75, 0.90): ask the Tier 3 judge.
    EscalateTier3,
    /// Similarity below 0.75: a new lesson.
    NewLesson,
}

} // verus!
