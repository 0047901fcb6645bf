//! Lesson identity: Tier 1 normalisation and hashing, Tier 2/3 decisions,
//! lapse scoring and the vector-store bookkeeping.

pub mod lapse;
pub mod normalize;
pub mod rows;
pub mod store;
pub mod tier1;
pub mod tier2;
pub mod tier3;
