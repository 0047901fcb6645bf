//! The hook bridge: envelope data, hook results, the Tier 0 classifier, the
//! Variant B template and the per-hook decisions.

pub mod decisions;
pub mod input;
pub mod output;
pub mod records;
pub mod remand;
pub mod tier0;
pub mod tier3_dispatch;
pub mod variant_b;
