//! Verified core of the stare-decisis hook layer: envelope helpers, the
//! Tier 0 failure classifier, lesson identity (normalisation, hashing,
//! lapse scoring), plan validation and reporting for the orchestrator,
//! and agent CLI runtime helpers.

pub mod bounded;
pub mod calendar;
pub mod common;
pub mod hooks;
pub mod identity;
pub mod json;
pub mod numeric;
pub mod orchestrator;
pub mod pattern;
pub mod runtime;
pub mod text;
