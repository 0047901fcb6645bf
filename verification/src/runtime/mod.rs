//! Agent CLI subprocess support: version checks, quota handling, task
//! results and session bookkeeping.

pub mod version;
pub mod fallback;
pub mod task;
pub mod session;
pub mod claude;
