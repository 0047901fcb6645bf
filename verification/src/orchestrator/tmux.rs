//! A tmux session the orchestrator drives; the tmux commands themselves are
//! run by the application.

use vstd::prelude::*;

verus! {

/// A tmux session, known by its name.
#[derive(Debug, Clone)]
pub struct TmuxSession {
    pub name: String,
}

} // verus!
