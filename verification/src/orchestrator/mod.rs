//! Wave-based parallel task execution: plan validation, per-task and
//! per-wave outcomes, reports, worktree and watchdog decisions.

pub mod executor;
pub mod plan;
pub mod report;
pub mod squad;
pub mod tmux;
pub mod watchdog;
pub mod worktree;

use std::path::PathBuf;
use std::sync::Arc;
use std::time::Duration;

use vstd::prelude::*;

use crate::common::{duration_from_secs, duration_of_secs};

verus! {

/// Limits and locations for running a plan.
#[derive(Debug, Clone)]
pub struct OrchestratorConfig {
    pub max_concurrent: usize,
    pub task_timeout: Duration,
    pub stale_threshold: Duration,
    pub worktree_base: PathBuf,
}

/// `dirs::home_dir`: the user's home directory, if known. It depends on
/// the environment; nothing is claimed of it.
#[verifier::external_body]
fn home_dir() -> Option<PathBuf> {
    dirs::home_dir()
}

/// What `PathBuf::from` returns for a string.
pub uninterp spec fn path_of(s: Seq<char>) -> PathBuf;

/// What `Path::join` returns for a base path and a further part.
pub uninterp spec fn path_joined(base: PathBuf, part: Seq<char>) -> PathBuf;

/// `PathBuf::from` a string; the path is named.
#[verifier::external_body]
fn path_from(s: &str) -> (p: PathBuf)
    ensures
        p == path_of(s@),
{
    PathBuf::from(s)
}

/// `Path::join`; it depends on its two arguments alone, and the path is
/// named.
#[verifier::external_body]
fn path_join(base: &PathBuf, part: &str) -> (p: PathBuf)
    ensures
        p == path_joined(*base, part@),
{
    base.join(part)
}

/// The worktree directory under a home directory: `<home>/.myth/worktrees`.
pub open spec fn worktrees_under(home: PathBuf) -> PathBuf {
    path_joined(path_joined(home, ".myth"@), "worktrees"@)
}

/// `~/.myth/worktrees` (under the current directory when there is no
/// home directory; which home is found depends on the environment).
fn default_worktree_base() -> (p: PathBuf)
    ensures
        exists|home: PathBuf| p == #[trigger] worktrees_under(home),
{
    let home = match home_dir() {
        Some(h) => h,
        None => path_from("."),
    };
    let p = path_join(&path_join(&home, ".myth"), "worktrees");
    assert(p == worktrees_under(home));
    p
}

impl OrchestratorConfig {
    /// The default limits (3 concurrent tasks, an 11-minute task timeout, a
    /// 2-minute stale threshold) with worktrees under `worktree_base`.
    pub fn with_worktree_base(worktree_base: PathBuf) -> (c: OrchestratorConfig)
        ensures
            c.max_concurrent == 3,
            c.task_timeout == duration_of_secs(660),
            c.stale_threshold == duration_of_secs(120),
            c.worktree_base == worktree_base,
    {
        OrchestratorConfig {
            max_concurrent: 3,
            task_timeout: duration_from_secs(11 * 60),
            stale_threshold: duration_from_secs(2 * 60),
            worktree_base,
        }
    }
}

impl Default for OrchestratorConfig {
    /// The default limits, with worktrees under `~/.myth/worktrees`.
    fn default() -> (c: OrchestratorConfig)
        ensures
            c.max_concurrent == 3,
            c.task_timeout == duration_of_secs(660),
            c.stale_threshold == duration_of_secs(120),
            exists|home: PathBuf| c.worktree_base == #[trigger] worktrees_under(home),
    {
        OrchestratorConfig::with_worktree_base(default_worktree_base())
    }
}

/// Runs plans under one configuration.
#[derive(Clone)]
pub struct Orchestrator {
    config: Arc<OrchestratorConfig>,
}

impl Orchestrator {
    /// The configuration the orchestrator runs with.
    pub closed spec fn config_spec(&self) -> OrchestratorConfig {
        *self.config
    }

    /// An orchestrator with this configuration.
    pub fn new(config: OrchestratorConfig) -> (o: Orchestrator)
        ensures
            o.config_spec() == config,
    {
        Orchestrator { config: Arc::new(config) }
    }

    /// The configuration.
    pub fn config(&self) -> (c: &OrchestratorConfig)
        ensures
            *c == self.config_spec(),
    {
        &*self.config
    }
}

} // verus!
