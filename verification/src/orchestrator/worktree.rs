//! git worktrees for tasks: the branch naming convention and how the
//! outcome of a fast-forward-only merge is read.

use std::path::PathBuf;

use vstd::prelude::*;

use crate::text::{has_substring, push_str, str_contains};

verus! {

/// A task's worktree: where it is, its branch, and the repository it was
/// made from.
#[derive(Debug, Clone)]
pub struct Worktree {
    pub path: PathBuf,
    pub branch: String,
    pub base: PathBuf,
}

/// How merging a task branch into the main branch went.
#[derive(Debug, Clone, PartialEq, Eq)]
pub enum MergeResult {
    FastForward,
    /// Not a fast-forward; git's stderr.
    Conflict(String),
    /// Nothing to merge.
    Noop,
}

/// The branch of a task: `myth/task-` and the task id.
pub fn task_branch(task_id: &str) -> (s: String)
    ensures
        s@ == "myth/task-"@ + task_id@,
{
    let mut s = String::new();
    push_str(&mut s, "myth/task-");
    push_str(&mut s, task_id);
    s
}

/// git reported that there was nothing to merge.
pub open spec fn already_up_to_date(stdout: Seq<char>) -> bool {
    has_substring(stdout, "Already up to date"@) || has_substring(stdout, "Already up-to-date"@)
}

/// Reads `git merge --ff-only`: success with an "already up to date"
/// message is a no-op, other success a fast-forward, failure a conflict
/// carrying git's stderr.
pub fn classify_merge(succeeded: bool, stdout: &str, stderr: &str) -> (r: MergeResult)
    ensures
        succeeded && already_up_to_date(stdout@) ==> r is Noop,
        succeeded && !already_up_to_date(stdout@) ==> r is FastForward,
        !succeeded ==> (r matches MergeResult::Conflict(e) && e@ == stderr@),
{
    if succeeded {
        if str_contains(stdout, "Already up to date") || str_contains(stdout, "Already up-to-date") {
            MergeResult::Noop
        } else {
            MergeResult::FastForward
        }
    } else {
        MergeResult::Conflict(stderr.to_owned())
    }
}

} // verus!
