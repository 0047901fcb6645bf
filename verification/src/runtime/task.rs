//! What one programmatic agent CLI run produced, and how its failure is
//! named.

use std::time::Duration;

use vstd::prelude::*;

use crate::bounded::{tail_utf8, tail_within};
use crate::common::{duration_as_secs, duration_of_secs, secs_of};
use crate::runtime::fallback::{detect_quota_exhausted, quota_exhausted};
use crate::text::{decimal, has_substring, push_decimal, push_str, str_contains};

verus! {

/// The outcome of one programmatic (`-p`) run.
#[derive(Debug, Clone)]
pub struct TaskResult {
    pub succeeded: bool,
    pub exit_code: i32,
    pub stdout: String,
    pub stderr: String,
    pub duration: Duration,
    pub failure_reason: Option<String>,
}

/// The failure reason read from stderr: quota exhaustion first, then a
/// permission error, else a plain non-zero exit.
pub open spec fn failure_reason_of(stderr: Seq<char>) -> Seq<char> {
    if quota_exhausted(stderr) {
        "quota exhausted"@
    } else if has_substring(stderr, "permission denied"@) || has_substring(
        stderr,
        "Permission denied"@,
    ) {
        "permission denied"@
    } else {
        "non-zero exit"@
    }
}

/// Names the reason a run failed, from its stderr.
pub fn detect_failure_reason(stderr: &str) -> (r: String)
    ensures
        r@ == failure_reason_of(stderr@),
{
    if detect_quota_exhausted(stderr) {
        "quota exhausted".to_owned()
    } else if str_contains(stderr, "permission denied") || str_contains(stderr, "Permission denied") {
        "permission denied".to_owned()
    } else {
        "non-zero exit".to_owned()
    }
}

/// The failure reason of a run killed at its hard timeout.
pub open spec fn hard_timeout_text(secs: u64) -> Seq<char> {
    "hard timeout ("@ + decimal(secs as nat) + "s) exceeded"@
}

impl TaskResult {
    /// The last at most `max_bytes` bytes of stderr, starting on a
    /// character boundary.
    pub fn stderr_tail(&self, max_bytes: usize) -> (r: String)
        ensures
            r@ == tail_within(self.stderr@, max_bytes as int),
    {
        tail_utf8(self.stderr.as_str(), max_bytes)
    }

    /// A run that never produced a result (spawn or wait failure).
    pub fn crashed(reason: &str, duration: Duration) -> (r: TaskResult)
        ensures
            !r.succeeded,
            r.exit_code == -1,
            r.stdout@.len() == 0,
            r.stderr@.len() == 0,
            r.duration == duration,
            r.failure_reason matches Some(m) && m@ == reason@,
    {
        TaskResult {
            succeeded: false,
            exit_code: -1,
            stdout: String::new(),
            stderr: String::new(),
            duration,
            failure_reason: Some(reason.to_owned()),
        }
    }

    /// A run whose process exited: its success, its exit code (-1 when it
    /// died by a signal) and, on failure, the reason read from stderr.
    pub fn from_exit(
        success: bool,
        code: Option<i32>,
        stdout: String,
        stderr: String,
        duration: Duration,
    ) -> (r: TaskResult)
        ensures
            r.succeeded == success,
            r.exit_code == match code {
                Some(c) => c,
                None => -1i32,
            },
            r.stdout@ == stdout@,
            r.stderr@ == stderr@,
            r.duration == duration,
            success ==> r.failure_reason is None,
            !success ==> (r.failure_reason matches Some(m) && m@ == failure_reason_of(stderr@)),
    {
        let failure_reason = if success {
            None
        } else {
            Some(detect_failure_reason(stderr.as_str()))
        };
        TaskResult {
            succeeded: success,
            exit_code: match code {
                Some(c) => c,
                None => -1,
            },
            stdout,
            stderr,
            duration,
            failure_reason,
        }
    }

    /// A run killed because it outlived `hard_timeout`.
    pub fn from_hard_timeout(
        hard_timeout: &Duration,
        stdout: String,
        stderr: String,
        duration: Duration,
    ) -> (r: TaskResult)
        ensures
            !r.succeeded,
            r.exit_code == -1,
            r.stdout@ == stdout@,
            r.stderr@ == stderr@,
            r.duration == duration,
            r.failure_reason matches Some(m) && m@ == hard_timeout_text(secs_of(*hard_timeout)),
            forall|secs: u64|
                *hard_timeout == duration_of_secs(secs) ==> (r.failure_reason matches Some(m)
                    && m@ == hard_timeout_text(secs)),
    {
        let secs = duration_as_secs(hard_timeout);
        let mut m = String::new();
        push_str(&mut m, "hard timeout (");
        push_decimal(&mut m, secs);
        push_str(&mut m, "s) exceeded");
        assert(m@ =~= hard_timeout_text(secs));
        TaskResult {
            succeeded: false,
            exit_code: -1,
            stdout,
            stderr,
            duration,
            failure_reason: Some(m),
        }
    }
}

} // verus!
