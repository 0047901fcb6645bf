//! Timeout and staleness detection for a running task. The monitor reads
//! the session's pane periodically; growth of the pane text counts as
//! activity, and a `DONE|` marker or a shell prompt near the end counts as
//! completion.

use std::time::Duration;

use vstd::prelude::*;

use crate::common::{duration_from_secs, duration_of_secs};
use crate::text::{has_substring, str_contains};

verus! {

/// How a monitored task ended.
#[derive(Debug, Clone, Copy, PartialEq, Eq, Structural)]
pub enum WatchdogResult {
    Completed,
    HardTimeout,
    Stale,
}

/// The monitor's limits and polling interval.
pub struct Watchdog {
    pub hard_timeout: Duration,
    pub stale_threshold: Duration,
    /// Time between two looks at the pane.
    pub tick: Duration,
}

impl Watchdog {
    /// A watchdog with these limits, polling every 5 seconds.
    pub fn new(hard_timeout: Duration, stale_threshold: Duration) -> (w: Watchdog)
        ensures
            w.hard_timeout == hard_timeout,
            w.stale_threshold == stale_threshold,
            w.tick == duration_of_secs(5),
    {
        Watchdog { hard_timeout, stale_threshold, tick: duration_from_secs(5) }
    }
}

/// The last (at most) 200 characters of the pane.
pub open spec fn pane_tail(pane: Seq<char>) -> Seq<char> {
    if pane.len() <= 200 {
        pane
    } else {
        pane.skip(pane.len() - 200)
    }
}

/// The pane shows a `DONE|` marker anywhere, or a shell prompt (`$ ` or
/// `# `) in its last 200 characters.
pub open spec fn completion_signal(pane: Seq<char>) -> bool {
    has_substring(pane, "DONE|"@) || has_substring(pane_tail(pane), "$ "@) || has_substring(
        pane_tail(pane),
        "# "@,
    )
}

/// Whether the pane text says the task is done.
pub fn is_completion_signal(pane: &str) -> (b: bool)
    ensures
        b == completion_signal(pane@),
        has_substring(pane@, "DONE|"@) ==> b,
{
    if str_contains(pane, "DONE|") {
        return true;
    }
    let chars = crate::text::chars_of(pane);
    let start = if chars.len() <= 200 {
        0
    } else {
        chars.len() - 200
    };
    let tail = &chars.as_slice()[start..chars.len()];
    assert(tail@ == pane_tail(pane@));
    let dollar = crate::text::chars_of("$ ");
    let hash = crate::text::chars_of("# ");
    crate::text::contains_chars(tail, dollar.as_slice()) || crate::text::contains_chars(
        tail,
        hash.as_slice(),
    )
}

/// What one look at the pane decides.
#[derive(Debug, Clone, Copy, PartialEq, Eq, Structural)]
pub enum MonitorStep {
    /// Stop monitoring with this result.
    Finish(WatchdogResult),
    /// The pane grew to this many bytes: activity, keep going.
    Active(usize),
    /// No growth, not yet stale: keep going.
    Idle,
}

/// The decision of one monitoring tick, in order: the hard timeout, then
/// completion, then growth of the pane (activity), then staleness.
pub open spec fn monitor_step_spec(
    hard_timeout_reached: bool,
    pane: Seq<char>,
    pane_bytes: nat,
    last_len: nat,
    stale_reached: bool,
) -> MonitorStep {
    if hard_timeout_reached {
        MonitorStep::Finish(WatchdogResult::HardTimeout)
    } else if completion_signal(pane) {
        MonitorStep::Finish(WatchdogResult::Completed)
    } else if pane_bytes > last_len {
        MonitorStep::Active(pane_bytes as usize)
    } else if stale_reached {
        MonitorStep::Finish(WatchdogResult::Stale)
    } else {
        MonitorStep::Idle
    }
}

/// One monitoring tick: whether the hard timeout has passed, the pane text,
/// the pane length (bytes) seen at the last activity, and whether the time
/// since that activity reached the stale threshold.
pub fn monitor_step(
    hard_timeout_reached: bool,
    pane: &str,
    last_output_len: usize,
    stale_reached: bool,
) -> (s: MonitorStep)
    ensures
        s == monitor_step_spec(
            hard_timeout_reached,
            pane@,
            crate::bounded::utf8_len(pane@),
            last_output_len as nat,
            stale_reached,
        ),
{
    if hard_timeout_reached {
        return MonitorStep::Finish(WatchdogResult::HardTimeout);
    }
    if is_completion_signal(pane) {
        return MonitorStep::Finish(WatchdogResult::Completed);
    }
    let n = pane.as_bytes().len();
    if n > last_output_len {
        MonitorStep::Active(n)
    } else if stale_reached {
        MonitorStep::Finish(WatchdogResult::Stale)
    } else {
        MonitorStep::Idle
    }
}

/// A `DONE|` marker anywhere in the pane means completion, however much
/// output follows it; short of the hard timeout, the tick finishes the
/// task as completed.
pub proof fn lemma_done_marker_anywhere_completes(
    pane: Seq<char>,
    pane_bytes: nat,
    last_len: nat,
    stale_reached: bool,
)
    requires
        has_substring(pane, "DONE|"@),
    ensures
        completion_signal(pane),
        monitor_step_spec(false, pane, pane_bytes, last_len, stale_reached) == MonitorStep::Finish(
            WatchdogResult::Completed,
        ),
{
}

} // verus!
