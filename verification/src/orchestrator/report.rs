//! Execution reports: per-task outcomes, per-wave results, and the two
//! renderings of a whole run (a CLI summary and a markdown block for the
//! brief). Times are Unix milliseconds.

use std::time::Duration;

use vstd::prelude::*;

use crate::calendar::unix_now_millis;
use crate::common::{duration_from_millis, duration_of_millis};
use crate::text::{decimal, has_substring, join, push_decimal, push_str, str_contains};

verus! {

broadcast use Seq::lemma_flatten_push;

/// How one task ended.
#[derive(Debug, Clone)]
pub struct TaskOutcome {
    pub task_id: String,
    pub succeeded: bool,
    pub exit_code: i32,
    pub duration_ms: u64,
    pub failure_reason: Option<String>,
}

/// The outcomes of one wave, in task order.
#[derive(Debug, Clone)]
pub struct WaveResult {
    pub wave_id: String,
    pub tasks: Vec<TaskOutcome>,
}

/// Number of outcomes that succeeded.
pub open spec fn ok_count(ts: Seq<TaskOutcome>) -> nat
    decreases ts.len(),
{
    if ts.len() == 0 {
        0
    } else {
        ok_count(ts.drop_last()) + if ts.last().succeeded {
            1nat
        } else {
            0nat
        }
    }
}

/// Number of outcomes that failed.
pub open spec fn failed_count(ts: Seq<TaskOutcome>) -> nat
    decreases ts.len(),
{
    if ts.len() == 0 {
        0
    } else {
        failed_count(ts.drop_last()) + if ts.last().succeeded {
            0nat
        } else {
            1nat
        }
    }
}

/// The failure reason names a hard timeout or a stale session.
pub open spec fn timeout_reason(t: TaskOutcome) -> bool {
    t.failure_reason matches Some(r) && (has_substring(r@, "hard timeout"@) || has_substring(
        r@,
        "Stale"@,
    ))
}

/// Number of outcomes whose failure reason is a timeout.
pub open spec fn timed_out_count(ts: Seq<TaskOutcome>) -> nat
    decreases ts.len(),
{
    if ts.len() == 0 {
        0
    } else {
        timed_out_count(ts.drop_last()) + if timeout_reason(ts.last()) {
            1nat
        } else {
            0nat
        }
    }
}

/// `f` summed over the task lists of all waves.
pub open spec fn sum_over_waves(ws: Seq<WaveResult>, f: spec_fn(Seq<TaskOutcome>) -> nat) -> nat
    decreases ws.len(),
{
    if ws.len() == 0 {
        0
    } else {
        sum_over_waves(ws.drop_last(), f) + f(ws.last().tasks@)
    }
}

/// One line of the CLI summary: `  [wave] ok/total`.
pub open spec fn wave_summary(w: WaveResult) -> Seq<char> {
    "  ["@ + w.wave_id@ + "] "@ + decimal(ok_count(w.tasks@)) + "/"@ + decimal(w.tasks@.len())
}

/// Every outcome succeeded and failed counts add up to the number of
/// outcomes.
pub proof fn lemma_ok_failed_partition(ts: Seq<TaskOutcome>)
    ensures
        ok_count(ts) + failed_count(ts) == ts.len(),
    decreases ts.len(),
{
    if ts.len() > 0 {
        lemma_ok_failed_partition(ts.drop_last());
    }
}

proof fn lemma_ok_count_step(ts: Seq<TaskOutcome>, i: int)
    requires
        0 <= i < ts.len(),
    ensures
        ok_count(ts.take(i + 1)) == ok_count(ts.take(i)) + if ts[i].succeeded {
            1nat
        } else {
            0nat
        },
        failed_count(ts.take(i + 1)) == failed_count(ts.take(i)) + if ts[i].succeeded {
            0nat
        } else {
            1nat
        },
        timed_out_count(ts.take(i + 1)) == timed_out_count(ts.take(i)) + if timeout_reason(
            ts[i],
        ) {
            1nat
        } else {
            0nat
        },
{
    assert(ts.take(i + 1).drop_last() =~= ts.take(i));
}

proof fn lemma_ok_count_bound(ts: Seq<TaskOutcome>)
    ensures
        ok_count(ts) <= ts.len(),
        failed_count(ts) <= ts.len(),
        timed_out_count(ts) <= ts.len(),
    decreases ts.len(),
{
    if ts.len() > 0 {
        lemma_ok_count_bound(ts.drop_last());
    }
}

impl WaveResult {
    /// Whether some task of the wave failed (later waves are then skipped).
    pub fn has_critical_failure(&self) -> (b: bool)
        ensures
            b == exists|i: int| 0 <= i < self.tasks@.len() && !(#[trigger] self.tasks@[i]).succeeded,
    {
        let mut i: usize = 0;
        while i < self.tasks.len()
            invariant
                i <= self.tasks@.len(),
                forall|j: int| 0 <= j < i ==> (#[trigger] self.tasks@[j]).succeeded,
            decreases self.tasks@.len() - i,
        {
            if !self.tasks[i].succeeded {
                return true;
            }
            i += 1;
        }
        false
    }

    /// Number of tasks of the wave that succeeded.
    pub fn ok_tasks(&self) -> (n: usize)
        ensures
            n == ok_count(self.tasks@),
    {
        let mut n: usize = 0;
        let mut i: usize = 0;
        while i < self.tasks.len()
            invariant
                i <= self.tasks@.len(),
                n == ok_count(self.tasks@.take(i as int)),
            decreases self.tasks@.len() - i,
        {
            proof {
                lemma_ok_count_step(self.tasks@, i as int);
                lemma_ok_count_bound(self.tasks@.take(i as int));
            }
            if self.tasks[i].succeeded {
                n += 1;
            }
            i += 1;
        }
        assert(self.tasks@.take(i as int) =~= self.tasks@);
        n
    }

    /// `  [wave] ok/total`.
    pub fn summary(&self) -> (s: String)
        ensures
            s@ == wave_summary(*self),
    {
        let ok = self.ok_tasks();
        let mut s = String::new();
        push_str(&mut s, "  [");
        push_str(&mut s, self.wave_id.as_str());
        push_str(&mut s, "] ");
        push_decimal(&mut s, ok as u64);
        push_str(&mut s, "/");
        push_decimal(&mut s, self.tasks.len() as u64);
        assert(s@ =~= wave_summary(*self));
        s
    }
}

/// A whole run: when it started and ended, and each wave's result.
#[derive(Debug, Clone)]
pub struct ExecutionReport {
    pub started: i64,
    pub ended: Option<i64>,
    pub waves: Vec<WaveResult>,
}

/// Milliseconds from start to end; zero while running or when the end is
/// before the start.
pub open spec fn elapsed_ms(r: ExecutionReport) -> nat {
    match r.ended {
        Some(e) => if e >= r.started {
            (e - r.started) as nat
        } else {
            0
        },
        None => 0,
    }
}

/// Total number of tasks in the report.
pub open spec fn total_count(r: ExecutionReport) -> nat {
    sum_over_waves(r.waves@, |ts: Seq<TaskOutcome>| ts.len())
}

/// Number of succeeded tasks in the report.
pub open spec fn succeeded_count(r: ExecutionReport) -> nat {
    sum_over_waves(r.waves@, |ts: Seq<TaskOutcome>| ok_count(ts))
}

/// Number of failed tasks in the report.
pub open spec fn failures_count(r: ExecutionReport) -> nat {
    sum_over_waves(r.waves@, |ts: Seq<TaskOutcome>| failed_count(ts))
}

/// Number of tasks in the report that ended by timeout.
pub open spec fn timeouts_count(r: ExecutionReport) -> nat {
    sum_over_waves(r.waves@, |ts: Seq<TaskOutcome>| timed_out_count(ts))
}

/// The CLI summary of a report.
pub open spec fn report_summary(r: ExecutionReport) -> Seq<char> {
    "Execution: "@ + decimal(r.waves@.len()) + " waves, "@ + decimal(succeeded_count(r)) + "/"@
        + decimal(total_count(r)) + " succeeded\nElapsed:   "@ + decimal(elapsed_ms(r) / 1000)
        + "s\nFailed:    "@ + decimal(failures_count(r)) + "\nTimed out: "@ + decimal(
        timeouts_count(r),
    ) + "\n\n"@ + join(r.waves@.map_values(|w: WaveResult| wave_summary(w)), "\n"@)
}

/// The markdown line of one task.
pub open spec fn task_line(t: TaskOutcome) -> Seq<char> {
    "- `"@ + t.task_id@ + "` \u{2014} **"@ + (if t.succeeded {
        "ok"@
    } else {
        "fail"@
    }) + "** ("@ + decimal(t.duration_ms as nat) + "ms) "@ + match t.failure_reason {
        Some(r) => r@,
        None => Seq::empty(),
    } + "\n"@
}

/// The markdown block of one wave.
pub open spec fn wave_markdown(w: WaveResult) -> Seq<char> {
    "### Wave `"@ + w.wave_id@ + "`\n\n"@ + w.tasks@.map_values(|t: TaskOutcome| task_line(t)).flatten()
        + "\n"@
}

/// The markdown rendering of a report.
pub open spec fn report_markdown(r: ExecutionReport) -> Seq<char> {
    "**"@ + decimal(r.waves@.len()) + " waves, "@ + decimal(succeeded_count(r)) + "/"@ + decimal(
        total_count(r),
    ) + " succeeded in "@ + decimal(elapsed_ms(r) / 1000) + "s**\n\n"@ + r.waves@.map_values(
        |w: WaveResult| wave_markdown(w),
    ).flatten()
}

proof fn lemma_sum_step(ws: Seq<WaveResult>, i: int, f: spec_fn(Seq<TaskOutcome>) -> nat)
    requires
        0 <= i < ws.len(),
    ensures
        sum_over_waves(ws.take(i + 1), f) == sum_over_waves(ws.take(i), f) + f(ws[i].tasks@),
{
    assert(ws.take(i + 1).drop_last() =~= ws.take(i));
}

proof fn lemma_sum_mono(ws: Seq<WaveResult>, i: int, f: spec_fn(Seq<TaskOutcome>) -> nat)
    requires
        0 <= i <= ws.len(),
    ensures
        sum_over_waves(ws.take(i), f) <= sum_over_waves(ws, f),
    decreases ws.len() - i,
{
    if i < ws.len() {
        lemma_sum_step(ws, i, f);
        lemma_sum_mono(ws, i + 1, f);
    } else {
        assert(ws.take(i) =~= ws);
    }
}

proof fn lemma_sum_le_total(ws: Seq<WaveResult>)
    ensures
        sum_over_waves(ws, |ts: Seq<TaskOutcome>| ok_count(ts)) <= sum_over_waves(
            ws,
            |ts: Seq<TaskOutcome>| ts.len(),
        ),
        sum_over_waves(ws, |ts: Seq<TaskOutcome>| failed_count(ts)) <= sum_over_waves(
            ws,
            |ts: Seq<TaskOutcome>| ts.len(),
        ),
        sum_over_waves(ws, |ts: Seq<TaskOutcome>| timed_out_count(ts)) <= sum_over_waves(
            ws,
            |ts: Seq<TaskOutcome>| ts.len(),
        ),
    decreases ws.len(),
{
    if ws.len() > 0 {
        lemma_sum_le_total(ws.drop_last());
        lemma_ok_count_bound(ws.last().tasks@);
    }
}

/// Succeeded and failed tasks together are all the tasks of a report.
pub proof fn lemma_report_counts_partition(r: ExecutionReport)
    ensures
        succeeded_count(r) + failures_count(r) == total_count(r),
{
    lemma_waves_partition(r.waves@);
}

proof fn lemma_waves_partition(ws: Seq<WaveResult>)
    ensures
        sum_over_waves(ws, |ts: Seq<TaskOutcome>| ok_count(ts)) + sum_over_waves(
            ws,
            |ts: Seq<TaskOutcome>| failed_count(ts),
        ) == sum_over_waves(ws, |ts: Seq<TaskOutcome>| ts.len()),
    decreases ws.len(),
{
    if ws.len() > 0 {
        lemma_waves_partition(ws.drop_last());
        lemma_ok_failed_partition(ws.last().tasks@);
    }
}

impl ExecutionReport {
    /// An empty report started now.
    pub fn new() -> (r: ExecutionReport)
        ensures
            r.ended is None,
            r.waves@.len() == 0,
    {
        ExecutionReport { started: unix_now_millis(), ended: None, waves: Vec::new() }
    }

    /// Appends a finished wave; the answer says whether to stop here,
    /// which is when a task of that wave failed.
    pub fn record_wave(&mut self, r: WaveResult) -> (stop: bool)
        ensures
            final(self).waves@ == old(self).waves@.push(r),
            final(self).started == old(self).started,
            final(self).ended == old(self).ended,
            stop == exists|i: int| 0 <= i < r.tasks@.len() && !(#[trigger] r.tasks@[i]).succeeded,
    {
        let stop = r.has_critical_failure();
        self.waves.push(r);
        stop
    }

    /// Records the end time (now).
    pub fn mark_ended(&mut self)
        ensures
            final(self).ended is Some,
            final(self).started == old(self).started,
            final(self).waves@ == old(self).waves@,
    {
        self.ended = Some(unix_now_millis());
    }

    /// The number of tasks over all waves.
    pub fn total_tasks(&self) -> (n: usize)
        requires
            total_count(*self) <= usize::MAX,
        ensures
            n == total_count(*self),
    {
        let ghost f = |ts: Seq<TaskOutcome>| ts.len();
        let mut n: usize = 0;
        let mut i: usize = 0;
        while i < self.waves.len()
            invariant
                i <= self.waves@.len(),
                n == sum_over_waves(self.waves@.take(i as int), f),
                sum_over_waves(self.waves@, f) <= usize::MAX,
                f == (|ts: Seq<TaskOutcome>| ts.len()),
            decreases self.waves@.len() - i,
        {
            proof {
                lemma_sum_step(self.waves@, i as int, f);
                lemma_sum_mono(self.waves@, i + 1, f);
            }
            n = n + self.waves[i].tasks.len();
            i += 1;
        }
        assert(self.waves@.take(i as int) =~= self.waves@);
        n
    }

    /// The number of succeeded tasks over all waves.
    pub fn succeeded(&self) -> (n: usize)
        requires
            total_count(*self) <= usize::MAX,
        ensures
            n == succeeded_count(*self),
    {
        let ghost f = |ts: Seq<TaskOutcome>| ok_count(ts);
        proof {
            lemma_sum_le_total(self.waves@);
        }
        let mut n: usize = 0;
        let mut i: usize = 0;
        while i < self.waves.len()
            invariant
                i <= self.waves@.len(),
                n == sum_over_waves(self.waves@.take(i as int), f),
                sum_over_waves(self.waves@, f) <= usize::MAX,
                f == (|ts: Seq<TaskOutcome>| ok_count(ts)),
            decreases self.waves@.len() - i,
        {
            proof {
                lemma_sum_step(self.waves@, i as int, f);
                lemma_sum_mono(self.waves@, i + 1, f);
            }
            let k = self.waves[i].ok_tasks();
            n = n + k;
            i += 1;
        }
        assert(self.waves@.take(i as int) =~= self.waves@);
        n
    }

    /// The number of failed tasks over all waves.
    pub fn failed(&self) -> (n: usize)
        requires
            total_count(*self) <= usize::MAX,
        ensures
            n == failures_count(*self),
    {
        let ghost f = |ts: Seq<TaskOutcome>| failed_count(ts);
        proof {
            lemma_sum_le_total(self.waves@);
        }
        let mut n: usize = 0;
        let mut i: usize = 0;
        while i < self.waves.len()
            invariant
                i <= self.waves@.len(),
                n == sum_over_waves(self.waves@.take(i as int), f),
                sum_over_waves(self.waves@, f) <= usize::MAX,
                f == (|ts: Seq<TaskOutcome>| failed_count(ts)),
            decreases self.waves@.len() - i,
        {
            proof {
                lemma_sum_step(self.waves@, i as int, f);
                lemma_sum_mono(self.waves@, i + 1, f);
            }
            let tasks = &self.waves[i].tasks;
            let mut j: usize = 0;
            let ghost base = n;
            while j < tasks.len()
                invariant
                    j <= tasks@.len(),
                    n == base + failed_count(tasks@.take(j as int)),
                    base + failed_count(tasks@) <= usize::MAX,
                decreases tasks@.len() - j,
            {
                proof {
                    lemma_ok_count_step(tasks@, j as int);
                    assert(tasks@.take(tasks@.len() as int) =~= tasks@);
                    lemma_failed_prefix(tasks@, j + 1);
                }
                if !tasks[j].succeeded {
                    n += 1;
                }
                j += 1;
            }
            assert(tasks@.take(j as int) =~= tasks@);
            i += 1;
        }
        assert(self.waves@.take(i as int) =~= self.waves@);
        n
    }

    /// The number of tasks that ended by hard timeout or staleness.
    pub fn timed_out(&self) -> (n: usize)
        requires
            total_count(*self) <= usize::MAX,
        ensures
            n == timeouts_count(*self),
    {
        let ghost f = |ts: Seq<TaskOutcome>| timed_out_count(ts);
        proof {
            lemma_sum_le_total(self.waves@);
        }
        let mut n: usize = 0;
        let mut i: usize = 0;
        while i < self.waves.len()
            invariant
                i <= self.waves@.len(),
                n == sum_over_waves(self.waves@.take(i as int), f),
                sum_over_waves(self.waves@, f) <= usize::MAX,
                f == (|ts: Seq<TaskOutcome>| timed_out_count(ts)),
            decreases self.waves@.len() - i,
        {
            proof {
                lemma_sum_step(self.waves@, i as int, f);
                lemma_sum_mono(self.waves@, i + 1, f);
            }
            let tasks = &self.waves[i].tasks;
            let mut j: usize = 0;
            let ghost base = n;
            while j < tasks.len()
                invariant
                    j <= tasks@.len(),
                    n == base + timed_out_count(tasks@.take(j as int)),
                    base + timed_out_count(tasks@) <= usize::MAX,
                decreases tasks@.len() - j,
            {
                proof {
                    lemma_ok_count_step(tasks@, j as int);
                    lemma_timed_out_prefix(tasks@, j + 1);
                }
                let t = &tasks[j];
                let hit = match &t.failure_reason {
                    Some(r) => str_contains(r.as_str(), "hard timeout") || str_contains(
                        r.as_str(),
                        "Stale",
                    ),
                    None => false,
                };
                if hit {
                    n += 1;
                }
                j += 1;
            }
            assert(tasks@.take(j as int) =~= tasks@);
            i += 1;
        }
        assert(self.waves@.take(i as int) =~= self.waves@);
        n
    }

    /// Milliseconds from start to end (zero while still running).
    pub fn elapsed_millis(&self) -> (ms: u64)
        ensures
            ms == elapsed_ms(*self),
    {
        match self.ended {
            Some(e) => if e >= self.started {
                (e as i128 - self.started as i128) as u64
            } else {
                0
            },
            None => 0,
        }
    }

    /// The time from start to end (zero while still running).
    pub fn elapsed(&self) -> (d: Duration)
        ensures
            d == duration_of_millis(elapsed_ms(*self) as u64),
    {
        duration_from_millis(self.elapsed_millis())
    }

    /// The CLI summary: counts, elapsed seconds, failures, timeouts, then
    /// one line per wave.
    pub fn to_summary(&self) -> (s: String)
        requires
            total_count(*self) <= usize::MAX,
        ensures
            s@ == report_summary(*self),
    {
        let total = self.total_tasks();
        let ok = self.succeeded();
        let mut s = String::new();
        push_str(&mut s, "Execution: ");
        push_decimal(&mut s, self.waves.len() as u64);
        push_str(&mut s, " waves, ");
        push_decimal(&mut s, ok as u64);
        push_str(&mut s, "/");
        push_decimal(&mut s, total as u64);
        push_str(&mut s, " succeeded\nElapsed:   ");
        push_decimal(&mut s, self.elapsed_millis() / 1000);
        push_str(&mut s, "s\nFailed:    ");
        push_decimal(&mut s, self.failed() as u64);
        push_str(&mut s, "\nTimed out: ");
        push_decimal(&mut s, self.timed_out() as u64);
        push_str(&mut s, "\n\n");
        let ghost head = s@;
        let ghost lines = self.waves@.map_values(|w: WaveResult| wave_summary(w));
        let mut i: usize = 0;
        while i < self.waves.len()
            invariant
                i <= self.waves@.len(),
                lines == self.waves@.map_values(|w: WaveResult| wave_summary(w)),
                s@ == head + join(lines.take(i as int), "\n"@),
            decreases self.waves@.len() - i,
        {
            let line = self.waves[i].summary();
            proof {
                assert(lines.take(i + 1).drop_last() =~= lines.take(i as int));
                assert(lines.take(i + 1).last() == line@);
            }
            if i > 0 {
                push_str(&mut s, "\n");
            }
            push_str(&mut s, line.as_str());
            proof {
                if i == 0 {
                    assert(lines.take(1) =~= seq![line@]);
                }
            }
            assert(s@ =~= head + join(lines.take(i + 1), "\n"@));
            i += 1;
        }
        assert(lines.take(i as int) =~= lines);
        assert(s@ =~= report_summary(*self));
        s
    }

    /// The markdown rendering: a bold headline, then per wave a heading and
    /// one bullet per task.
    pub fn to_markdown(&self) -> (s: String)
        requires
            total_count(*self) <= usize::MAX,
        ensures
            s@ == report_markdown(*self),
    {
        let mut s = String::new();
        push_str(&mut s, "**");
        push_decimal(&mut s, self.waves.len() as u64);
        push_str(&mut s, " waves, ");
        push_decimal(&mut s, self.succeeded() as u64);
        push_str(&mut s, "/");
        push_decimal(&mut s, self.total_tasks() as u64);
        push_str(&mut s, " succeeded in ");
        push_decimal(&mut s, self.elapsed_millis() / 1000);
        push_str(&mut s, "s**\n\n");
        let ghost head = s@;
        let ghost blocks = self.waves@.map_values(|w: WaveResult| wave_markdown(w));
        let mut i: usize = 0;
        while i < self.waves.len()
            invariant
                i <= self.waves@.len(),
                blocks == self.waves@.map_values(|w: WaveResult| wave_markdown(w)),
                s@ == head + blocks.take(i as int).flatten(),
            decreases self.waves@.len() - i,
        {
            let wave = &self.waves[i];
            let ghost before = s@;
            push_str(&mut s, "### Wave `");
            push_str(&mut s, wave.wave_id.as_str());
            push_str(&mut s, "`\n\n");
            let ghost mid = s@;
            let ghost lines = wave.tasks@.map_values(|t: TaskOutcome| task_line(t));
            let mut j: usize = 0;
            while j < wave.tasks.len()
                invariant
                    j <= wave.tasks@.len(),
                    lines == wave.tasks@.map_values(|t: TaskOutcome| task_line(t)),
                    s@ == mid + lines.take(j as int).flatten(),
                decreases wave.tasks@.len() - j,
            {
                let t = &wave.tasks[j];
                let ghost at = s@;
                push_str(&mut s, "- `");
                push_str(&mut s, t.task_id.as_str());
                push_str(&mut s, "` \u{2014} **");
                if t.succeeded {
                    push_str(&mut s, "ok");
                } else {
                    push_str(&mut s, "fail");
                }
                push_str(&mut s, "** (");
                push_decimal(&mut s, t.duration_ms);
                push_str(&mut s, "ms) ");
                match &t.failure_reason {
                    Some(r) => push_str(&mut s, r.as_str()),
                    None => {},
                }
                push_str(&mut s, "\n");
                proof {
                    assert(s@ =~= at + task_line(*t));
                    assert(lines.take(j + 1) =~= lines.take(j as int).push(task_line(*t)));
                }
                j += 1;
            }
            assert(lines.take(j as int) =~= lines);
            push_str(&mut s, "\n");
            proof {
                assert(s@ =~= before + wave_markdown(*wave));
                assert(blocks.take(i + 1) =~= blocks.take(i as int).push(wave_markdown(*wave)));
            }
            i += 1;
        }
        assert(blocks.take(i as int) =~= blocks);
        assert(s@ =~= report_markdown(*self));
        s
    }
}

proof fn lemma_failed_prefix(ts: Seq<TaskOutcome>, i: int)
    requires
        0 <= i <= ts.len(),
    ensures
        failed_count(ts.take(i)) <= failed_count(ts),
    decreases ts.len() - i,
{
    if i < ts.len() {
        lemma_ok_count_step(ts, i);
        lemma_failed_prefix(ts, i + 1);
    } else {
        assert(ts.take(i) =~= ts);
    }
}

proof fn lemma_timed_out_prefix(ts: Seq<TaskOutcome>, i: int)
    requires
        0 <= i <= ts.len(),
    ensures
        timed_out_count(ts.take(i)) <= timed_out_count(ts),
    decreases ts.len() - i,
{
    if i < ts.len() {
        lemma_ok_count_step(ts, i);
        lemma_timed_out_prefix(ts, i + 1);
    } else {
        assert(ts.take(i) =~= ts);
    }
}

impl Default for ExecutionReport {
    fn default() -> (r: ExecutionReport)
        ensures
            r.ended is None,
            r.waves@.len() == 0,
    {
        ExecutionReport::new()
    }
}

} // verus!
