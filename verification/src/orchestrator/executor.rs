//! Per-task and per-wave bookkeeping around a run: the effective timeout
//! and concurrency limit, the outcome a run turns into, the failure record
//! kept for the caselog, and the order in which a wave reports its tasks.

use std::time::Duration;

use vstd::prelude::*;
use vstd::multiset::Multiset;

use crate::bounded::tail_within;
use crate::common::{duration_as_millis, duration_from_secs, duration_of_millis, duration_of_secs, millis_of};
use crate::orchestrator::plan::{Task, Wave};
use crate::orchestrator::report::TaskOutcome;
use crate::runtime::task::TaskResult;

verus! {

/// The timeout of a task: its own `timeout_seconds` if it has one, else the
/// default.
pub fn effective_timeout(task: &Task, default: Duration) -> (d: Duration)
    ensures
        match task.timeout_seconds {
            Some(s) => d == duration_of_secs(s),
            None => d == default,
        },
{
    match task.timeout_seconds {
        Some(s) => duration_from_secs(s),
        None => default,
    }
}

/// How many tasks of a wave run at once: the wave's own limit or the
/// configured one, and at least one.
pub fn concurrency_limit(wave: &Wave, configured: usize) -> (n: usize)
    ensures
        n == if (match wave.max_concurrent {
            Some(m) => m,
            None => configured,
        }) >= 1 {
            match wave.max_concurrent {
                Some(m) => m,
                None => configured,
            }
        } else {
            1
        },
        n >= 1,
{
    let l = match wave.max_concurrent {
        Some(m) => m,
        None => configured,
    };
    if l >= 1 {
        l
    } else {
        1
    }
}

/// The outcome of a task that never ran (its worktree or runtime could not
/// be set up, or its worker died): failed, exit code -1, no time spent.
pub fn failed_outcome(task_id: String, reason: String) -> (o: TaskOutcome)
    ensures
        o.task_id == task_id,
        !o.succeeded,
        o.exit_code == -1,
        o.duration_ms == 0,
        o.failure_reason == Some(reason),
{
    TaskOutcome {
        task_id,
        succeeded: false,
        exit_code: -1,
        duration_ms: 0,
        failure_reason: Some(reason),
    }
}

/// The outcome of a task that ran: its id, and the run's success, exit
/// code, duration in whole milliseconds (cut to 64 bits) and failure reason.
pub fn outcome_from_result(task_id: &String, result: &TaskResult) -> (o: TaskOutcome)
    ensures
        o.task_id@ == task_id@,
        o.succeeded == result.succeeded,
        o.exit_code == result.exit_code,
        o.duration_ms == millis_of(result.duration) as u64,
        forall|m: u64| result.duration == duration_of_millis(m) ==> o.duration_ms == m,
        o.failure_reason == result.failure_reason,
{
    TaskOutcome {
        task_id: task_id.clone(),
        succeeded: result.succeeded,
        exit_code: result.exit_code,
        duration_ms: duration_as_millis(&result.duration),
        failure_reason: result.failure_reason.clone(),
    }
}

/// A failed run as written to the caselog.
#[derive(Debug, Clone)]
pub struct OrchestratorFailure {
    pub ts: String,
    pub source: &'static str,
    pub task_id: String,
    pub reason: Option<String>,
    pub stderr_excerpt: String,
    pub duration_ms: u64,
}

/// The caselog record of a failed run at time `ts`: the source
/// `orchestrator`, the task id, the reason, and the last 1000 bytes of
/// stderr.
pub fn failure_record(ts: String, task_id: &str, result: &TaskResult) -> (r: OrchestratorFailure)
    ensures
        r.ts == ts,
        r.source@ == "orchestrator"@,
        r.task_id@ == task_id@,
        r.reason == result.failure_reason,
        r.stderr_excerpt@ == tail_within(result.stderr@, 1000),
        r.duration_ms == millis_of(result.duration) as u64,
        forall|m: u64| result.duration == duration_of_millis(m) ==> r.duration_ms == m,
{
    OrchestratorFailure {
        ts,
        source: "orchestrator",
        task_id: task_id.to_owned(),
        reason: result.failure_reason.clone(),
        stderr_excerpt: result.stderr_tail(1000),
        duration_ms: duration_as_millis(&result.duration),
    }
}

/// The index of the first task with this id, or `usize::MAX` when none has
/// it.
pub open spec fn position_from(tasks: Seq<Task>, id: Seq<char>, i: int) -> int
    decreases tasks.len() - i,
{
    if i < 0 || i >= tasks.len() {
        usize::MAX as int
    } else if tasks[i].id@ == id {
        i
    } else {
        position_from(tasks, id, i + 1)
    }
}

/// Where an outcome belongs in its wave: the position of its task.
pub open spec fn outcome_key(tasks: Seq<Task>, o: TaskOutcome) -> int {
    position_from(tasks, o.task_id@, 0)
}

/// `x` inserted into `s` after the last element whose key is not greater.
pub open spec fn insert_by_key(tasks: Seq<Task>, s: Seq<TaskOutcome>, x: TaskOutcome) -> Seq<
    TaskOutcome,
>
    decreases s.len(),
{
    if s.len() == 0 {
        seq![x]
    } else if outcome_key(tasks, s.last()) <= outcome_key(tasks, x) {
        s.push(x)
    } else {
        insert_by_key(tasks, s.drop_last(), x).push(s.last())
    }
}

/// The outcomes stably sorted by task position (outcomes of unknown tasks
/// last, in the order they came).
pub open spec fn sorted_outcomes(tasks: Seq<Task>, xs: Seq<TaskOutcome>) -> Seq<TaskOutcome>
    decreases xs.len(),
{
    if xs.len() == 0 {
        Seq::empty()
    } else {
        insert_by_key(tasks, sorted_outcomes(tasks, xs.drop_last()), xs.last())
    }
}

/// Keys never decrease along `s`.
pub open spec fn keys_sorted(tasks: Seq<Task>, s: Seq<TaskOutcome>) -> bool {
    forall|i: int, j: int|
        0 <= i <= j < s.len() ==> outcome_key(tasks, #[trigger] s[i]) <= outcome_key(
            tasks,
            #[trigger] s[j],
        )
}

proof fn lemma_insert_sorted(tasks: Seq<Task>, s: Seq<TaskOutcome>, x: TaskOutcome)
    requires
        keys_sorted(tasks, s),
    ensures
        keys_sorted(tasks, insert_by_key(tasks, s, x)),
        insert_by_key(tasks, s, x).to_multiset() == s.to_multiset().insert(x),
        insert_by_key(tasks, s, x).len() == s.len() + 1,
        s.len() > 0 ==> insert_by_key(tasks, s, x).last() == if outcome_key(tasks, s.last())
            <= outcome_key(tasks, x) {
            x
        } else {
            s.last()
        },
    decreases s.len(),
{
    broadcast use vstd::seq_lib::group_to_multiset_ensures;

    if s.len() == 0 {
        assert(seq![x] =~= Seq::<TaskOutcome>::empty().push(x));
    } else if outcome_key(tasks, s.last()) <= outcome_key(tasks, x) {
    } else {
        let p = s.drop_last();
        assert forall|i: int, j: int| 0 <= i <= j < p.len() implies outcome_key(
            tasks,
            #[trigger] p[i],
        ) <= outcome_key(tasks, #[trigger] p[j]) by {
            assert(p[i] == s[i]);
            assert(p[j] == s[j]);
        }
        lemma_insert_sorted(tasks, p, x);
        let q = insert_by_key(tasks, p, x);
        let r = q.push(s.last());
        assert(s =~= p.push(s.last()));
        assert forall|i: int, j: int| 0 <= i <= j < r.len() implies outcome_key(
            tasks,
            #[trigger] r[i],
        ) <= outcome_key(tasks, #[trigger] r[j]) by {
            if j == r.len() - 1 {
                if i < r.len() - 1 {
                    // every element of q is x or an element of p, all keyed
                    // at most the last key of s
                    assert(r[i] == q[i]);
                    lemma_elements_bounded(tasks, p, x, s.last(), i);
                }
            } else {
                assert(r[i] == q[i]);
                assert(r[j] == q[j]);
            }
        }
    }
}

proof fn lemma_elements_bounded(
    tasks: Seq<Task>,
    p: Seq<TaskOutcome>,
    x: TaskOutcome,
    top: TaskOutcome,
    i: int,
)
    requires
        forall|k: int| 0 <= k < p.len() ==> outcome_key(tasks, #[trigger] p[k]) <= outcome_key(
            tasks,
            top,
        ),
        outcome_key(tasks, x) < outcome_key(tasks, top),
        0 <= i < insert_by_key(tasks, p, x).len(),
    ensures
        outcome_key(tasks, insert_by_key(tasks, p, x)[i]) <= outcome_key(tasks, top),
    decreases p.len(),
{
    if p.len() == 0 {
    } else if outcome_key(tasks, p.last()) <= outcome_key(tasks, x) {
        if i < p.len() {
            assert(p.push(x)[i] == p[i]);
        }
    } else {
        let pp = p.drop_last();
        lemma_insert_len(tasks, pp, x);
        if i < insert_by_key(tasks, pp, x).len() {
            assert forall|k: int| 0 <= k < pp.len() implies outcome_key(
                tasks,
                #[trigger] pp[k],
            ) <= outcome_key(tasks, top) by {
                assert(pp[k] == p[k]);
            }
            lemma_elements_bounded(tasks, pp, x, top, i);
        } else {
            assert(p[p.len() - 1] == p.last());
        }
    }
}

proof fn lemma_insert_len(tasks: Seq<Task>, s: Seq<TaskOutcome>, x: TaskOutcome)
    ensures
        insert_by_key(tasks, s, x).len() == s.len() + 1,
    decreases s.len(),
{
    if s.len() > 0 && outcome_key(tasks, s.last()) > outcome_key(tasks, x) {
        lemma_insert_len(tasks, s.drop_last(), x);
    }
}

/// The wave order of outcomes is sorted by task position and holds exactly
/// the outcomes it was given.
pub proof fn lemma_sorted_outcomes_sorted_permutation(tasks: Seq<Task>, xs: Seq<TaskOutcome>)
    ensures
        keys_sorted(tasks, sorted_outcomes(tasks, xs)),
        sorted_outcomes(tasks, xs).to_multiset() == xs.to_multiset(),
    decreases xs.len(),
{
    broadcast use vstd::seq_lib::group_to_multiset_ensures;

    if xs.len() > 0 {
        lemma_sorted_outcomes_sorted_permutation(tasks, xs.drop_last());
        lemma_insert_sorted(tasks, sorted_outcomes(tasks, xs.drop_last()), xs.last());
        assert(xs =~= xs.drop_last().push(xs.last()));
    }
}

/// The position of the task with this id in `tasks`, or `usize::MAX`.
fn task_position(tasks: &Vec<Task>, id: &String) -> (p: usize)
    ensures
        p as int == position_from(tasks@, id@, 0),
{
    let mut i: usize = 0;
    while i < tasks.len()
        invariant
            i <= tasks@.len(),
            position_from(tasks@, id@, 0) == position_from(tasks@, id@, i as int),
        decreases tasks@.len() - i,
    {
        if tasks[i].id == *id {
            return i;
        }
        i += 1;
    }
    usize::MAX
}

proof fn lemma_insert_split(tasks: Seq<Task>, s: Seq<TaskOutcome>, x: TaskOutcome, j: int)
    requires
        0 <= j <= s.len(),
        forall|k: int| j <= k < s.len() ==> outcome_key(tasks, #[trigger] s[k]) > outcome_key(tasks, x),
    ensures
        insert_by_key(tasks, s, x) == insert_by_key(tasks, s.take(j), x) + s.skip(j),
    decreases s.len(),
{
    if j == s.len() {
        assert(s.take(j) =~= s);
        assert(s.skip(j) =~= Seq::<TaskOutcome>::empty());
        assert(insert_by_key(tasks, s, x) + Seq::<TaskOutcome>::empty() =~= insert_by_key(tasks, s, x));
    } else {
        let p = s.drop_last();
        assert(outcome_key(tasks, s[s.len() - 1]) > outcome_key(tasks, x));
        lemma_insert_split(tasks, p, x, j);
        assert(p.take(j) =~= s.take(j));
        assert(s.skip(j) =~= p.skip(j).push(s.last()));
        assert(insert_by_key(tasks, s, x) =~= insert_by_key(tasks, s.take(j), x) + s.skip(j));
    }
}

/// Puts a wave's outcomes in task order: stably sorted by the position of
/// each outcome's task in the wave (outcomes of unknown tasks go last).
pub fn order_outcomes(wave: &Wave, outcomes: Vec<TaskOutcome>) -> (r: Vec<TaskOutcome>)
    ensures
        r@ == sorted_outcomes(wave.tasks@, outcomes@),
{
    let ghost tasks = wave.tasks@;
    let ghost orig = outcomes@;
    let n = outcomes.len();
    let mut rest = outcomes;
    let mut res: Vec<TaskOutcome> = Vec::new();
    let mut keys: Vec<usize> = Vec::new();
    let mut i: usize = 0;
    assert(orig.skip(0) =~= orig);
    assert(orig.take(0) =~= Seq::<TaskOutcome>::empty());
    while rest.len() > 0
        invariant
            tasks == wave.tasks@,
            n == orig.len(),
            i <= orig.len(),
            rest@ == orig.skip(i as int),
            res@ == sorted_outcomes(tasks, orig.take(i as int)),
            keys@.len() == res@.len(),
            forall|k: int|
                0 <= k < res@.len() ==> keys@[k] as int == outcome_key(tasks, #[trigger] res@[k]),
        decreases rest@.len(),
    {
        let x = rest.remove(0);
        assert(x == orig[i as int]);
        assert(orig.skip(i as int).remove(0) =~= orig.skip(i + 1));
        let kx = task_position(&wave.tasks, &x.task_id);
        let mut j: usize = res.len();
        while j > 0 && keys[j - 1] > kx
            invariant
                tasks == wave.tasks@,
                j <= res@.len(),
                keys@.len() == res@.len(),
                kx as int == outcome_key(tasks, x),
                forall|k: int|
                    0 <= k < res@.len() ==> keys@[k] as int == outcome_key(tasks, #[trigger] res@[k]),
                forall|k: int| j <= k < res@.len() ==> outcome_key(tasks, #[trigger] res@[k]) > kx,
            decreases j,
        {
            assert(keys@[j - 1] as int == outcome_key(tasks, res@[j - 1]));
            j -= 1;
        }
        proof {
            lemma_insert_split(tasks, res@, x, j as int);
            let t = res@.take(j as int);
            if j > 0 {
                assert(t.last() == res@[j - 1]);
                assert(keys@[j - 1] as int == outcome_key(tasks, res@[j - 1]));
                assert(insert_by_key(tasks, t, x) == t.push(x));
            } else {
                assert(insert_by_key(tasks, t, x) =~= t.push(x));
            }
            assert(res@.insert(j as int, x) =~= t.push(x) + res@.skip(j as int));
            assert(orig.take(i + 1).drop_last() =~= orig.take(i as int));
            assert(orig.take(i + 1).last() == x);
        }
        let ghost old_res = res@;
        let ghost old_keys = keys@;
        res.insert(j, x);
        keys.insert(j, kx);
        proof {
            assert forall|k: int| 0 <= k < res@.len() implies keys@[k] as int == outcome_key(
                tasks,
                #[trigger] res@[k],
            ) by {
                if k < j {
                    assert(res@[k] == old_res[k]);
                    assert(keys@[k] == old_keys[k]);
                } else if k > j {
                    assert(res@[k] == old_res[k - 1]);
                    assert(keys@[k] == old_keys[k - 1]);
                }
            }
        }
        i += 1;
    }
    assert(orig.take(i as int) =~= orig);
    res
}

} // verus!
