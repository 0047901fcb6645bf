//! `plan.json`: a wave-based execution plan. Tasks of one wave run in
//! parallel, waves run one after another. Two tasks of the same wave may
//! not touch the same file (that would invite merge conflicts), and task
//! ids are unique across the whole plan.

use vstd::prelude::*;

use crate::text::{decimal, push_decimal, push_str};

verus! {

/// One unit of work, run by one agent session in its own worktree.
#[derive(Debug, Clone)]
pub struct Task {
    pub id: String,
    pub description: String,
    pub prompt: String,
    pub files_affected: Vec<String>,
    pub depends_on: Vec<String>,
    pub timeout_seconds: Option<u64>,
}

/// A set of tasks that run concurrently.
#[derive(Debug, Clone)]
pub struct Wave {
    pub id: String,
    pub description: String,
    pub tasks: Vec<Task>,
    pub max_concurrent: Option<usize>,
}

/// A whole plan (format version 1).
#[derive(Debug, Clone)]
pub struct Plan {
    pub version: u32,
    pub title: String,
    pub waves: Vec<Wave>,
}

/// What is wrong with a plan, as plain values.
pub enum PlanViolation {
    UnsupportedVersion(u32),
    NoWaves,
    EmptyTaskId(Seq<char>),
    DuplicateTaskId(Seq<char>),
    FileConflict(Seq<char>, Seq<char>),
}

/// Why a plan was rejected.
#[derive(Debug, Clone, PartialEq, Eq)]
pub enum PlanError {
    /// `version` is not 1.
    UnsupportedVersion(u32),
    /// The plan has no waves.
    NoWaves,
    /// A task of this wave has an empty id.
    EmptyTaskId { wave: String },
    /// A repeated task id.
    DuplicateTaskId { task: String },
    /// This file is claimed by two tasks of this wave.
    FileConflict { wave: String, file: String },
}

impl View for PlanError {
    type V = PlanViolation;

    open spec fn view(&self) -> PlanViolation {
        match self {
            PlanError::UnsupportedVersion(v) => PlanViolation::UnsupportedVersion(*v),
            PlanError::NoWaves => PlanViolation::NoWaves,
            PlanError::EmptyTaskId { wave } => PlanViolation::EmptyTaskId(wave@),
            PlanError::DuplicateTaskId { task } => PlanViolation::DuplicateTaskId(task@),
            PlanError::FileConflict { wave, file } => PlanViolation::FileConflict(wave@, file@),
        }
    }
}

/// A task with id `id` stands before position `(w, t)` in plan order.
pub open spec fn id_seen_before(waves: Seq<Wave>, w: int, t: int, id: Seq<char>) -> bool {
    exists|w2: int, t2: int|
        0 <= w2 <= w && 0 <= t2 < waves[w2].tasks@.len() && (w2 < w || t2 < t)
            && #[trigger] waves[w2].tasks@[t2].id@ == id
}

/// File `f` is claimed before file `k` of task `t`, within one wave.
pub open spec fn file_seen_before(tasks: Seq<Task>, t: int, k: int, f: Seq<char>) -> bool {
    exists|t2: int, k2: int|
        0 <= t2 <= t && 0 <= k2 < tasks[t2].files_affected@.len() && (t2 < t || k2 < k)
            && #[trigger] tasks[t2].files_affected@[k2]@ == f
}

/// The first file of task `t`, from index `k` on, already claimed earlier
/// in the wave.
pub open spec fn conflict_from(tasks: Seq<Task>, t: int, k: int) -> Option<Seq<char>>
    decreases tasks[t].files_affected@.len() - k,
{
    if k < 0 || k >= tasks[t].files_affected@.len() {
        None
    } else if file_seen_before(tasks, t, k, tasks[t].files_affected@[k]@) {
        Some(tasks[t].files_affected@[k]@)
    } else {
        conflict_from(tasks, t, k + 1)
    }
}

/// What is wrong with task `t` of wave `w`, checked in this order: an empty
/// id, an id seen before, a file claimed twice in the wave.
pub open spec fn task_fault(waves: Seq<Wave>, w: int, t: int) -> Option<PlanViolation> {
    let wave = waves[w];
    let task = wave.tasks@[t];
    if task.id@.len() == 0 {
        Some(PlanViolation::EmptyTaskId(wave.id@))
    } else if id_seen_before(waves, w, t, task.id@) {
        Some(PlanViolation::DuplicateTaskId(task.id@))
    } else {
        match conflict_from(wave.tasks@, t, 0) {
            Some(f) => Some(PlanViolation::FileConflict(wave.id@, f)),
            None => None,
        }
    }
}

/// The first task fault at or after position `(w, t)`, in plan order.
pub open spec fn fault_from(waves: Seq<Wave>, w: int, t: int) -> Option<PlanViolation>
    decreases waves.len() - w, (if 0 <= w < waves.len() {
        waves[w].tasks@.len() - t
    } else {
        0
    }),
{
    if w < 0 || w >= waves.len() {
        None
    } else if t < 0 || t >= waves[w].tasks@.len() {
        fault_from(waves, w + 1, 0)
    } else {
        match task_fault(waves, w, t) {
            Some(v) => Some(v),
            None => fault_from(waves, w, t + 1),
        }
    }
}

/// The first thing wrong with a plan, or `None` for a valid plan.
pub open spec fn plan_fault(plan: Plan) -> Option<PlanViolation> {
    if plan.version != 1 {
        Some(PlanViolation::UnsupportedVersion(plan.version))
    } else if plan.waves@.len() == 0 {
        Some(PlanViolation::NoWaves)
    } else {
        fault_from(plan.waves@, 0, 0)
    }
}

/// The message of a plan error.
pub open spec fn violation_text(v: PlanViolation) -> Seq<char> {
    match v {
        PlanViolation::UnsupportedVersion(n) => "unsupported plan version "@ + decimal(n as nat)
            + " (expected 1)"@,
        PlanViolation::NoWaves => "plan has no waves"@,
        PlanViolation::EmptyTaskId(w) => "wave "@ + w + " contains a task with empty id"@,
        PlanViolation::DuplicateTaskId(t) => "duplicate task id "@ + t,
        PlanViolation::FileConflict(w, f) => "wave "@ + w + " has conflicting file "@ + f
            + " in multiple tasks"@,
    }
}

impl PlanError {
    /// The error message.
    pub fn to_string(&self) -> (s: String)
        ensures
            s@ == violation_text(self@),
    {
        let mut s = String::new();
        match self {
            PlanError::UnsupportedVersion(v) => {
                push_str(&mut s, "unsupported plan version ");
                push_decimal(&mut s, *v as u64);
                push_str(&mut s, " (expected 1)");
            },
            PlanError::NoWaves => {
                push_str(&mut s, "plan has no waves");
            },
            PlanError::EmptyTaskId { wave } => {
                push_str(&mut s, "wave ");
                push_str(&mut s, wave.as_str());
                push_str(&mut s, " contains a task with empty id");
            },
            PlanError::DuplicateTaskId { task } => {
                push_str(&mut s, "duplicate task id ");
                push_str(&mut s, task.as_str());
            },
            PlanError::FileConflict { wave, file } => {
                push_str(&mut s, "wave ");
                push_str(&mut s, wave.as_str());
                push_str(&mut s, " has conflicting file ");
                push_str(&mut s, file.as_str());
                push_str(&mut s, " in multiple tasks");
            },
        }
        proof {
            reveal_strlit("unsupported plan version ");
            reveal_strlit(" (expected 1)");
            reveal_strlit("plan has no waves");
            reveal_strlit("wave ");
            reveal_strlit(" contains a task with empty id");
            reveal_strlit("duplicate task id ");
            reveal_strlit(" has conflicting file ");
            reveal_strlit(" in multiple tasks");
        }
        assert(s@ =~= violation_text(self@));
        s
    }
}

/// Whether some string of `v` equals `s`.
fn contains_string(v: &Vec<String>, s: &String) -> (b: bool)
    ensures
        b == exists|i: int| 0 <= i < v@.len() && #[trigger] v@[i]@ == s@,
{
    let mut i: usize = 0;
    while i < v.len()
        invariant
            i <= v@.len(),
            forall|j: int| 0 <= j < i ==> v@[j]@ != s@,
        decreases v@.len() - i,
    {
        if v[i] == *s {
            return true;
        }
        i += 1;
    }
    false
}

/// Checks a plan: version 1, at least one wave, non-empty and unique task
/// ids, and no file claimed by two tasks of one wave. The first problem
/// in plan order is reported.
pub fn validate_plan(plan: &Plan) -> (r: Result<(), PlanError>)
    ensures
        match plan_fault(*plan) {
            None => r is Ok,
            Some(v) => r matches Err(e) && e@ == v,
        },
{
    if plan.version != 1 {
        return Err(PlanError::UnsupportedVersion(plan.version));
    }
    if plan.waves.len() == 0 {
        return Err(PlanError::NoWaves);
    }
    let ghost waves = plan.waves@;
    let mut seen_ids: Vec<String> = Vec::new();
    let mut w: usize = 0;
    while w < plan.waves.len()
        invariant
            waves == plan.waves@,
            plan.version == 1,
            waves.len() > 0,
            w <= waves.len(),
            fault_from(waves, 0, 0) == fault_from(waves, w as int, 0),
            forall|id: Seq<char>|
                (exists|i: int| 0 <= i < seen_ids@.len() && #[trigger] seen_ids@[i]@ == id)
                    <==> id_seen_before(waves, w as int, 0, id),
        decreases waves.len() - w,
    {
        let wave = &plan.waves[w];
        let ghost tasks = wave.tasks@;
        let mut wave_files: Vec<String> = Vec::new();
        let mut t: usize = 0;
        while t < wave.tasks.len()
            invariant
                waves == plan.waves@,
                plan.version == 1,
                w < waves.len(),
                *wave == waves[w as int],
                tasks == wave.tasks@,
                t <= tasks.len(),
                fault_from(waves, 0, 0) == fault_from(waves, w as int, t as int),
                forall|id: Seq<char>|
                    (exists|i: int| 0 <= i < seen_ids@.len() && #[trigger] seen_ids@[i]@ == id)
                        <==> id_seen_before(waves, w as int, t as int, id),
                forall|f: Seq<char>|
                    (exists|i: int| 0 <= i < wave_files@.len() && #[trigger] wave_files@[i]@ == f)
                        <==> file_seen_before(tasks, t as int, 0, f),
            decreases tasks.len() - t,
        {
            let task = &wave.tasks[t];
            if task.id.as_str().is_empty() {
                assert(fault_from(waves, w as int, t as int) == Some(
                    PlanViolation::EmptyTaskId(wave.id@),
                ));
                return Err(PlanError::EmptyTaskId { wave: wave.id.clone() });
            }
            if contains_string(&seen_ids, &task.id) {
                assert(id_seen_before(waves, w as int, t as int, task.id@));
                assert(fault_from(waves, w as int, t as int) == Some(
                    PlanViolation::DuplicateTaskId(task.id@),
                ));
                return Err(PlanError::DuplicateTaskId { task: task.id.clone() });
            }
            assert(!id_seen_before(waves, w as int, t as int, task.id@));
            let ghost files = task.files_affected@;
            let mut k: usize = 0;
            while k < task.files_affected.len()
                invariant
                    waves == plan.waves@,
                    plan.version == 1,
                    w < waves.len(),
                    *wave == waves[w as int],
                    tasks == wave.tasks@,
                    t < tasks.len(),
                    *task == tasks[t as int],
                    files == task.files_affected@,
                    k <= files.len(),
                    task.id@.len() > 0,
                    !id_seen_before(waves, w as int, t as int, task.id@),
                    fault_from(waves, 0, 0) == fault_from(waves, w as int, t as int),
                    conflict_from(tasks, t as int, 0) == conflict_from(tasks, t as int, k as int),
                    forall|f: Seq<char>|
                        (exists|i: int|
                            0 <= i < wave_files@.len() && #[trigger] wave_files@[i]@ == f)
                            <==> file_seen_before(tasks, t as int, k as int, f),
                decreases files.len() - k,
            {
                let f = &task.files_affected[k];
                if contains_string(&wave_files, f) {
                    proof {
                        let i = choose|i: int|
                            0 <= i < wave_files@.len() && #[trigger] wave_files@[i]@ == f@;
                        assert(file_seen_before(tasks, t as int, k as int, f@));
                        assert(conflict_from(tasks, t as int, k as int) == Some(f@));
                        assert(fault_from(waves, w as int, t as int) == Some(
                            PlanViolation::FileConflict(wave.id@, f@),
                        ));
                    }
                    return Err(PlanError::FileConflict { wave: wave.id.clone(), file: f.clone() });
                }
                proof {
                    if file_seen_before(tasks, t as int, k as int, f@) {
                        let (t2, k2) = choose|t2: int, k2: int|
                            0 <= t2 <= t && 0 <= k2 < tasks[t2].files_affected@.len() && (t2 < t
                                || k2 < k) && #[trigger] tasks[t2].files_affected@[k2]@ == f@;
                        assert(false);
                    }
                }
                let ghost old_files = wave_files@;
                wave_files.push(f.clone());
                proof {
                    assert forall|g: Seq<char>|
                        (exists|i: int|
                            0 <= i < wave_files@.len() && #[trigger] wave_files@[i]@ == g)
                            <==> #[trigger] file_seen_before(tasks, t as int, k + 1, g) by {
                        if exists|i: int| 0 <= i < wave_files@.len() && #[trigger] wave_files@[i]@ == g {
                            let i = choose|i: int|
                                0 <= i < wave_files@.len() && #[trigger] wave_files@[i]@ == g;
                            if i < old_files.len() {
                                assert(old_files[i]@ == g);
                                assert(file_seen_before(tasks, t as int, k as int, g));
                                let (t2, k2) = choose|t2: int, k2: int|
                                    0 <= t2 <= t && 0 <= k2 < tasks[t2].files_affected@.len()
                                        && (t2 < t || k2 < k)
                                        && #[trigger] tasks[t2].files_affected@[k2]@ == g;
                                assert(tasks[t2].files_affected@[k2]@ == g);
                            } else {
                                assert(tasks[t as int].files_affected@[k as int]@ == g);
                            }
                        }
                        if file_seen_before(tasks, t as int, k + 1, g) {
                            let (t2, k2) = choose|t2: int, k2: int|
                                0 <= t2 <= t && 0 <= k2 < tasks[t2].files_affected@.len() && (t2
                                    < t || k2 < k + 1) && #[trigger] tasks[t2].files_affected@[k2]@
                                    == g;
                            if t2 < t || k2 < k {
                                assert(file_seen_before(tasks, t as int, k as int, g));
                                let i = choose|i: int|
                                    0 <= i < old_files.len() && #[trigger] old_files[i]@ == g;
                                assert(wave_files@[i]@ == g);
                            } else {
                                assert(wave_files@[old_files.len() as int]@ == g);
                            }
                        }
                    }
                }
                k += 1;
            }
            proof {
                assert(conflict_from(tasks, t as int, k as int) is None);
                assert(task_fault(waves, w as int, t as int) is None);
                assert forall|g: Seq<char>|
                    #![trigger file_seen_before(tasks, t as int, k as int, g)]
                    #![trigger file_seen_before(tasks, t + 1, 0, g)]
                    file_seen_before(tasks, t as int, k as int, g) <==> file_seen_before(
                        tasks,
                        t + 1,
                        0,
                        g,
                    ) by {
                    if file_seen_before(tasks, t as int, k as int, g) {
                        let (t2, k2) = choose|t2: int, k2: int|
                            0 <= t2 <= t && 0 <= k2 < tasks[t2].files_affected@.len() && (t2 < t
                                || k2 < k) && #[trigger] tasks[t2].files_affected@[k2]@ == g;
                        assert(tasks[t2].files_affected@[k2]@ == g);
                    }
                    if file_seen_before(tasks, t + 1, 0, g) {
                        let (t2, k2) = choose|t2: int, k2: int|
                            0 <= t2 <= t + 1 && 0 <= k2 < tasks[t2].files_affected@.len() && (t2
                                < t + 1 || k2 < 0) && #[trigger] tasks[t2].files_affected@[k2]@
                                == g;
                        assert(tasks[t2].files_affected@[k2]@ == g);
                    }
                }
            }
            let ghost old_ids = seen_ids@;
            seen_ids.push(task.id.clone());
            proof {
                assert forall|id: Seq<char>|
                    (exists|i: int| 0 <= i < seen_ids@.len() && #[trigger] seen_ids@[i]@ == id)
                        <==> #[trigger] id_seen_before(waves, w as int, t + 1, id) by {
                    if exists|i: int| 0 <= i < seen_ids@.len() && #[trigger] seen_ids@[i]@ == id {
                        let i = choose|i: int|
                            0 <= i < seen_ids@.len() && #[trigger] seen_ids@[i]@ == id;
                        if i < old_ids.len() {
                            assert(old_ids[i]@ == id);
                            assert(id_seen_before(waves, w as int, t as int, id));
                            let (w2, t2) = choose|w2: int, t2: int|
                                0 <= w2 <= w && 0 <= t2 < waves[w2].tasks@.len() && (w2 < w || t2
                                    < t) && #[trigger] waves[w2].tasks@[t2].id@ == id;
                            assert(waves[w2].tasks@[t2].id@ == id);
                        } else {
                            assert(waves[w as int].tasks@[t as int].id@ == id);
                        }
                    }
                    if id_seen_before(waves, w as int, t + 1, id) {
                        let (w2, t2) = choose|w2: int, t2: int|
                            0 <= w2 <= w && 0 <= t2 < waves[w2].tasks@.len() && (w2 < w || t2 < t
                                + 1) && #[trigger] waves[w2].tasks@[t2].id@ == id;
                        if w2 < w || t2 < t {
                            assert(id_seen_before(waves, w as int, t as int, id));
                            let i = choose|i: int|
                                0 <= i < old_ids.len() && #[trigger] old_ids[i]@ == id;
                            assert(seen_ids@[i]@ == id);
                        } else {
                            assert(seen_ids@[old_ids.len() as int]@ == id);
                        }
                    }
                }
            }
            t += 1;
        }
        proof {
            assert forall|id: Seq<char>|
                #![trigger id_seen_before(waves, w as int, t as int, id)]
                #![trigger id_seen_before(waves, w + 1, 0, id)]
                id_seen_before(waves, w as int, t as int, id) <==> id_seen_before(
                    waves,
                    w + 1,
                    0,
                    id,
                ) by {
                if id_seen_before(waves, w as int, t as int, id) {
                    let (w2, t2) = choose|w2: int, t2: int|
                        0 <= w2 <= w && 0 <= t2 < waves[w2].tasks@.len() && (w2 < w || t2 < t)
                            && #[trigger] waves[w2].tasks@[t2].id@ == id;
                    assert(waves[w2].tasks@[t2].id@ == id);
                }
                if id_seen_before(waves, w + 1, 0, id) {
                    let (w2, t2) = choose|w2: int, t2: int|
                        0 <= w2 <= w + 1 && 0 <= t2 < waves[w2].tasks@.len() && (w2 < w + 1 || t2
                            < 0) && #[trigger] waves[w2].tasks@[t2].id@ == id;
                    assert(waves[w2].tasks@[t2].id@ == id);
                }
            }
        }
        w += 1;
    }
    Ok(())
}


proof fn lemma_no_fault_at(waves: Seq<Wave>, w: int, t: int, w2: int, t2: int)
    requires
        fault_from(waves, w, t) is None,
        0 <= w,
        0 <= t,
        w < w2 || (w == w2 && t <= t2),
        0 <= w2 < waves.len(),
        0 <= t2 < waves[w2].tasks@.len(),
    ensures
        task_fault(waves, w2, t2) is None,
    decreases waves.len() - w, (if 0 <= w < waves.len() {
        waves[w].tasks@.len() - t
    } else {
        0
    }),
{
    if t >= waves[w].tasks@.len() {
        lemma_no_fault_at(waves, w + 1, 0, w2, t2);
    } else if w == w2 && t == t2 {
    } else {
        lemma_no_fault_at(waves, w, t + 1, w2, t2);
    }
}

proof fn lemma_no_conflict_at(tasks: Seq<Task>, t: int, k: int, k2: int)
    requires
        0 <= k <= k2 < tasks[t].files_affected@.len(),
        conflict_from(tasks, t, k) is None,
    ensures
        !file_seen_before(tasks, t, k2, tasks[t].files_affected@[k2]@),
    decreases k2 - k,
{
    if k < k2 {
        lemma_no_conflict_at(tasks, t, k + 1, k2);
    }
}

/// What validation guarantees of a plan: version 1, at least one wave,
/// every task id non-empty, no task id used twice anywhere in the plan, and
/// no file claimed twice within a wave (by two tasks, or twice by one).
pub proof fn lemma_valid_plan_properties(plan: Plan)
    requires
        plan_fault(plan) is None,
    ensures
        plan.version == 1,
        plan.waves@.len() > 0,
        forall|w: int, t: int|
            0 <= w < plan.waves@.len() && 0 <= t < plan.waves@[w].tasks@.len()
                ==> (#[trigger] plan.waves@[w].tasks@[t]).id@.len() > 0,
        forall|w1: int, t1: int, w2: int, t2: int|
            0 <= w1 < plan.waves@.len() && 0 <= t1 < plan.waves@[w1].tasks@.len() && 0 <= w2
                < plan.waves@.len() && 0 <= t2 < plan.waves@[w2].tasks@.len() && (w1 < w2 || (w1
                == w2 && t1 < t2)) ==> (#[trigger] plan.waves@[w1].tasks@[t1]).id@ != (
            #[trigger] plan.waves@[w2].tasks@[t2]).id@,
        forall|w: int, t1: int, k1: int, t2: int, k2: int|
            0 <= w < plan.waves@.len() && 0 <= t1 < plan.waves@[w].tasks@.len() && 0 <= t2
                < plan.waves@[w].tasks@.len() && 0 <= k1
                < plan.waves@[w].tasks@[t1].files_affected@.len() && 0 <= k2
                < plan.waves@[w].tasks@[t2].files_affected@.len() && (t1 < t2 || (t1 == t2 && k1
                < k2)) ==> (#[trigger] plan.waves@[w].tasks@[t1].files_affected@[k1])@ != (
            #[trigger] plan.waves@[w].tasks@[t2].files_affected@[k2])@,
{
    let waves = plan.waves@;
    assert forall|w: int, t: int|
        0 <= w < waves.len() && 0 <= t < waves[w].tasks@.len() implies (
        #[trigger] waves[w].tasks@[t]).id@.len() > 0 by {
        lemma_no_fault_at(waves, 0, 0, w, t);
    }
    assert forall|w1: int, t1: int, w2: int, t2: int|
        0 <= w1 < waves.len() && 0 <= t1 < waves[w1].tasks@.len() && 0 <= w2 < waves.len() && 0
            <= t2 < waves[w2].tasks@.len() && (w1 < w2 || (w1 == w2 && t1 < t2)) implies (
        #[trigger] waves[w1].tasks@[t1]).id@ != (#[trigger] waves[w2].tasks@[t2]).id@ by {
        lemma_no_fault_at(waves, 0, 0, w2, t2);
        if waves[w1].tasks@[t1].id@ == waves[w2].tasks@[t2].id@ {
            assert(id_seen_before(waves, w2, t2, waves[w2].tasks@[t2].id@));
        }
    }
    assert forall|w: int, t1: int, k1: int, t2: int, k2: int|
        0 <= w < waves.len() && 0 <= t1 < waves[w].tasks@.len() && 0 <= t2
            < waves[w].tasks@.len() && 0 <= k1 < waves[w].tasks@[t1].files_affected@.len() && 0
            <= k2 < waves[w].tasks@[t2].files_affected@.len() && (t1 < t2 || (t1 == t2 && k1
            < k2)) implies (#[trigger] waves[w].tasks@[t1].files_affected@[k1])@ != (
        #[trigger] waves[w].tasks@[t2].files_affected@[k2])@ by {
        let tasks = waves[w].tasks@;
        lemma_no_fault_at(waves, 0, 0, w, t2);
        assert(conflict_from(tasks, t2, 0) is None);
        lemma_no_conflict_at(tasks, t2, 0, k2);
        if tasks[t1].files_affected@[k1]@ == tasks[t2].files_affected@[k2]@ {
            assert(file_seen_before(tasks, t2, k2, tasks[t2].files_affected@[k2]@));
        }
    }
}

} // verus!
