use std::path::PathBuf;
use std::time::Duration;

use myth::orchestrator::executor::{
    concurrency_limit, effective_timeout, failed_outcome, failure_record, order_outcomes,
    outcome_from_result,
};
use myth::orchestrator::plan::{validate_plan, Plan, PlanError, Task, Wave};
use myth::orchestrator::report::{ExecutionReport, TaskOutcome, WaveResult};
use myth::orchestrator::squad::squad_session_name;
use myth::orchestrator::watchdog::{is_completion_signal, monitor_step, MonitorStep, Watchdog, WatchdogResult};
use myth::orchestrator::worktree::{classify_merge, task_branch, MergeResult, Worktree};
use myth::orchestrator::{Orchestrator, OrchestratorConfig};
use myth::runtime::task::TaskResult;

fn mk_task(id: &str, files: &[&str]) -> Task {
    Task {
        id: id.to_string(),
        description: String::new(),
        prompt: "p".into(),
        files_affected: files.iter().map(|s| s.to_string()).collect(),
        depends_on: vec![],
        timeout_seconds: None,
    }
}

fn mk_wave(id: &str, tasks: Vec<Task>) -> Wave {
    Wave { id: id.to_string(), description: String::new(), tasks, max_concurrent: None }
}

// ---- config ----

#[test]
fn default_config_values() {
    let c = OrchestratorConfig::default();
    assert_eq!(c.max_concurrent, 3);
    assert_eq!(c.task_timeout, Duration::from_secs(11 * 60));
    assert_eq!(c.stale_threshold, Duration::from_secs(2 * 60));
    assert!(c.worktree_base.ends_with("worktrees"));
}

#[test]
fn orchestrator_new_stores_config() {
    let c = OrchestratorConfig::default();
    let o = Orchestrator::new(c);
    assert_eq!(o.config().max_concurrent, 3);
}

#[test]
fn config_with_explicit_base() {
    let c = OrchestratorConfig::with_worktree_base(PathBuf::from("/tmp/wt"));
    assert_eq!(c.worktree_base, PathBuf::from("/tmp/wt"));
    assert_eq!(c.task_timeout, Duration::from_secs(660));
}

// ---- plan ----

#[test]
fn valid_plan() {
    let plan = Plan {
        version: 1,
        title: "t".into(),
        waves: vec![mk_wave("w1", vec![mk_task("t1", &["a.rs"]), mk_task("t2", &["b.rs"])])],
    };
    validate_plan(&plan).unwrap();
}

#[test]
fn rejects_version_mismatch() {
    let plan = Plan { version: 2, title: "t".into(), waves: vec![mk_wave("w1", vec![mk_task("t1", &[])])] };
    assert!(validate_plan(&plan).is_err());
}

#[test]
fn rejects_empty_waves() {
    let plan = Plan { version: 1, title: "t".into(), waves: vec![] };
    assert!(validate_plan(&plan).is_err());
}

#[test]
fn rejects_file_conflict_same_wave() {
    let plan = Plan {
        version: 1,
        title: "t".into(),
        waves: vec![mk_wave("w1", vec![mk_task("t1", &["a.rs"]), mk_task("t2", &["a.rs"])])],
    };
    let err = validate_plan(&plan).unwrap_err().to_string();
    assert!(err.contains("a.rs"), "err: {err}");
}

#[test]
fn allows_same_file_across_waves() {
    let plan = Plan {
        version: 1,
        title: "t".into(),
        waves: vec![
            mk_wave("w1", vec![mk_task("t1", &["a.rs"])]),
            mk_wave("w2", vec![mk_task("t2", &["a.rs"])]),
        ],
    };
    validate_plan(&plan).unwrap();
}

#[test]
fn rejects_duplicate_task_id() {
    let plan = Plan {
        version: 1,
        title: "t".into(),
        waves: vec![
            mk_wave("w1", vec![mk_task("t1", &["a.rs"])]),
            mk_wave("w2", vec![mk_task("t1", &["b.rs"])]),
        ],
    };
    assert!(validate_plan(&plan).is_err());
}

#[test]
fn plan_errors_are_exact_and_first() {
    let plan = Plan { version: 7, title: "t".into(), waves: vec![] };
    let e = validate_plan(&plan).unwrap_err();
    assert_eq!(e, PlanError::UnsupportedVersion(7));
    assert_eq!(e.to_string(), "unsupported plan version 7 (expected 1)");
    let plan = Plan { version: 1, title: "t".into(), waves: vec![] };
    assert_eq!(validate_plan(&plan).unwrap_err().to_string(), "plan has no waves");
    let plan = Plan {
        version: 1,
        title: "t".into(),
        waves: vec![mk_wave("w9", vec![mk_task("t1", &["x"]), mk_task("", &["x"])])],
    };
    let e = validate_plan(&plan).unwrap_err();
    assert_eq!(e, PlanError::EmptyTaskId { wave: "w9".into() });
    assert_eq!(e.to_string(), "wave w9 contains a task with empty id");
    let plan = Plan {
        version: 1,
        title: "t".into(),
        waves: vec![mk_wave("w1", vec![mk_task("t1", &["x", "x"])])],
    };
    let e = validate_plan(&plan).unwrap_err();
    assert_eq!(e.to_string(), "wave w1 has conflicting file x in multiple tasks");
    let plan = Plan {
        version: 1,
        title: "t".into(),
        waves: vec![mk_wave("w1", vec![mk_task("t1", &["a"]), mk_task("t1", &["a"])])],
    };
    assert_eq!(validate_plan(&plan).unwrap_err().to_string(), "duplicate task id t1");
}

// ---- report ----

fn mk_outcome(id: &str, ok: bool, reason: Option<&str>) -> TaskOutcome {
    TaskOutcome {
        task_id: id.into(),
        succeeded: ok,
        exit_code: if ok { 0 } else { 1 },
        duration_ms: 100,
        failure_reason: reason.map(|s| s.to_string()),
    }
}

#[test]
fn counts_aggregation() {
    let mut r = ExecutionReport::new();
    r.waves.push(WaveResult {
        wave_id: "w1".into(),
        tasks: vec![mk_outcome("a", true, None), mk_outcome("b", false, Some("hard timeout (11s) exceeded"))],
    });
    r.waves.push(WaveResult { wave_id: "w2".into(), tasks: vec![mk_outcome("c", true, None)] });
    assert_eq!(r.total_tasks(), 3);
    assert_eq!(r.succeeded(), 2);
    assert_eq!(r.failed(), 1);
    assert_eq!(r.timed_out(), 1);
}

#[test]
fn has_critical_failure_detects() {
    let w = WaveResult {
        wave_id: "w".into(),
        tasks: vec![mk_outcome("a", true, None), mk_outcome("b", false, Some("x"))],
    };
    assert!(w.has_critical_failure());
}

#[test]
fn summary_contains_counts() {
    let mut r = ExecutionReport::new();
    r.waves.push(WaveResult { wave_id: "w1".into(), tasks: vec![mk_outcome("a", true, None)] });
    let s = r.to_summary();
    assert!(s.contains("1 waves"));
    assert!(s.contains("1/1 succeeded"));
}

#[test]
fn markdown_lists_tasks() {
    let mut r = ExecutionReport::new();
    r.waves.push(WaveResult { wave_id: "w1".into(), tasks: vec![mk_outcome("a", false, Some("boom"))] });
    let md = r.to_markdown();
    assert!(md.contains("### Wave `w1`"));
    assert!(md.contains("`a`"));
    assert!(md.contains("boom"));
}

#[test]
fn summary_and_markdown_exact_text() {
    let r = ExecutionReport {
        started: 1_000,
        ended: Some(62_500),
        waves: vec![
            WaveResult {
                wave_id: "w1".into(),
                tasks: vec![mk_outcome("a", true, None), mk_outcome("b", false, Some("Stale session"))],
            },
            WaveResult { wave_id: "w2".into(), tasks: vec![] },
        ],
    };
    assert_eq!(r.elapsed_millis(), 61_500);
    assert_eq!(r.elapsed(), Duration::from_millis(61_500));
    assert_eq!(
        r.to_summary(),
        "Execution: 2 waves, 1/2 succeeded\nElapsed:   61s\nFailed:    1\nTimed out: 1\n\n  [w1] 1/2\n  [w2] 0/0"
    );
    assert_eq!(
        r.to_markdown(),
        "**2 waves, 1/2 succeeded in 61s**\n\n### Wave `w1`\n\n- `a` — **ok** (100ms) \n- `b` — **fail** (100ms) Stale session\n\n### Wave `w2`\n\n\n"
    );
    assert_eq!(r.succeeded() + r.failed(), r.total_tasks());
}

#[test]
fn running_report_has_zero_elapsed() {
    let mut r = ExecutionReport::new();
    assert!(r.ended.is_none());
    assert_eq!(r.elapsed_millis(), 0);
    r.mark_ended();
    assert!(r.ended.is_some());
    let back = ExecutionReport { started: 10, ended: Some(5), waves: vec![] };
    assert_eq!(back.elapsed_millis(), 0);
}

// ---- squad / watchdog / worktree ----

#[test]
fn name_format() {
    assert_eq!(squad_session_name("T1.1"), "myth-task-T1.1");
}

#[test]
fn detects_done_marker() {
    assert!(is_completion_signal("hello\nDONE|/path/to/artifact"));
}

#[test]
fn detects_shell_prompt() {
    assert!(is_completion_signal("doing work\n...\nexit\nuser@host:~/project$ "));
}

#[test]
fn no_signal_in_running_output() {
    assert!(!is_completion_signal("working..."));
    assert!(!is_completion_signal(""));
}

#[test]
fn prompt_only_counts_near_the_end() {
    let early = format!("$ started\n{}", "x".repeat(300));
    assert!(!is_completion_signal(&early));
    let late = format!("{}# ", "x".repeat(300));
    assert!(is_completion_signal(&late));
}

#[test]
fn watchdog_new_fields() {
    let w = Watchdog::new(Duration::from_secs(10), Duration::from_secs(2));
    assert_eq!(w.hard_timeout, Duration::from_secs(10));
    assert_eq!(w.stale_threshold, Duration::from_secs(2));
    assert_eq!(w.tick, Duration::from_secs(5));
}

#[test]
fn monitor_step_order() {
    assert_eq!(monitor_step(true, "DONE|", 0, true), MonitorStep::Finish(WatchdogResult::HardTimeout));
    assert_eq!(monitor_step(false, "DONE|", 0, true), MonitorStep::Finish(WatchdogResult::Completed));
    assert_eq!(monitor_step(false, "working", 3, true), MonitorStep::Active(7));
    assert_eq!(monitor_step(false, "working", 7, true), MonitorStep::Finish(WatchdogResult::Stale));
    assert_eq!(monitor_step(false, "working", 7, false), MonitorStep::Idle);
}

#[test]
fn worktree_struct_fields() {
    let w = Worktree { path: PathBuf::from("/tmp/a"), branch: "myth/task-x".into(), base: PathBuf::from("/tmp/b") };
    assert_eq!(w.branch, "myth/task-x");
    assert_eq!(task_branch("x"), w.branch);
}

#[test]
fn merge_result_enum() {
    assert_eq!(MergeResult::FastForward, MergeResult::FastForward);
    assert_ne!(MergeResult::FastForward, MergeResult::Noop);
    if let MergeResult::Conflict(s) = MergeResult::Conflict("x".into()) {
        assert_eq!(s, "x");
    }
}

#[test]
fn merge_outcome_is_read_from_git() {
    assert_eq!(classify_merge(true, "Already up to date.\n", ""), MergeResult::Noop);
    assert_eq!(classify_merge(true, "Already up-to-date.\n", ""), MergeResult::Noop);
    assert_eq!(classify_merge(true, "Fast-forward\n a.rs | 2 +-\n", ""), MergeResult::FastForward);
    assert_eq!(
        classify_merge(false, "", "fatal: Not possible to fast-forward, aborting."),
        MergeResult::Conflict("fatal: Not possible to fast-forward, aborting.".into())
    );
}

// ---- executor ----

#[test]
fn task_timeout_and_concurrency() {
    let mut t = mk_task("t", &[]);
    assert_eq!(effective_timeout(&t, Duration::from_secs(9)), Duration::from_secs(9));
    t.timeout_seconds = Some(30);
    assert_eq!(effective_timeout(&t, Duration::from_secs(9)), Duration::from_secs(30));
    let mut w = mk_wave("w", vec![]);
    assert_eq!(concurrency_limit(&w, 3), 3);
    assert_eq!(concurrency_limit(&w, 0), 1);
    w.max_concurrent = Some(5);
    assert_eq!(concurrency_limit(&w, 3), 5);
    w.max_concurrent = Some(0);
    assert_eq!(concurrency_limit(&w, 3), 1);
}

#[test]
fn outcomes_from_runs() {
    let r = TaskResult::crashed("boom", Duration::from_millis(1500));
    let o = outcome_from_result(&"t7".to_string(), &r);
    assert_eq!(o.task_id, "t7");
    assert!(!o.succeeded);
    assert_eq!(o.exit_code, -1);
    assert_eq!(o.duration_ms, 1500);
    assert_eq!(o.failure_reason.as_deref(), Some("boom"));
    let f = failed_outcome("t8".into(), "worktree create failed: x".into());
    assert_eq!(f.exit_code, -1);
    assert_eq!(f.duration_ms, 0);
    assert!(!f.succeeded);
}

#[test]
fn outcome_duration_is_whole_milliseconds() {
    let r = TaskResult::crashed("slow", Duration::new(2, 345_678_901));
    let o = outcome_from_result(&"t9".to_string(), &r);
    assert_eq!(o.duration_ms, 2345);
    let rec = failure_record("t".into(), "t9", &r);
    assert_eq!(rec.duration_ms, 2345);
}

#[test]
fn record_failure_serializes() {
    let mut r = TaskResult::crashed("boom", Duration::from_millis(42));
    r.stderr = "stderr".into();
    let rec = failure_record("2026-04-21T12:00:00Z".into(), "T1", &r);
    assert_eq!(rec.task_id, "T1");
    assert_eq!(rec.source, "orchestrator");
    assert_eq!(rec.duration_ms, 42);
    assert_eq!(rec.reason.as_deref(), Some("boom"));
    assert_eq!(rec.stderr_excerpt, "stderr");
}

#[test]
fn outcomes_follow_task_order() {
    let wave = mk_wave("w", vec![mk_task("a", &[]), mk_task("b", &[]), mk_task("c", &[])]);
    let got = vec![
        mk_outcome("unknown", false, Some("join error: 1")),
        mk_outcome("c", true, None),
        mk_outcome("a", true, None),
        mk_outcome("unknown", false, Some("join error: 2")),
        mk_outcome("b", false, None),
    ];
    let ordered = order_outcomes(&wave, got);
    let ids: Vec<&str> = ordered.iter().map(|o| o.task_id.as_str()).collect();
    assert_eq!(ids, vec!["a", "b", "c", "unknown", "unknown"]);
    assert_eq!(ordered[3].failure_reason.as_deref(), Some("join error: 1"));
    assert_eq!(ordered[4].failure_reason.as_deref(), Some("join error: 2"));
    assert!(order_outcomes(&wave, vec![]).is_empty());
}
