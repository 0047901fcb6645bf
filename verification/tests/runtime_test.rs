use std::path::PathBuf;
use std::time::Duration;

use myth::common::SessionId;
use myth::runtime::claude::{injected_env, watchdog_args, ClaudeRuntime};
use myth::runtime::fallback::{action_for, detect_quota_exhausted, QuotaAction, QuotaPolicy};
use myth::runtime::session::Session;
use myth::runtime::task::{detect_failure_reason, TaskResult};
use myth::runtime::version::{try_parse_triplet, ClaudeVersion, VersionError};

// ---- quota ----

#[test]
fn detects_rate_limit() {
    assert!(detect_quota_exhausted("Error: rate limit reached"));
}

#[test]
fn detects_quota_exceeded_case_insensitive() {
    assert!(detect_quota_exhausted("QUOTA EXCEEDED"));
}

#[test]
fn detects_upgrade_msg() {
    assert!(detect_quota_exhausted("You have used all messages. Upgrade to continue."));
}

#[test]
fn does_not_flag_unrelated() {
    assert!(!detect_quota_exhausted("Connection reset by peer"));
    assert!(!detect_quota_exhausted(""));
}

#[test]
fn policy_mapping() {
    assert!(matches!(action_for(QuotaPolicy::Abort), QuotaAction::Abort));
    assert!(matches!(action_for(QuotaPolicy::UseExtraUsage), QuotaAction::EnableExtraUsage));
    assert!(matches!(action_for(QuotaPolicy::Wait), QuotaAction::Wait { retry_after: None }));
}

#[test]
fn default_policy_aborts() {
    assert_eq!(QuotaPolicy::default(), QuotaPolicy::Abort);
}

// ---- task results ----

#[test]
fn task_result_crashed() {
    let r = TaskResult::crashed("boom", Duration::from_millis(5));
    assert!(!r.succeeded);
    assert_eq!(r.exit_code, -1);
    assert_eq!(r.failure_reason.as_deref(), Some("boom"));
}

#[test]
fn stderr_tail_short() {
    let mut r = TaskResult::crashed("x", Duration::ZERO);
    r.stderr = "hello".into();
    assert_eq!(r.stderr_tail(100), "hello");
}

#[test]
fn stderr_tail_long() {
    let mut r = TaskResult::crashed("x", Duration::ZERO);
    r.stderr = "0123456789".into();
    assert_eq!(r.stderr_tail(4), "6789");
}

#[test]
fn stderr_tail_moves_to_char_boundary() {
    let mut r = TaskResult::crashed("x", Duration::ZERO);
    r.stderr = "ab한글".into();
    assert_eq!(r.stderr_tail(4), "글");
    assert_eq!(r.stderr_tail(0), "");
}

#[test]
fn failure_reason_quota() {
    assert_eq!(detect_failure_reason("Error: rate limit reached"), "quota exhausted");
}

#[test]
fn failure_reason_generic() {
    assert_eq!(detect_failure_reason("segmentation fault"), "non-zero exit");
}

#[test]
fn failure_reason_permission() {
    assert_eq!(detect_failure_reason("open: Permission denied"), "permission denied");
    assert_eq!(detect_failure_reason("permission denied; quota exceeded"), "quota exhausted");
}

#[test]
fn run_results() {
    let ok = TaskResult::from_exit(true, Some(0), "out".into(), "".into(), Duration::from_secs(1));
    assert!(ok.succeeded);
    assert_eq!(ok.exit_code, 0);
    assert!(ok.failure_reason.is_none());
    let bad = TaskResult::from_exit(false, None, "".into(), "Permission denied".into(), Duration::ZERO);
    assert_eq!(bad.exit_code, -1);
    assert_eq!(bad.failure_reason.as_deref(), Some("permission denied"));
    let t = TaskResult::from_hard_timeout(&Duration::from_secs(660), "o".into(), "e".into(), Duration::from_secs(661));
    assert!(!t.succeeded);
    assert_eq!(t.exit_code, -1);
    assert_eq!(t.failure_reason.as_deref(), Some("hard timeout (660s) exceeded"));
}

// ---- version ----

#[test]
fn parse_plain() {
    let v = ClaudeVersion::parse("cli 2.1.109").unwrap();
    assert_eq!(v, ClaudeVersion::new(2, 1, 109));
}

#[test]
fn parse_bare_triplet() {
    let v = ClaudeVersion::parse("2.1.27").unwrap();
    assert_eq!(v, ClaudeVersion::new(2, 1, 27));
}

#[test]
fn parse_with_trailing() {
    let v = ClaudeVersion::parse("cli-tool 2.1.109 (extra)").unwrap();
    assert_eq!(v, ClaudeVersion::new(2, 1, 109));
}

#[test]
fn parse_fails_on_garbage() {
    assert!(ClaudeVersion::parse("unknown output").is_err());
}

#[test]
fn compatible_min() {
    ClaudeVersion::new(2, 1, 27).validate_compatible().unwrap();
}

#[test]
fn compatible_with_warn() {
    ClaudeVersion::new(2, 1, 10).validate_compatible().unwrap();
}

#[test]
fn incompatible_major() {
    assert!(ClaudeVersion::new(1, 9, 0).validate_compatible().is_err());
    assert!(ClaudeVersion::new(3, 0, 0).validate_compatible().is_err());
}

#[test]
fn incompatible_minor() {
    assert!(ClaudeVersion::new(2, 0, 99).validate_compatible().is_err());
}

#[test]
fn display() {
    assert_eq!(ClaudeVersion::new(2, 1, 109).to_string(), "2.1.109");
}

#[test]
fn triplet_edge_cases() {
    assert_eq!(try_parse_triplet("v2.1.3-beta"), Some(ClaudeVersion::new(2, 1, 3)));
    assert_eq!(try_parse_triplet("(2.1.44)"), Some(ClaudeVersion::new(2, 1, 44)));
    assert_eq!(try_parse_triplet("2.1.3rc1"), Some(ClaudeVersion::new(2, 1, 3)));
    assert_eq!(try_parse_triplet("2.1.3.4"), None);
    assert_eq!(try_parse_triplet("2.1"), None);
    assert_eq!(try_parse_triplet("2.+1.7"), Some(ClaudeVersion::new(2, 1, 7)));
    assert_eq!(try_parse_triplet("2.1.x"), None);
    assert_eq!(try_parse_triplet("4294967296.1.1"), None);
    assert_eq!(ClaudeVersion::parse("1.2 then 3.4.5").unwrap(), ClaudeVersion::new(3, 4, 5));
}

#[test]
fn version_error_messages() {
    let e = ClaudeVersion::parse("  no version here\n").unwrap_err();
    assert_eq!(e, VersionError::Unparsable { output: "no version here".into() });
    assert_eq!(e.to_string(), "could not parse CLI version from: \"no version here\"");
    let e = ClaudeVersion::new(1, 9, 0).validate_compatible().unwrap_err();
    assert_eq!(
        e.to_string(),
        "CLI version 1.9.0 not supported by myth v1. Expected 2.1.x or later (with PostToolUseFailure support)."
    );
}

// ---- runtime handle ----

#[test]
fn runtime_requires_supported_version() {
    let id = SessionId(42);
    let rt = ClaudeRuntime::from_parts(PathBuf::from("/bin/agent"), ClaudeVersion::new(2, 1, 30), PathBuf::from("/w"), id)
        .ok()
        .unwrap();
    assert_eq!(rt.version(), ClaudeVersion::new(2, 1, 30));
    assert_eq!(rt.session_id(), id);
    assert_eq!(rt.claude_path(), &PathBuf::from("/bin/agent"));
    assert_eq!(rt.worktree(), &PathBuf::from("/w"));
    let err = ClaudeRuntime::from_parts(PathBuf::from("/bin/agent"), ClaudeVersion::new(2, 0, 1), PathBuf::from("/w"), id)
        .err()
        .unwrap();
    assert_eq!(err, VersionError::Unsupported(ClaudeVersion::new(2, 0, 1)));
}

#[test]
fn child_arguments_and_environment() {
    assert_eq!(
        watchdog_args("do it"),
        vec!["-p", "do it", "--max-turns", "10", "--no-session-persistence", "--dangerously-skip-permissions"]
    );
    let env = injected_env(SessionId(1));
    assert_eq!(env.len(), 4);
    assert_eq!(env[0], ("MYTH_SESSION_ID".to_string(), "00000000-0000-0000-0000-000000000001".to_string()));
    assert_eq!(env[1], ("MYTH_ACTIVE".to_string(), "1".to_string()));
    assert_eq!(env[2], ("CLAUDE_STREAM_IDLE_TIMEOUT_MS".to_string(), "120000".to_string()));
    assert_eq!(env[3], ("ENABLE_PROMPT_CACHING_1H".to_string(), "1".to_string()));
}

// ---- session ----

#[test]
fn new_session_active() {
    let s = Session::new();
    assert!(s.is_active());
    assert_eq!((s.id.0 >> 76) & 0xf, 4);
    assert_eq!((s.id.0 >> 62) & 0x3, 2);
}

#[test]
fn mark_ended_is_idempotent() {
    let mut s = Session::new();
    s.mark_ended();
    let first_end = s.ended_at();
    s.mark_ended();
    assert_eq!(s.ended_at(), first_end);
    assert!(!s.is_active());
}

#[test]
fn ended_session_elapsed_is_start_to_first_end() {
    let mut s = Session::new();
    s.mark_ended();
    let end = s.ended_at().unwrap();
    s.mark_ended();
    assert_eq!(s.elapsed(), end.duration_since(s.started_at));
    assert_eq!(s.elapsed(), s.elapsed());
}

#[test]
fn from_id_preserves() {
    let id = SessionId::new();
    let s = Session::from_id(id);
    assert_eq!(s.id, id);
}

#[test]
fn displayed_versions_parse_back() {
    for v in [
        ClaudeVersion::new(0, 0, 0),
        ClaudeVersion::new(2, 1, 109),
        ClaudeVersion::new(u32::MAX, 7, u32::MAX),
    ] {
        assert_eq!(ClaudeVersion::parse(&v.to_string()), Ok(v));
    }
}
