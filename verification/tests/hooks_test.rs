use myth::common::{category_sql_label, Category, Enforcement, Level, LessonId, ReminderId, SessionId};
use myth::hooks::decisions::{
    brief_context, db_verdict_from, is_tier2_enabled, post_tool_event, pre_tool_event,
    pre_tool_result_kind, truncate_brief, ResultKind, BRIEF_MAX_BYTES, BRIEF_TRUNCATE_SUFFIX,
};
use myth::hooks::input::{HookEventName, PostToolUseFailureData};
use myth::json::compact_json;
use myth::hooks::output::{DbVerdict, HookEventType, HookOutcome, HookResult};
use myth::hooks::records::{
    lesson_description, FailureRecord, LessonCreated, PendingReflection, ShadowMetric,
};
use myth::hooks::remand::{RemandCounter, MAX_REMAND_ATTEMPTS};
use myth::hooks::tier0::{classify, classify_checked, DeterministicClassification};
use myth::hooks::tier3_dispatch::{
    dispatch_status, envelope_file_name, envelope_json, failure_envelope, tier3_gate_active,
};
use myth::hooks::variant_b::{fill_template, payload_json, render, truncate_error, ERROR_MAX_BYTES};

fn json(text: &str) -> serde_json::Value {
    serde_json::from_str(text).unwrap()
}

// ---- HookResult labels and blocking ----

#[test]
fn allow_is_non_blocking() {
    let r = HookResult::Allow;
    assert_eq!(r.label(), "allow");
    assert!(!r.is_blocking());
}

#[test]
fn allow_with_context_is_non_blocking() {
    let r = HookResult::AllowWithContext(json(
        r#"{"continue": true, "hookSpecificOutput": {"hookEventName": "PreToolUse", "permissionDecision": "allow", "additionalContext": "demo"}}"#,
    ));
    assert_eq!(r.label(), "allow_with_context");
    assert!(!r.is_blocking());
}

#[test]
fn ask_is_non_blocking() {
    let r = HookResult::Ask(json(r#"{"continue": true}"#));
    assert_eq!(r.label(), "ask");
    assert!(!r.is_blocking());
}

#[test]
fn block_is_blocking() {
    let r = HookResult::Block { output: json(r#"{"continue": false, "stopReason": "demo"}"#) };
    assert_eq!(r.label(), "block");
    assert!(r.is_blocking());
}

#[test]
fn error_is_not_blocking() {
    let r = HookResult::Error("demo".into());
    assert_eq!(r.label(), "error");
    assert!(!r.is_blocking());
}

#[test]
fn only_block_exits_with_two() {
    assert_eq!(HookResult::Allow.exit_code(), 0);
    assert_eq!(HookResult::Ask(json("{}")).exit_code(), 0);
    assert_eq!(HookResult::Error("x".into()).exit_code(), 0);
    assert_eq!(HookResult::Block { output: json("{}") }.exit_code(), 2);
}

#[test]
fn outcome_from_result_has_no_event() {
    let o: HookOutcome = HookResult::Allow.into();
    assert!(o.event.is_none());
    let id = SessionId(7);
    let o = o.with_event(post_tool_event(id, "Bash".into()));
    let ev = o.event.unwrap();
    assert_eq!(ev.session_id, id);
    assert_eq!(ev.event_type, HookEventType::PostTool);
    assert_eq!(ev.verdict, DbVerdict::Allow);
    assert_eq!(ev.tool_name.as_deref(), Some("Bash"));
    assert!(ev.lesson_id.is_none());
}

#[test]
fn event_names_are_snake_case() {
    assert_eq!(HookEventName::SessionStart.as_str(), "session_start");
    assert_eq!(HookEventName::UserPromptSubmit.as_str(), "user_prompt_submit");
    assert_eq!(HookEventName::PreToolUse.as_str(), "pre_tool_use");
    assert_eq!(HookEventName::PostToolUse.as_str(), "post_tool_use");
    assert_eq!(HookEventName::PostToolUseFailure.as_str(), "post_tool_use_failure");
    assert_eq!(HookEventName::Stop.as_str(), "stop");
}

// ---- Tier 0 ----

#[test]
fn timeout_is_classified_as_transient_network() {
    let c = classify("Exit code 1\nrequest timed out after 30s").unwrap();
    assert_eq!(c.level, Level::Low);
    assert_eq!(c.category, Category::Process);
    assert_eq!(c.rationale, "transient_network");
}

#[test]
fn connection_reset_is_timeout_class() {
    let c = classify("connection reset by peer").unwrap();
    assert_eq!(c.rationale, "transient_network");
}

#[test]
fn dns_failure_is_timeout_class() {
    let c = classify("temporary failure in name resolution").unwrap();
    assert_eq!(c.rationale, "transient_network");
}

#[test]
fn digits_429_inside_a_number_are_not_a_rate_limit() {
    assert_eq!(classify("Exit code 1\nAssertionError: expected 14290, got 0"), None);
    assert_eq!(classify("error E429 in module"), None);
    assert_eq!(classify("id 4290"), None);
}

#[test]
fn status_429_as_a_word_is_a_rate_limit() {
    for e in ["429", "status=429", "HTTP/1.1 429 Too Many Requests", "got 429.", "(429)"] {
        assert_eq!(classify(e).map(|c| c.rationale), Some("rate_limit"), "{}", e);
    }
}

#[test]
fn http_429_is_rate_limit() {
    let c = classify("HTTP 429 Too Many Requests").unwrap();
    assert_eq!(c.level, Level::Low);
    assert_eq!(c.category, Category::Process);
    assert_eq!(c.rationale, "rate_limit");
}

#[test]
fn rate_limit_phrase_is_rate_limit() {
    let c = classify("API response: rate limit exceeded").unwrap();
    assert_eq!(c.rationale, "rate_limit");
}

#[test]
fn file_not_found_via_enoent() {
    let c = classify("Exit code 1\ncat: /nonexistent: No such file or directory").unwrap();
    assert_eq!(c.level, Level::Medium);
    assert_eq!(c.category, Category::Correctness);
    assert_eq!(c.rationale, "file_not_found");
}

#[test]
fn file_not_found_via_python_error_class() {
    let c = classify("FileNotFoundError: [Errno 2]").unwrap();
    assert_eq!(c.rationale, "file_not_found");
}

#[test]
fn ambiguous_error_returns_none() {
    assert!(
        classify("AssertionError: expected 42, got 41").is_none(),
        "assertion errors are Tier 1 territory on Day-1"
    );
    assert!(
        classify("Permission denied").is_none(),
        "permission_denied is listed as future Tier 0 — not shipped on Day-1"
    );
    assert!(classify("panicked at 'something went wrong'").is_none());
}

#[test]
fn empty_error_string_returns_none() {
    assert!(classify("").is_none());
}

#[test]
fn classification_is_copy_cheap() {
    let c: DeterministicClassification = classify("timeout").unwrap();
    let c2 = c.clone();
    assert_eq!(c, c2);
}

#[test]
fn timeout_rule_wins_over_rate_limit() {
    let c = classify("rate limit: connection refused").unwrap();
    assert_eq!(c.rationale, "transient_network");
    let c = classify("RateLimit hit while reading missing file: ENOENT").unwrap();
    assert_eq!(c.rationale, "rate_limit");
}

#[test]
fn checked_classification_compiles_patterns() {
    let r = classify_checked("HTTP 429").unwrap();
    assert_eq!(r.unwrap().rationale, "rate_limit");
    assert_eq!(classify_checked("all fine").unwrap(), None);
}

// ---- Variant B ----

fn sample_failure() -> PostToolUseFailureData {
    PostToolUseFailureData {
        tool_name: "Bash".into(),
        tool_input: json(r#"{"command": "cat /nonexistent", "description": "probe"}"#),
        tool_use_id: "toolu_01Nv3TzCkg1WZb9Vcaqvxxqy".into(),
        error: "Exit code 1\ncat: /nonexistent: No such file or directory".into(),
        is_interrupt: false,
    }
}

fn payload_of(out: &str) -> serde_json::Value {
    let start = out.find("Failure payload: ").expect("found payload marker") + "Failure payload: ".len();
    let rest = &out[start..];
    let end = rest.find(". Return").expect("end marker");
    serde_json::from_str(&rest[..end]).expect("payload JSON parses")
}

#[test]
fn render_includes_tool_name_and_reminder_id() {
    let rid = ReminderId::new();
    let out = render(&sample_failure(), rid);
    assert!(out.contains("Bash"));
    assert!(out.contains(&rid.to_string()));
    assert!(out.contains("assessor-trigger-id"));
}

#[test]
fn render_embeds_valid_compact_json_with_h5_fields() {
    let rid = ReminderId::new();
    let out = render(&sample_failure(), rid);
    let v = payload_of(&out);
    assert_eq!(v.get("tool_name").and_then(|x| x.as_str()), Some("Bash"));
    assert_eq!(
        v.get("tool_use_id").and_then(|x| x.as_str()),
        Some("toolu_01Nv3TzCkg1WZb9Vcaqvxxqy")
    );
    assert!(v.get("error").and_then(|x| x.as_str()).unwrap().contains("Exit code 1"));
    assert_eq!(v.get("is_interrupt").and_then(|x| x.as_bool()), Some(false));
    assert!(
        v.get("tool_response").is_none(),
        "post-H5 template must not emit the old tool_response field"
    );
}

#[test]
fn render_embeds_the_tool_input() {
    let rid = ReminderId(7);
    let out = render(&sample_failure(), rid);
    let v = payload_of(&out);
    assert_eq!(v["tool_input"], sample_failure().tool_input);
    assert!(out.contains(
        "Failure payload: {\"tool_name\":\"Bash\",\"tool_input\":{\"command\":\"cat /nonexistent\",\"description\":\"probe\"},\"tool_use_id\""
    ));
}

#[test]
fn compact_json_of_values() {
    assert_eq!(compact_json(&json(r#"{ "b": [1, 2], "a": null }"#)), r#"{"a":null,"b":[1,2]}"#);
    assert_eq!(compact_json(&json(r#""x\"y""#)), r#""x\"y""#);
}

#[test]
fn json_strings_escape_controls_only() {
    let mut data = sample_failure();
    data.error = "a\u{1}b\u{1f}\u{8}\u{c}\r/\u{7f}\u{e9}".into();
    let e = envelope_json("s", &data, "{}");
    assert!(e.starts_with(r#"{"error":"a\u0001b\u001f\b\f\r/"#));
    assert!(e.contains("\u{7f}\u{e9}\",\"session_id\""));
}

#[test]
fn failure_envelope_carries_tool_input() {
    let e = failure_envelope("sess", &sample_failure());
    let v: serde_json::Value = serde_json::from_str(&e).unwrap();
    assert_eq!(v["tool_input"], sample_failure().tool_input);
    assert_eq!(v["session_id"], "sess");
    assert_eq!(e, envelope_json("sess", &sample_failure(), r#"{"command":"cat /nonexistent","description":"probe"}"#));
}

#[test]
fn render_truncates_long_errors() {
    let mut data = sample_failure();
    data.error = "x".repeat(6_000);
    let rid = ReminderId::new();
    let out = render(&data, rid);
    let v = payload_of(&out);
    let err = v["error"].as_str().unwrap();
    assert!(err.len() <= ERROR_MAX_BYTES, "got {} bytes", err.len());
    assert!(err.ends_with("[truncated by myth]"));
}

#[test]
fn truncate_error_respects_utf8_boundary() {
    let s = "한글".repeat(3_000);
    let out = truncate_error(&s);
    assert!(out.len() <= ERROR_MAX_BYTES);
    assert!(out.ends_with("[truncated by myth]") || out == s);
}

#[test]
fn short_error_is_passed_through() {
    let out = truncate_error("quick error");
    assert_eq!(out, "quick error");
}

#[test]
fn truncated_error_keeps_longest_prefix() {
    let s = "y".repeat(5_000);
    let out = truncate_error(&s);
    let suffix = "… [truncated by myth]";
    assert_eq!(out.len(), ERROR_MAX_BYTES);
    assert_eq!(out, format!("{}{}", "y".repeat(ERROR_MAX_BYTES - suffix.len()), suffix));
}

#[test]
fn payload_json_escapes_and_orders_fields() {
    let mut data = sample_failure();
    data.error = "line \"one\"\nline\ttwo".into();
    data.is_interrupt = true;
    let p = payload_json(&data, "{\"k\":1}");
    assert_eq!(
        p,
        "{\"tool_name\":\"Bash\",\"tool_input\":{\"k\":1},\"tool_use_id\":\"toolu_01Nv3TzCkg1WZb9Vcaqvxxqy\",\"error\":\"line \\\"one\\\"\\nline\\ttwo\",\"is_interrupt\":true}"
    );
}

#[test]
fn template_has_reminder_twice() {
    let t = fill_template("Edit", "{}", "RID");
    assert_eq!(t.matches("RID").count(), 2);
    assert!(t.starts_with("<user-prompt-submit-hook>\n"));
    assert!(t.ends_with("</assessor-trigger-id>\n</user-prompt-submit-hook>"));
    assert!(t.contains("description=\"Analyze failure of Edit\""));
    assert!(t.contains("IF error_class IN {transient_network, rate_limit_429}"));
}

// ---- records ----

fn record_failure() -> PostToolUseFailureData {
    PostToolUseFailureData {
        tool_name: "Bash".into(),
        tool_input: json(r#"{"command": "cat /nonexistent"}"#),
        tool_use_id: "toolu_abc".into(),
        error: "Exit code 1\ncat: /x: No such file or directory".into(),
        is_interrupt: false,
    }
}

#[test]
fn failure_record_extracts_exit_code_from_error_line() {
    let data = record_failure();
    let r = FailureRecord::from_envelope("2026-04-21T12:00:00Z".into(), "sess-uuid", &data);
    assert_eq!(r.event, "post_tool_failure");
    assert_eq!(r.exit_code, Some(1));
    assert_eq!(r.tool_name, "Bash");
    assert!(!r.is_interrupt);
}

#[test]
fn failure_record_serialises_to_jsonl() {
    let data = record_failure();
    let r = FailureRecord::from_envelope("2026-04-21T12:00:00Z".into(), "sess-uuid", &data);
    let s = r.to_jsonl();
    assert!(s.contains("\"event\":\"post_tool_failure\""));
    assert!(s.contains("\"error\""));
    assert!(s.contains("\"is_interrupt\":false"));
    assert!(!s.contains("\"tool_response\""));
    let v: serde_json::Value = serde_json::from_str(&s).unwrap();
    assert_eq!(v["tool_use_id"], "toolu_abc");
    assert_eq!(v["tool_input"], data.tool_input);
    assert_eq!(v["error"].as_str(), Some(data.error.as_str()));
}

#[test]
fn optional_fields_omit_when_none() {
    let data = record_failure();
    let r = FailureRecord::from_envelope("2026-04-21T12:00:00Z".into(), "sess-uuid", &data);
    let s = r.to_jsonl();
    assert!(!s.contains("classified_level"));
    assert!(!s.contains("lesson_id"));
    assert!(!s.contains("reminder_id"));
    assert!(s.contains("\"exit_code\":1"));
}

#[test]
fn classified_record_serialises_every_field() {
    let data = record_failure();
    let c = classify(&data.error).unwrap();
    let lid = LessonId(0x0123_4567_89ab_cdef_0123_4567_89ab_cdef);
    let r = FailureRecord::from_envelope("t".into(), "s", &data).with_classification(&c, lid);
    let s = r.to_jsonl();
    assert!(s.ends_with(",\"exit_code\":1,\"classified_level\":3,\"classified_category\":\"correctness\",\"rationale\":\"file_not_found\",\"lesson_id\":\"01234567-89ab-cdef-0123-456789abcdef\"}"));
    let v: serde_json::Value = serde_json::from_str(&s).unwrap();
    assert_eq!(v["ts"], "t");
    assert_eq!(v["session_id"], "s");
}

#[test]
fn failure_record_overlays() {
    let data = record_failure();
    let c = classify(&data.error).unwrap();
    let lid = LessonId(0x0123_4567_89ab_cdef_0123_4567_89ab_cdef);
    let r = FailureRecord::from_envelope("t".into(), "s", &data).with_classification(&c, lid);
    assert_eq!(r.classified_level, Some(3));
    assert_eq!(r.classified_category, Some("correctness"));
    assert_eq!(r.rationale, Some("file_not_found"));
    assert_eq!(r.lesson_id.as_deref(), Some("01234567-89ab-cdef-0123-456789abcdef"));
    let rid = ReminderId(1);
    let r = FailureRecord::from_envelope("t".into(), "s", &data).with_reminder(rid);
    assert_eq!(r.reminder_id.as_deref(), Some("00000000-0000-0000-0000-000000000001"));
    assert!(r.classified_level.is_none());
}

#[test]
fn pending_reflection_shape() {
    let p = PendingReflection {
        ts: "2026-04-21T12:00:00Z".into(),
        event: "pending_reflection",
        reminder_id: "rid-uuid".into(),
        session_id: "sess-uuid",
        tool_name: "Bash",
        tool_use_id: "toolu_abc",
    };
    assert_eq!(p.event, "pending_reflection");
    assert_eq!(p.reminder_id, "rid-uuid");
    assert_eq!(p.tool_use_id, "toolu_abc");
    let data = record_failure();
    let q = PendingReflection::new("ts".into(), ReminderId(2), "sess", &data);
    assert_eq!(q.event, "pending_reflection");
    assert_eq!(q.reminder_id, "00000000-0000-0000-0000-000000000002");
    assert_eq!(q.tool_use_id, "toolu_abc");
}

#[test]
fn lesson_created_shape() {
    let l = LessonCreated {
        ts: "2026-04-21T12:00:00Z".into(),
        event: "lesson_created",
        lesson_id: "L-uuid".into(),
        session_id: "sess-uuid",
        level: 3,
        category: "correctness",
        rationale: "file_not_found",
    };
    assert_eq!(l.event, "lesson_created");
    assert_eq!(l.level, 3);
    assert_eq!(l.rationale, "file_not_found");
    let c = classify("No such file or directory").unwrap();
    let m = LessonCreated::new("ts".into(), LessonId(3), "sess", &c);
    assert_eq!(m.level, 3);
    assert_eq!(m.category, "correctness");
    assert_eq!(m.lesson_id, "00000000-0000-0000-0000-000000000003");
}

#[test]
fn shadow_metric_tier0_shape() {
    let c = classify("No such file or directory").unwrap();
    let sh = ShadowMetric::tier0("2026-04-21T12:00:00Z".into(), &c, "Bash");
    assert_eq!(sh.tier_resolved, 0);
    assert!(sh.reminder_id.is_none());
    assert_eq!(sh.rationale, Some("file_not_found"));
    assert_eq!(sh.variant, "B");
}

#[test]
fn shadow_metric_tier1_shape() {
    let sh = ShadowMetric::tier1("2026-04-21T12:00:00Z".into(), ReminderId(4), "Bash");
    assert_eq!(sh.tier_resolved, 1);
    assert_eq!(sh.reminder_id.as_deref(), Some("00000000-0000-0000-0000-000000000004"));
    assert!(sh.rationale.is_none());
}

#[test]
fn lesson_description_keeps_500_chars() {
    assert_eq!(lesson_description("short"), "short");
    let long = "é".repeat(600);
    assert_eq!(lesson_description(&long).chars().count(), 500);
}

#[test]
fn category_sql_labels_snake_case() {
    assert_eq!(category_sql_label(Category::Security), "security");
    assert_eq!(category_sql_label(Category::DataSafety), "data_safety");
    assert_eq!(category_sql_label(Category::Temporal), "temporal");
}

// ---- envelope helpers ----

#[test]
fn parse_exit_code_returns_none_for_non_bash_errors() {
    let data = PostToolUseFailureData {
        tool_name: "Edit".into(),
        tool_input: json(r#"{"file": "/x"}"#),
        tool_use_id: "toolu_x".into(),
        error: "File has not been read yet".into(),
        is_interrupt: false,
    };
    assert_eq!(data.parse_exit_code(), None);
}

#[test]
fn parse_exit_code_handles_interrupted() {
    let data = PostToolUseFailureData {
        tool_name: "Bash".into(),
        tool_input: json(r#"{"command": "sleep 60"}"#),
        tool_use_id: "toolu_y".into(),
        error: "Command was interrupted".into(),
        is_interrupt: true,
    };
    assert_eq!(data.parse_exit_code(), None);
    assert!(data.is_interrupt);
}

#[test]
fn parse_exit_code_reads_signed_first_line() {
    let mut data = record_failure();
    data.error = "Exit code -9\r\nkilled".into();
    assert_eq!(data.parse_exit_code(), Some(-9));
    data.error = "Exit code 127".into();
    assert_eq!(data.parse_exit_code(), Some(127));
    data.error = "Exit code 1 extra".into();
    assert_eq!(data.parse_exit_code(), None);
    data.error = "".into();
    assert_eq!(data.parse_exit_code(), None);
}

// ---- session start / stop / tier 3 ----

#[test]
fn short_brief_passes_through_unchanged() {
    let s = "short brief content";
    assert_eq!(truncate_brief(s, 10_000), s);
}

#[test]
fn long_ascii_brief_is_truncated_with_suffix() {
    let s = "x".repeat(15_000);
    let out = truncate_brief(&s, 10_000);
    assert!(out.ends_with(BRIEF_TRUNCATE_SUFFIX));
    assert!(out.len() <= 10_000);
}

#[test]
fn truncate_does_not_panic_on_multibyte_boundary() {
    let s = "한글".repeat(3_000);
    let out = truncate_brief(&s, 5_000);
    assert!(out.ends_with(BRIEF_TRUNCATE_SUFFIX));
    assert!(out.len() <= 5_000);
}

#[test]
fn tiny_budget_never_exceeded() {
    let s = "x".repeat(100);
    assert_eq!(truncate_brief(&s, 0), "");
    assert_eq!(truncate_brief(&s, 5), "\n\n...");
    assert_eq!(truncate_brief(&s, 39), BRIEF_TRUNCATE_SUFFIX);
    assert_eq!(truncate_brief(&s, 40), format!("x{}", BRIEF_TRUNCATE_SUFFIX));
    assert_eq!(truncate_brief("abc", 0), "");
    assert_eq!(truncate_brief("", 0), "");
    for max in 0..60 {
        assert!(truncate_brief(&"한".repeat(30), max).len() <= max);
    }
}

#[test]
fn blank_brief_injects_nothing() {
    assert_eq!(brief_context("  \n\t "), None);
    assert_eq!(brief_context(""), None);
    assert_eq!(
        brief_context("rule one\n").as_deref(),
        Some("<myth-brief>\nrule one\n\n</myth-brief>")
    );
    let big = "z".repeat(BRIEF_MAX_BYTES + 1);
    let ctx = brief_context(&big).unwrap();
    assert!(ctx.ends_with("(truncated, see ~/.myth/brief.md)\n</myth-brief>"));
}

#[test]
fn tier2_off_on_day1() {
    assert!(!is_tier2_enabled());
}

#[test]
fn gate_is_inactive_on_day_1() {
    assert!(!tier3_gate_active(), "Tier 3 gate must be false on Day-1 (Milestone A gate)");
}

#[test]
fn tier3_envelope_is_sorted_json() {
    assert_eq!(envelope_file_name("abc"), "myth-tier3-abc.json");
    let data = record_failure();
    let e = envelope_json("sess", &data, "{\"command\":\"cat /nonexistent\"}");
    let v: serde_json::Value = serde_json::from_str(&e).unwrap();
    assert_eq!(v["session_id"], "sess");
    assert_eq!(v["tool_name"], "Bash");
    assert!(e.starts_with("{\"error\":"));
    assert_eq!(dispatch_status(true, Some(3)), Ok(()));
    assert_eq!(dispatch_status(false, Some(3)), Err(3));
    assert_eq!(dispatch_status(false, None), Err(-1));
}

#[test]
fn remand_budget_is_three() {
    let mut c = RemandCounter::new();
    assert_eq!(c.attempts, 0);
    assert!(c.previous_response_hash.is_none());
    assert!(c.budget_remaining());
    c.attempts = MAX_REMAND_ATTEMPTS - 1;
    assert!(c.budget_remaining());
    c.attempts = MAX_REMAND_ATTEMPTS;
    assert!(!c.budget_remaining());
    assert_eq!(RemandCounter::default(), RemandCounter::new());
}

// ---- pre tool mapping ----

#[test]
fn enforcement_maps_to_result_and_verdict() {
    let cases = [
        (Enforcement::Dismiss, ResultKind::Allow, DbVerdict::Allow),
        (Enforcement::Note, ResultKind::Allow, DbVerdict::Allow),
        (Enforcement::Advisory, ResultKind::AllowWithContext, DbVerdict::Allow),
        (Enforcement::Caution, ResultKind::AllowWithContext, DbVerdict::Allow),
        (Enforcement::Warn, ResultKind::Ask, DbVerdict::Ask),
        (Enforcement::Remand, ResultKind::Ask, DbVerdict::Ask),
        (Enforcement::Strike, ResultKind::Block, DbVerdict::Deny),
        (Enforcement::Seal, ResultKind::Block, DbVerdict::Deny),
    ];
    for (e, k, v) in cases {
        assert_eq!(pre_tool_result_kind(e), k);
        assert_eq!(db_verdict_from(e), v);
    }
    let ev = pre_tool_event(SessionId(9), "Bash".into(), Enforcement::Strike, Some(LessonId(5)));
    assert_eq!(ev.event_type, HookEventType::PreTool);
    assert_eq!(ev.verdict, DbVerdict::Deny);
    assert_eq!(ev.lesson_id, Some(LessonId(5)));
}

#[test]
fn pre_tool_compiles() {}

#[test]
fn post_tool_compiles() {}

#[test]
fn user_prompt_compiles() {}
