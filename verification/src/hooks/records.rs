//! The records post-tool-failure appends to its observability JSONL files:
//!
//! - `caselog.jsonl`: every failure, Tier 0 hit or miss;
//! - `lesson-state.jsonl`: lesson lifecycle events (`lesson_created` on a
//!   new Tier 0 lesson, `pending_reflection` on a Tier 0 miss);
//! - `metrics/reflector-shadow.jsonl`: one record per Tier 0/1 decision.
//!
//! Timestamps are passed in as ISO 8601 text.

use vstd::prelude::*;

use crate::common::{category_label, category_sql_label, uuid_text, LessonId, ReminderId};
use crate::hooks::input::{exit_code_of, PostToolUseFailureData};
use crate::hooks::tier0::DeterministicClassification;
use crate::json::{compact_json, json_string, json_string_text, json_value_compact};
use crate::text::{decimal, push_decimal, push_signed_decimal, push_str, signed_decimal};

verus! {

/// A `caselog.jsonl` line. The `classified_*` fields are set when Tier 0
/// resolved the failure; `reminder_id` when Tier 1 deferred it.
#[derive(Debug)]
pub struct FailureRecord<'a> {
    pub ts: String,
    pub session_id: &'a str,
    pub event: &'static str,
    pub tool_name: &'a str,
    pub tool_input: &'a serde_json::Value,
    pub tool_use_id: &'a str,
    pub error: &'a str,
    pub is_interrupt: bool,
    pub exit_code: Option<i32>,
    pub classified_level: Option<u8>,
    pub classified_category: Option<&'static str>,
    pub rationale: Option<&'static str>,
    pub lesson_id: Option<String>,
    pub reminder_id: Option<String>,
}

impl<'a> FailureRecord<'a> {
    /// The base record of a failure at time `ts`; callers add the Tier 0
    /// or Tier 1 specifics.
    pub fn from_envelope(ts: String, session_id: &'a str, data: &'a PostToolUseFailureData) -> (r:
        FailureRecord<'a>)
        ensures
            r.ts == ts,
            r.session_id == session_id,
            r.event@ == "post_tool_failure"@,
            r.tool_name@ == data.tool_name@,
            r.tool_input == data.tool_input,
            r.tool_use_id@ == data.tool_use_id@,
            r.error@ == data.error@,
            r.is_interrupt == data.is_interrupt,
            r.exit_code == exit_code_of(data.error@),
            r.classified_level is None,
            r.classified_category is None,
            r.rationale is None,
            r.lesson_id is None,
            r.reminder_id is None,
    {
        FailureRecord {
            ts,
            session_id,
            event: "post_tool_failure",
            tool_name: data.tool_name.as_str(),
            tool_input: &data.tool_input,
            tool_use_id: data.tool_use_id.as_str(),
            error: data.error.as_str(),
            is_interrupt: data.is_interrupt,
            exit_code: data.parse_exit_code(),
            classified_level: None,
            classified_category: None,
            rationale: None,
            lesson_id: None,
            reminder_id: None,
        }
    }

    /// The record with Tier 0's classification and the lesson it was filed
    /// under.
    pub fn with_classification(self, c: &DeterministicClassification, lesson_id: LessonId) -> (r:
        FailureRecord<'a>)
        ensures
            r.ts == self.ts,
            r.session_id == self.session_id,
            r.event == self.event,
            r.tool_name == self.tool_name,
            r.tool_input == self.tool_input,
            r.tool_use_id == self.tool_use_id,
            r.error == self.error,
            r.is_interrupt == self.is_interrupt,
            r.exit_code == self.exit_code,
            r.classified_level == Some(c.level.number()),
            r.classified_category matches Some(k) && k@ == category_label(c.category),
            r.rationale == Some(c.rationale),
            r.lesson_id matches Some(l) && l@ == uuid_text(lesson_id.0),
            r.reminder_id == self.reminder_id,
    {
        let mut r = self;
        r.classified_level = Some(c.level.as_u8());
        r.classified_category = Some(category_sql_label(c.category));
        r.rationale = Some(c.rationale);
        r.lesson_id = Some(lesson_id.to_string());
        r
    }

    /// The record with the reminder Tier 1 is waiting on.
    pub fn with_reminder(self, reminder_id: ReminderId) -> (r: FailureRecord<'a>)
        ensures
            r.ts == self.ts,
            r.session_id == self.session_id,
            r.event == self.event,
            r.tool_name == self.tool_name,
            r.tool_input == self.tool_input,
            r.tool_use_id == self.tool_use_id,
            r.error == self.error,
            r.is_interrupt == self.is_interrupt,
            r.exit_code == self.exit_code,
            r.classified_level == self.classified_level,
            r.classified_category == self.classified_category,
            r.rationale == self.rationale,
            r.lesson_id == self.lesson_id,
            r.reminder_id matches Some(m) && m@ == uuid_text(reminder_id.0),
    {
        let mut r = self;
        r.reminder_id = Some(reminder_id.to_string());
        r
    }
}

/// The characters of an optional string slice.
pub open spec fn opt_str_view(o: Option<&str>) -> Option<Seq<char>> {
    match o {
        Some(t) => Some(t@),
        None => None,
    }
}

/// The characters of an optional string.
pub open spec fn opt_string_view(o: Option<String>) -> Option<Seq<char>> {
    match o {
        Some(t) => Some(t@),
        None => None,
    }
}

/// `,"key":` and the JSON string of the value, or nothing when there is no
/// value.
pub open spec fn opt_text_field(key: Seq<char>, v: Option<Seq<char>>) -> Seq<char> {
    match v {
        Some(t) => ",\""@ + key + "\":"@ + json_string_text(t),
        None => ""@,
    }
}

/// `,"key":` and the decimal value, or nothing when there is no value.
pub open spec fn opt_number_field(key: Seq<char>, v: Option<int>) -> Seq<char> {
    match v {
        Some(n) => ",\""@ + key + "\":"@ + signed_decimal(n),
        None => ""@,
    }
}

/// An optional `i32` as an integer.
pub open spec fn opt_i32_int(o: Option<i32>) -> Option<int> {
    match o {
        Some(n) => Some(n as int),
        None => None,
    }
}

/// An optional `u8` as an integer.
pub open spec fn opt_u8_int(o: Option<u8>) -> Option<int> {
    match o {
        Some(n) => Some(n as int),
        None => None,
    }
}

/// The compact JSON line of a caselog record: its fields in declaration
/// order, the optional ones left out when empty.
pub open spec fn failure_record_json(r: FailureRecord) -> Seq<char> {
    "{\"ts\":"@ + json_string_text(r.ts@) + ",\"session_id\":"@ + json_string_text(r.session_id@)
        + ",\"event\":"@ + json_string_text(r.event@) + ",\"tool_name\":"@ + json_string_text(
        r.tool_name@,
    ) + ",\"tool_input\":"@ + json_value_compact(*r.tool_input) + ",\"tool_use_id\":"@
        + json_string_text(r.tool_use_id@) + ",\"error\":"@ + json_string_text(r.error@)
        + ",\"is_interrupt\":"@ + (if r.is_interrupt {
        "true"@
    } else {
        "false"@
    }) + opt_number_field("exit_code"@, opt_i32_int(r.exit_code)) + opt_number_field(
        "classified_level"@,
        opt_u8_int(r.classified_level),
    ) + opt_text_field("classified_category"@, opt_str_view(r.classified_category))
        + opt_text_field("rationale"@, opt_str_view(r.rationale)) + opt_text_field(
        "lesson_id"@,
        opt_string_view(r.lesson_id),
    ) + opt_text_field("reminder_id"@, opt_string_view(r.reminder_id)) + "}"@
}

/// Appends `,"key":` and the JSON string of `v`, if there is one.
fn push_opt_text_field(s: &mut String, key: &str, v: Option<&str>)
    ensures
        final(s)@ == old(s)@ + opt_text_field(key@, opt_str_view(v)),
{
    match v {
        Some(t) => {
            push_str(s, ",\"");
            push_str(s, key);
            push_str(s, "\":");
            let j = json_string(t);
            push_str(s, j.as_str());
            assert(final(s)@ =~= old(s)@ + opt_text_field(key@, opt_str_view(v)));
        },
        None => {
            proof { reveal_strlit(""); }
            assert(old(s)@ + opt_text_field(key@, opt_str_view(v)) =~= old(s)@);
        },
    }
}

/// Appends `,"key":` and the decimal `v`, if there is one.
fn push_opt_number_field(s: &mut String, key: &str, v: Option<i64>)
    ensures
        final(s)@ == old(s)@ + opt_number_field(
            key@,
            match v {
                Some(n) => Some(n as int),
                None => None,
            },
        ),
{
    match v {
        Some(n) => {
            push_str(s, ",\"");
            push_str(s, key);
            push_str(s, "\":");
            push_signed_decimal(s, n);
            assert(final(s)@ =~= old(s)@ + (",\""@ + key@ + "\":"@ + signed_decimal(n as int)));
        },
        None => {
            proof { reveal_strlit(""); }
            assert(old(s)@ + ""@ =~= old(s)@);
        },
    }
}

impl<'a> FailureRecord<'a> {
    /// The record as one compact JSON line (no newline): fields in
    /// declaration order, empty optional fields left out.
    pub fn to_jsonl(&self) -> (j: String)
        ensures
            j@ == failure_record_json(*self),
    {
        let mut s = String::new();
        push_str(&mut s, "{\"ts\":");
        let t = json_string(self.ts.as_str());
        push_str(&mut s, t.as_str());
        push_str(&mut s, ",\"session_id\":");
        let t = json_string(self.session_id);
        push_str(&mut s, t.as_str());
        push_str(&mut s, ",\"event\":");
        let t = json_string(self.event);
        push_str(&mut s, t.as_str());
        push_str(&mut s, ",\"tool_name\":");
        let t = json_string(self.tool_name);
        push_str(&mut s, t.as_str());
        push_str(&mut s, ",\"tool_input\":");
        let t = compact_json(self.tool_input);
        push_str(&mut s, t.as_str());
        push_str(&mut s, ",\"tool_use_id\":");
        let t = json_string(self.tool_use_id);
        push_str(&mut s, t.as_str());
        push_str(&mut s, ",\"error\":");
        let t = json_string(self.error);
        push_str(&mut s, t.as_str());
        push_str(&mut s, ",\"is_interrupt\":");
        if self.is_interrupt {
            push_str(&mut s, "true");
        } else {
            push_str(&mut s, "false");
        }
        let ghost head = s@;
        let exit: Option<i64> = match self.exit_code {
            Some(n) => Some(n as i64),
            None => None,
        };
        push_opt_number_field(&mut s, "exit_code", exit);
        let level: Option<i64> = match self.classified_level {
            Some(n) => Some(n as i64),
            None => None,
        };
        push_opt_number_field(&mut s, "classified_level", level);
        push_opt_text_field(&mut s, "classified_category", self.classified_category);
        push_opt_text_field(&mut s, "rationale", self.rationale);
        let lesson: Option<&str> = match &self.lesson_id {
            Some(l) => Some(l.as_str()),
            None => None,
        };
        push_opt_text_field(&mut s, "lesson_id", lesson);
        let reminder: Option<&str> = match &self.reminder_id {
            Some(m) => Some(m.as_str()),
            None => None,
        };
        push_opt_text_field(&mut s, "reminder_id", reminder);
        push_str(&mut s, "}");
        proof {
            assert(opt_str_view(lesson) == opt_string_view(self.lesson_id));
            assert(opt_str_view(reminder) == opt_string_view(self.reminder_id));
        }
        assert(s@ =~= failure_record_json(*self));
        s
    }
}

/// A `pending_reflection` event (Tier 0 miss).
#[derive(Debug)]
pub struct PendingReflection<'a> {
    pub ts: String,
    pub event: &'static str,
    pub reminder_id: String,
    pub session_id: &'a str,
    pub tool_name: &'a str,
    pub tool_use_id: &'a str,
}

impl<'a> PendingReflection<'a> {
    /// The event for a failure deferred to Tier 1 under `reminder_id`.
    pub fn new(
        ts: String,
        reminder_id: ReminderId,
        session_id: &'a str,
        data: &'a PostToolUseFailureData,
    ) -> (r: PendingReflection<'a>)
        ensures
            r.ts == ts,
            r.event@ == "pending_reflection"@,
            r.reminder_id@ == uuid_text(reminder_id.0),
            r.session_id == session_id,
            r.tool_name@ == data.tool_name@,
            r.tool_use_id@ == data.tool_use_id@,
    {
        PendingReflection {
            ts,
            event: "pending_reflection",
            reminder_id: reminder_id.to_string(),
            session_id,
            tool_name: data.tool_name.as_str(),
            tool_use_id: data.tool_use_id.as_str(),
        }
    }
}

/// A `lesson_created` event (Tier 0 hit on a new lesson).
#[derive(Debug)]
pub struct LessonCreated<'a> {
    pub ts: String,
    pub event: &'static str,
    pub lesson_id: String,
    pub session_id: &'a str,
    pub level: u8,
    pub category: &'static str,
    pub rationale: &'static str,
}

impl<'a> LessonCreated<'a> {
    /// The event for a lesson created from a Tier 0 classification.
    pub fn new(
        ts: String,
        lesson_id: LessonId,
        session_id: &'a str,
        c: &DeterministicClassification,
    ) -> (r: LessonCreated<'a>)
        ensures
            r.ts == ts,
            r.event@ == "lesson_created"@,
            r.lesson_id@ == uuid_text(lesson_id.0),
            r.session_id == session_id,
            r.level == c.level.number(),
            r.category@ == category_label(c.category),
            r.rationale == c.rationale,
    {
        LessonCreated {
            ts,
            event: "lesson_created",
            lesson_id: lesson_id.to_string(),
            session_id,
            level: c.level.as_u8(),
            category: category_sql_label(c.category),
            rationale: c.rationale,
        }
    }
}

/// A `reflector-shadow.jsonl` line: which tier resolved the failure
/// (0: Tier 0, 1: Variant B dispatched).
#[derive(Debug)]
pub struct ShadowMetric<'a> {
    pub ts: String,
    pub tier_resolved: u8,
    pub variant: &'static str,
    pub reminder_id: Option<String>,
    pub rationale: Option<&'static str>,
    pub tool_name: &'a str,
}

impl<'a> ShadowMetric<'a> {
    /// Tier 0 resolved the failure with this classification.
    pub fn tier0(ts: String, c: &DeterministicClassification, tool_name: &'a str) -> (r:
        ShadowMetric<'a>)
        ensures
            r.ts == ts,
            r.tier_resolved == 0,
            r.variant@ == "B"@,
            r.reminder_id is None,
            r.rationale == Some(c.rationale),
            r.tool_name == tool_name,
    {
        ShadowMetric {
            ts,
            tier_resolved: 0,
            variant: "B",
            reminder_id: None,
            rationale: Some(c.rationale),
            tool_name,
        }
    }

    /// Tier 1 took the failure under this reminder.
    pub fn tier1(ts: String, reminder_id: ReminderId, tool_name: &'a str) -> (r: ShadowMetric<
        'a,
    >)
        ensures
            r.ts == ts,
            r.tier_resolved == 1,
            r.variant@ == "B"@,
            r.reminder_id matches Some(m) && m@ == uuid_text(reminder_id.0),
            r.rationale is None,
            r.tool_name == tool_name,
    {
        ShadowMetric {
            ts,
            tier_resolved: 1,
            variant: "B",
            reminder_id: Some(reminder_id.to_string()),
            rationale: None,
            tool_name,
        }
    }
}

/// The description of a new lesson: the first 500 characters of its
/// normalised text.
pub fn lesson_description(normalized: &str) -> (d: String)
    ensures
        d@ == if normalized@.len() <= 500 {
            normalized@
        } else {
            normalized@.take(500)
        },
{
    let v = crate::text::chars_of(normalized);
    let n = if v.len() <= 500 {
        v.len()
    } else {
        500
    };
    let head = &v.as_slice()[0..n];
    assert(head@ =~= if normalized@.len() <= 500 {
        normalized@
    } else {
        normalized@.take(500)
    });
    crate::text::string_from(head)
}

} // verus!
