//! What each hook decides, apart from reading its input and writing its
//! output: the brief injected at session start, the mapping of the
//! Gavel's verdict onto a hook result and an observability verdict, the
//! observability rows of the tool hooks, and the Day-1 switches.

use vstd::prelude::*;

use crate::bounded::{lemma_truncated_shape, lemma_utf8_len_bound, truncate_utf8, truncated_to, utf8_len};
use crate::common::{Enforcement, LessonId, SessionId};
use crate::hooks::output::{DbVerdict, HookEventType, PartialHookEvent};
use crate::text::{push_str, trim_str, trim_ws};

verus! {

/// The most bytes of `~/.myth/brief.md` injected at session start.
pub const BRIEF_MAX_BYTES: usize = 10000;

/// Appended to a brief that was cut.
pub const BRIEF_TRUNCATE_SUFFIX: &'static str = "\n\n... (truncated, see ~/.myth/brief.md)";

/// `brief` cut to at most `max_bytes` bytes on a character boundary, with
/// the marker appended when something was cut. When the marker alone is
/// longer than `max_bytes`, the result is the marker cut to `max_bytes`
/// bytes; the result never exceeds `max_bytes` bytes.
pub fn truncate_brief(brief: &str, max_bytes: usize) -> (r: String)
    ensures
        r@ == truncated_to(brief@, max_bytes as int, BRIEF_TRUNCATE_SUFFIX@),
        utf8_len(r@) <= max_bytes,
{
    truncate_utf8(brief, max_bytes, BRIEF_TRUNCATE_SUFFIX)
}

/// The context injected for a brief: nothing for a blank brief, else the
/// (cut) brief inside `<myth-brief>` tags.
pub open spec fn brief_context_text(brief: Seq<char>) -> Option<Seq<char>> {
    if trim_ws(brief).len() == 0 {
        None
    } else {
        Some(
            "<myth-brief>\n"@ + truncated_to(brief, BRIEF_MAX_BYTES as int, BRIEF_TRUNCATE_SUFFIX@)
                + "\n</myth-brief>"@,
        )
    }
}

/// The session-start context for the text of `~/.myth/brief.md`.
pub fn brief_context(brief: &str) -> (r: Option<String>)
    ensures
        match brief_context_text(brief@) {
            Some(t) => r matches Some(s) && s@ == t,
            None => r is None,
        },
{
    let trimmed = trim_str(brief);
    if trimmed.as_str().is_empty() {
        return None;
    }
    let injected = truncate_brief(brief, BRIEF_MAX_BYTES);
    let mut s = String::new();
    push_str(&mut s, "<myth-brief>\n");
    push_str(&mut s, injected.as_str());
    push_str(&mut s, "\n</myth-brief>");
    Some(s)
}

/// Whether the Stop hook's Tier 2 reinforcement runs. Off on Day 1: the
/// Stop hook always allows.
pub fn is_tier2_enabled() -> (b: bool)
    ensures
        !b,
{
    false
}

/// The observability verdict of an enforcement level: the four mildest
/// allow, Warn and Remand ask, Strike and Seal deny.
pub open spec fn db_verdict_of(e: Enforcement) -> DbVerdict {
    match e {
        Enforcement::Dismiss | Enforcement::Note | Enforcement::Advisory | Enforcement::Caution => {
            DbVerdict::Allow
        },
        Enforcement::Warn | Enforcement::Remand => DbVerdict::Ask,
        Enforcement::Strike | Enforcement::Seal => DbVerdict::Deny,
    }
}

/// Collapses the Gavel's enforcement onto the three-state verdict column.
pub fn db_verdict_from(enforcement: Enforcement) -> (v: DbVerdict)
    ensures
        v == db_verdict_of(enforcement),
{
    match enforcement {
        Enforcement::Dismiss | Enforcement::Note | Enforcement::Advisory | Enforcement::Caution => {
            DbVerdict::Allow
        },
        Enforcement::Warn | Enforcement::Remand => DbVerdict::Ask,
        Enforcement::Strike | Enforcement::Seal => DbVerdict::Deny,
    }
}

/// The kind of hook result an enforcement level leads to.
#[derive(Debug, Clone, Copy, PartialEq, Eq, Structural)]
pub enum ResultKind {
    /// Plain allow.
    Allow,
    /// Allow, with the verdict's JSON as context.
    AllowWithContext,
    /// Ask the user, with the verdict's JSON.
    Ask,
    /// Block the tool, with the verdict's JSON.
    Block,
}

/// The hook result kind of an enforcement level: Dismiss and Note allow,
/// Advisory and Caution allow with context, Warn and Remand ask, Strike
/// and Seal block.
pub open spec fn result_kind_of(e: Enforcement) -> ResultKind {
    match e {
        Enforcement::Dismiss | Enforcement::Note => ResultKind::Allow,
        Enforcement::Advisory | Enforcement::Caution => ResultKind::AllowWithContext,
        Enforcement::Warn | Enforcement::Remand => ResultKind::Ask,
        Enforcement::Strike | Enforcement::Seal => ResultKind::Block,
    }
}

/// The PreToolUse result kind for the Gavel's enforcement.
pub fn pre_tool_result_kind(enforcement: Enforcement) -> (k: ResultKind)
    ensures
        k == result_kind_of(enforcement),
{
    match enforcement {
        Enforcement::Dismiss | Enforcement::Note => ResultKind::Allow,
        Enforcement::Advisory | Enforcement::Caution => ResultKind::AllowWithContext,
        Enforcement::Warn | Enforcement::Remand => ResultKind::Ask,
        Enforcement::Strike | Enforcement::Seal => ResultKind::Block,
    }
}

/// The hook result and the recorded verdict agree: a tool is blocked
/// exactly when the verdict is deny (only Strike and Seal), the user is
/// asked exactly when it is ask, and otherwise the tool runs with verdict
/// allow.
pub proof fn lemma_result_matches_verdict(e: Enforcement)
    ensures
        (result_kind_of(e) == ResultKind::Block) <==> (e == Enforcement::Strike || e
            == Enforcement::Seal),
        (result_kind_of(e) == ResultKind::Block) <==> (db_verdict_of(e) == DbVerdict::Deny),
        (result_kind_of(e) == ResultKind::Ask) <==> (db_verdict_of(e) == DbVerdict::Ask),
        (result_kind_of(e) == ResultKind::Allow || result_kind_of(e)
            == ResultKind::AllowWithContext) <==> (db_verdict_of(e) == DbVerdict::Allow),
{
}

/// The observability row of a judged tool call.
pub fn pre_tool_event(
    session_id: SessionId,
    tool_name: String,
    enforcement: Enforcement,
    lesson_id: Option<LessonId>,
) -> (ev: PartialHookEvent)
    ensures
        ev.session_id == session_id,
        ev.event_type == HookEventType::PreTool,
        ev.tool_name == Some(tool_name),
        ev.verdict == db_verdict_of(enforcement),
        ev.lesson_id == lesson_id,
{
    PartialHookEvent {
        session_id,
        event_type: HookEventType::PreTool,
        tool_name: Some(tool_name),
        verdict: db_verdict_from(enforcement),
        lesson_id,
    }
}

/// The observability row of a successful tool call: always allow, with no
/// lesson.
pub fn post_tool_event(session_id: SessionId, tool_name: String) -> (ev: PartialHookEvent)
    ensures
        ev.session_id == session_id,
        ev.event_type == HookEventType::PostTool,
        ev.tool_name == Some(tool_name),
        ev.verdict == DbVerdict::Allow,
        ev.lesson_id is None,
{
    PartialHookEvent {
        session_id,
        event_type: HookEventType::PostTool,
        tool_name: Some(tool_name),
        verdict: DbVerdict::Allow,
        lesson_id: None,
    }
}

/// The injected brief fits `BRIEF_MAX_BYTES`; a brief that already fits is
/// injected whole, and a longer one as a prefix of itself followed by the
/// marker.
pub proof fn lemma_brief_shape(brief: Seq<char>)
    ensures
        utf8_len(truncated_to(brief, BRIEF_MAX_BYTES as int, BRIEF_TRUNCATE_SUFFIX@))
            <= BRIEF_MAX_BYTES,
        utf8_len(brief) <= BRIEF_MAX_BYTES ==> truncated_to(
            brief,
            BRIEF_MAX_BYTES as int,
            BRIEF_TRUNCATE_SUFFIX@,
        ) == brief,
        utf8_len(brief) > BRIEF_MAX_BYTES ==> exists|k: int|
            0 <= k <= brief.len() && truncated_to(brief, BRIEF_MAX_BYTES as int, BRIEF_TRUNCATE_SUFFIX@)
                == brief.take(k) + BRIEF_TRUNCATE_SUFFIX@,
{
    reveal_strlit("\n\n... (truncated, see ~/.myth/brief.md)");
    lemma_utf8_len_bound(BRIEF_TRUNCATE_SUFFIX@);
    lemma_truncated_shape(brief, BRIEF_MAX_BYTES as int, BRIEF_TRUNCATE_SUFFIX@);
}

} // verus!
