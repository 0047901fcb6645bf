//! Variant B: the "engineered" Tier 1 template. It tells the agent to
//! dispatch the `assessor` subagent on specific error classes, and embeds
//! the failure payload as compact JSON so the subagent sees the exact
//! schema the agent CLI sent (`error` string and `is_interrupt` flag).
//!
//! Long payloads burn tokens, so the embedded error is cut to
//! `ERROR_MAX_BYTES` first.

use vstd::prelude::*;

use crate::bounded::{lemma_truncated_shape, truncate_utf8, truncated_to, utf8_len};
use crate::common::{uuid_text, ReminderId};
use crate::hooks::input::PostToolUseFailureData;
use crate::json::{json_string, json_string_text, json_value_compact, json_value_text};
use crate::text::push_str;

verus! {

/// The most bytes of the `error` string embedded in the template. The
/// first few hundred bytes of a traceback carry the error kind and the top
/// frame, which is what the assessor needs.
pub const ERROR_MAX_BYTES: usize = 4000;

/// Appended to an error that was cut.
pub const TRUNCATE_SUFFIX: &'static str = "\u{2026} [truncated by myth]";

/// `error` cut to `ERROR_MAX_BYTES` bytes on a character boundary, with
/// the marker appended when something was cut.
pub open spec fn truncated_error(error: Seq<char>) -> Seq<char> {
    truncated_to(error, ERROR_MAX_BYTES as int, TRUNCATE_SUFFIX@)
}

/// Cuts the embedded error to `ERROR_MAX_BYTES` (see `truncated_error`).
pub fn truncate_error(error: &str) -> (r: String)
    ensures
        r@ == truncated_error(error@),
{
    truncate_utf8(error, ERROR_MAX_BYTES, TRUNCATE_SUFFIX)
}

/// The template up to the tool name.
pub const TEMPLATE_HEAD: &'static str = "<user-prompt-submit-hook>\n<instructions>\nThe tool call in the previous turn failed with a non-recoverable error.\nPer myth project policy, before any remediation attempt you must dispatch\nthe 'assessor' subagent to analyze this failure.\n</instructions>\n\n<decision_rule>\nIF error_class IN {transient_network, rate_limit_429}: retry once; no assessor.\nELSE IF error_class IN {schema_mismatch, permission_denied, logic_error, assertion_fail}:\n  your next action is a single Task tool call (no other output).\nELSE: ask the user.\n</decision_rule>\n\n<example>\nTask(\n  subagent_type=\"assessor\",\n  description=\"Analyze failure of ";

/// Between the tool name and the payload.
pub const TEMPLATE_PAYLOAD: &'static str = "\",\n  prompt=\"Failure payload: ";

/// Between the payload and the reminder id.
pub const TEMPLATE_REMINDER: &'static str = ". Return the strict JSON per assessor contract. reminder_id: ";

/// Between the reminder id and the trigger id.
pub const TEMPLATE_TRIGGER: &'static str = "\"\n)\n</example>\n\n<rationale>\nSkipping reflection on this failure class causes cascading errors.\nThe assessor returns a JSON verdict within one turn on Haiku 4.5.\n</rationale>\n<assessor-trigger-id>";

/// After the trigger id.
pub const TEMPLATE_TAIL: &'static str = "</assessor-trigger-id>\n</user-prompt-submit-hook>";

/// The rendered template for a tool, a payload and a reminder id.
pub open spec fn template_text(tool_name: Seq<char>, payload: Seq<char>, rid: Seq<char>) -> Seq<
    char,
> {
    TEMPLATE_HEAD@ + tool_name + TEMPLATE_PAYLOAD@ + payload + TEMPLATE_REMINDER@ + rid
        + TEMPLATE_TRIGGER@ + rid + TEMPLATE_TAIL@
}

/// The compact JSON of the payload snapshot: tool name, tool input (given
/// as JSON text), tool use id, the cut error and the interrupt flag, in
/// that order.
pub open spec fn snapshot_json(
    tool_name: Seq<char>,
    tool_input: Seq<char>,
    tool_use_id: Seq<char>,
    error: Seq<char>,
    is_interrupt: bool,
) -> Seq<char> {
    "{\"tool_name\":"@ + json_string_text(tool_name) + ",\"tool_input\":"@ + tool_input
        + ",\"tool_use_id\":"@ + json_string_text(tool_use_id) + ",\"error\":"@
        + json_string_text(error) + ",\"is_interrupt\":"@ + if is_interrupt {
        "true"@
    } else {
        "false"@
    } + "}"@
}

/// The payload snapshot of a failure, given the JSON text of its tool
/// input; the error is cut first.
pub fn payload_json(data: &PostToolUseFailureData, tool_input_json: &str) -> (r: String)
    ensures
        r@ == snapshot_json(
            data.tool_name@,
            tool_input_json@,
            data.tool_use_id@,
            truncated_error(data.error@),
            data.is_interrupt,
        ),
{
    let truncated = truncate_error(data.error.as_str());
    let mut s = String::new();
    push_str(&mut s, "{\"tool_name\":");
    let name = json_string(data.tool_name.as_str());
    push_str(&mut s, name.as_str());
    push_str(&mut s, ",\"tool_input\":");
    push_str(&mut s, tool_input_json);
    push_str(&mut s, ",\"tool_use_id\":");
    let id = json_string(data.tool_use_id.as_str());
    push_str(&mut s, id.as_str());
    push_str(&mut s, ",\"error\":");
    let err = json_string(truncated.as_str());
    push_str(&mut s, err.as_str());
    push_str(&mut s, ",\"is_interrupt\":");
    if data.is_interrupt {
        push_str(&mut s, "true");
    } else {
        push_str(&mut s, "false");
    }
    push_str(&mut s, "}");
    assert(s@ =~= snapshot_json(
        data.tool_name@,
        tool_input_json@,
        data.tool_use_id@,
        truncated_error(data.error@),
        data.is_interrupt,
    ));
    s
}

/// The template with its three slots filled.
pub fn fill_template(tool_name: &str, payload: &str, reminder: &str) -> (r: String)
    ensures
        r@ == template_text(tool_name@, payload@, reminder@),
{
    let mut s = String::new();
    push_str(&mut s, TEMPLATE_HEAD);
    push_str(&mut s, tool_name);
    push_str(&mut s, TEMPLATE_PAYLOAD);
    push_str(&mut s, payload);
    push_str(&mut s, TEMPLATE_REMINDER);
    push_str(&mut s, reminder);
    push_str(&mut s, TEMPLATE_TRIGGER);
    push_str(&mut s, reminder);
    push_str(&mut s, TEMPLATE_TAIL);
    assert(s@ =~= template_text(tool_name@, payload@, reminder@));
    s
}

/// Renders the Variant B block for a failure and its reminder id. The
/// payload is the snapshot JSON of the failure, with serde_json's compact
/// text of its tool input (`{}` stands in should serialisation ever fail,
/// which it cannot for a JSON value).
pub fn render(data: &PostToolUseFailureData, reminder_id: ReminderId) -> (r: String)
    ensures
        r@ == template_text(
            data.tool_name@,
            snapshot_json(
                data.tool_name@,
                json_value_compact(data.tool_input),
                data.tool_use_id@,
                truncated_error(data.error@),
                data.is_interrupt,
            ),
            uuid_text(reminder_id.0),
        ),
{
    let payload = match json_value_text(&data.tool_input) {
        Some(input) => payload_json(data, input.as_str()),
        None => "{}".to_owned(),
    };
    let rid = reminder_id.to_string();
    fill_template(data.tool_name.as_str(), payload.as_str(), rid.as_str())
}

/// The embedded error fits `ERROR_MAX_BYTES`; an error that already fits
/// is kept as it is, and a longer one becomes a prefix of itself followed
/// by the marker.
pub proof fn lemma_truncated_error_shape(error: Seq<char>)
    ensures
        utf8_len(truncated_error(error)) <= ERROR_MAX_BYTES,
        utf8_len(error) <= ERROR_MAX_BYTES ==> truncated_error(error) == error,
        utf8_len(error) > ERROR_MAX_BYTES ==> exists|k: int|
            0 <= k <= error.len() && truncated_error(error) == error.take(k) + TRUNCATE_SUFFIX@,
{
    reveal_strlit("\u{2026} [truncated by myth]");
    crate::bounded::lemma_utf8_len_bound(TRUNCATE_SUFFIX@);
    lemma_truncated_shape(error, ERROR_MAX_BYTES as int, TRUNCATE_SUFFIX@);
}

} // verus!
