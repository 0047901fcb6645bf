//! Tier 3 dispatch, switched off on Day 1. Once switched on, a failure's
//! envelope is saved under a temporary name derived from the session, for
//! the assessor process to read. Dispatch failures only affect
//! observability, never the hook result.

use vstd::prelude::*;

use crate::hooks::input::PostToolUseFailureData;
use crate::json::{compact_json, json_string, json_string_text, json_value_compact};
use crate::text::push_str;

verus! {

/// Whether Tier 3 dispatch is active. Off on Day 1.
pub fn tier3_gate_active() -> (b: bool)
    ensures
        !b,
{
    false
}

/// The temporary file name of a session's envelope.
pub fn envelope_file_name(session_id: &str) -> (s: String)
    ensures
        s@ == "myth-tier3-"@ + session_id@ + ".json"@,
{
    let mut s = String::new();
    push_str(&mut s, "myth-tier3-");
    push_str(&mut s, session_id);
    push_str(&mut s, ".json");
    s
}

/// The envelope handed to the assessor: a JSON object with the error,
/// session id, tool input (given as JSON text), tool name and tool use id,
/// keys in sorted order as a `serde_json` map writes them.
pub open spec fn envelope_text(
    session_id: Seq<char>,
    data: PostToolUseFailureData,
    tool_input: Seq<char>,
) -> Seq<char> {
    "{\"error\":"@ + json_string_text(data.error@) + ",\"session_id\":"@ + json_string_text(
        session_id,
    ) + ",\"tool_input\":"@ + tool_input + ",\"tool_name\":"@ + json_string_text(data.tool_name@)
        + ",\"tool_use_id\":"@ + json_string_text(data.tool_use_id@) + "}"@
}

/// The JSON envelope of a failure for the assessor.
pub fn envelope_json(session_id: &str, data: &PostToolUseFailureData, tool_input_json: &str) -> (r:
    String)
    ensures
        r@ == envelope_text(session_id@, *data, tool_input_json@),
{
    let mut s = String::new();
    push_str(&mut s, "{\"error\":");
    let e = json_string(data.error.as_str());
    push_str(&mut s, e.as_str());
    push_str(&mut s, ",\"session_id\":");
    let sid = json_string(session_id);
    push_str(&mut s, sid.as_str());
    push_str(&mut s, ",\"tool_input\":");
    push_str(&mut s, tool_input_json);
    push_str(&mut s, ",\"tool_name\":");
    let n = json_string(data.tool_name.as_str());
    push_str(&mut s, n.as_str());
    push_str(&mut s, ",\"tool_use_id\":");
    let u = json_string(data.tool_use_id.as_str());
    push_str(&mut s, u.as_str());
    push_str(&mut s, "}");
    assert(s@ =~= envelope_text(session_id@, *data, tool_input_json@));
    s
}

/// The JSON envelope of a failure, with serde_json's compact text of its
/// tool input.
pub fn failure_envelope(session_id: &str, data: &PostToolUseFailureData) -> (r: String)
    ensures
        r@ == envelope_text(session_id@, *data, json_value_compact(data.tool_input)),
{
    let input = compact_json(&data.tool_input);
    envelope_json(session_id, data, input.as_str())
}

/// How the assessor process ended: `Ok` on success, else the exit code
/// reported (-1 when it died by a signal).
pub fn dispatch_status(success: bool, code: Option<i32>) -> (r: Result<(), i32>)
    ensures
        success ==> r is Ok,
        !success ==> r == Err::<(), i32>(
            match code {
                Some(c) => c,
                None => -1i32,
            },
        ),
{
    if success {
        Ok(())
    } else {
        match code {
            Some(c) => Err(c),
            None => Err(-1),
        }
    }
}

} // verus!
