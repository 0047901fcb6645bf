//! What a hook returns: a `HookResult` (stdout JSON + exit code, emitted by
//! the caller), optionally with a `PartialHookEvent` for the observability
//! table. Only `Block` stops the tool; internal errors degrade to allow.

use vstd::prelude::*;

use crate::common::{LessonId, SessionId};

verus! {

/// The user-visible outcome of a hook.
#[derive(Debug, Clone)]
pub enum HookResult {
    /// Plain allow — no stdout, exit 0.
    Allow,
    /// Allow with `additionalContext` injected into the agent's context.
    AllowWithContext(serde_json::Value),
    /// Ask the user — stdout JSON, exit 0.
    Ask(serde_json::Value),
    /// Block tool execution — stdout JSON, exit 2.
    Block { output: serde_json::Value },
    /// Internal hook error — logged, exit 0.
    Error(String),
}

/// The label recorded for a result.
pub open spec fn result_label(r: HookResult) -> Seq<char> {
    match r {
        HookResult::Allow => "allow"@,
        HookResult::AllowWithContext(_) => "allow_with_context"@,
        HookResult::Ask(_) => "ask"@,
        HookResult::Block { .. } => "block"@,
        HookResult::Error(_) => "error"@,
    }
}

/// The process exit code a result maps to: 2 for a block, 0 otherwise.
pub open spec fn result_exit_code(r: HookResult) -> u8 {
    if r is Block {
        2
    } else {
        0
    }
}

impl HookResult {
    /// The label recorded for this result.
    pub fn label(&self) -> (s: &'static str)
        ensures
            s@ == result_label(*self),
    {
        match self {
            HookResult::Allow => "allow",
            HookResult::AllowWithContext(_) => "allow_with_context",
            HookResult::Ask(_) => "ask",
            HookResult::Block { .. } => "block",
            HookResult::Error(_) => "error",
        }
    }

    /// Whether the result stops the tool call (only `Block` does).
    pub fn is_blocking(&self) -> (b: bool)
        ensures
            b == (*self is Block),
    {
        match self {
            HookResult::Block { .. } => true,
            _ => false,
        }
    }

    /// The exit code the hook process ends with: 2 for `Block`, else 0.
    pub fn exit_code(&self) -> (c: u8)
        ensures
            c == result_exit_code(*self),
    {
        if self.is_blocking() {
            2
        } else {
            0
        }
    }
}

/// Only a block stops the tool: every other result, an internal error
/// included, exits 0.
pub proof fn lemma_only_block_exits_two(r: HookResult)
    ensures
        result_exit_code(r) == 2 <==> r is Block,
        !(r is Block) ==> result_exit_code(r) == 0,
{
}

/// The kind of hook that produced an observability row.
#[derive(Debug, Clone, Copy, PartialEq, Eq, Hash, Structural)]
pub enum HookEventType {
    PreTool,
    PostTool,
    PostToolFailure,
}

/// The three-state verdict column of the observability table.
#[derive(Debug, Clone, Copy, PartialEq, Eq, Hash, Structural)]
pub enum DbVerdict {
    Allow,
    Ask,
    Deny,
}

/// The part of an observability row a hook fills in before the latency is
/// known.
#[derive(Debug, Clone)]
pub struct PartialHookEvent {
    pub session_id: SessionId,
    pub event_type: HookEventType,
    pub tool_name: Option<String>,
    pub verdict: DbVerdict,
    pub lesson_id: Option<LessonId>,
}

/// What a hook body hands back: the result, and optionally a row to record.
#[derive(Debug, Clone)]
pub struct HookOutcome {
    pub result: HookResult,
    pub event: Option<PartialHookEvent>,
}

impl HookOutcome {
    /// The same outcome, asking for `event` to be recorded.
    pub fn with_event(self, event: PartialHookEvent) -> (o: HookOutcome)
        ensures
            o.result == self.result,
            o.event == Some(event),
    {
        HookOutcome { result: self.result, event: Some(event) }
    }

    /// An outcome with this result and nothing to record.
    pub fn from_result(result: HookResult) -> (o: HookOutcome)
        ensures
            o.result == result,
            o.event is None,
    {
        HookOutcome { result, event: None }
    }
}

impl From<HookResult> for HookOutcome {
    fn from(result: HookResult) -> (o: HookOutcome) {
        HookOutcome::from_result(result)
    }
}

impl vstd::std_specs::convert::FromSpecImpl<HookResult> for HookOutcome {
    open spec fn obeys_from_spec() -> bool {
        true
    }

    open spec fn from_spec(result: HookResult) -> HookOutcome {
        HookOutcome { result, event: None }
    }
}

} // verus!
