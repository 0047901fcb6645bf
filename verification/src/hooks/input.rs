//! The data the agent CLI sends a hook on stdin, and what the library reads
//! out of it.

use std::path::PathBuf;

use vstd::prelude::*;

use crate::numeric::{parse_i32, parse_i32_spec};
use crate::text::{chars_of, starts_with_chars};

verus! {

/// The six hook events.
#[derive(Debug, Clone, Copy, PartialEq, Eq, Hash, Structural)]
pub enum HookEventName {
    SessionStart,
    UserPromptSubmit,
    PreToolUse,
    PostToolUse,
    PostToolUseFailure,
    Stop,
}

/// The snake_case label of an event.
pub open spec fn event_label(e: HookEventName) -> Seq<char> {
    match e {
        HookEventName::SessionStart => "session_start"@,
        HookEventName::UserPromptSubmit => "user_prompt_submit"@,
        HookEventName::PreToolUse => "pre_tool_use"@,
        HookEventName::PostToolUse => "post_tool_use"@,
        HookEventName::PostToolUseFailure => "post_tool_use_failure"@,
        HookEventName::Stop => "stop"@,
    }
}

impl HookEventName {
    /// The snake_case label of the event.
    pub fn as_str(&self) -> (s: &'static str)
        ensures
            s@ == event_label(*self),
    {
        match self {
            HookEventName::SessionStart => "session_start",
            HookEventName::UserPromptSubmit => "user_prompt_submit",
            HookEventName::PreToolUse => "pre_tool_use",
            HookEventName::PostToolUse => "post_tool_use",
            HookEventName::PostToolUseFailure => "post_tool_use_failure",
            HookEventName::Stop => "stop",
        }
    }
}

/// Fields present on every envelope (`stop_hook_active` is false and
/// `permission_mode` absent when the agent CLI omits them).
#[derive(Debug, Clone)]
pub struct HookCommon {
    pub session_id: String,
    pub transcript_path: PathBuf,
    pub cwd: PathBuf,
    pub hook_event_name: HookEventName,
    pub stop_hook_active: bool,
    pub permission_mode: Option<String>,
}

/// The event-specific part of an envelope.
#[derive(Debug, Clone)]
pub enum HookPayload {
    SessionStart(SessionStartData),
    UserPromptSubmit(UserPromptSubmitData),
    PreToolUse(PreToolUseData),
    PostToolUse(PostToolUseData),
    PostToolUseFailure(PostToolUseFailureData),
    Stop(StopData),
}

#[derive(Debug, Clone)]
pub struct SessionStartData {
    pub source: String,
}

#[derive(Debug, Clone)]
pub struct UserPromptSubmitData {
    pub prompt: String,
}

#[derive(Debug, Clone)]
pub struct PreToolUseData {
    pub tool_name: String,
    pub tool_input: serde_json::Value,
    pub tool_use_id: String,
}

#[derive(Debug, Clone)]
pub struct PostToolUseData {
    pub tool_name: String,
    pub tool_input: serde_json::Value,
    pub tool_response: PostToolUseResponse,
    pub tool_use_id: String,
}

/// What a successful tool call reported (absent fields read as empty/false).
#[derive(Debug, Clone)]
pub struct PostToolUseResponse {
    pub stdout: String,
    pub stderr: String,
    pub interrupted: bool,
    pub is_image: bool,
    pub no_output_expected: bool,
}

/// A failed tool call: `error` is a multi-line string whose first line is
/// typically `Exit code N`.
#[derive(Debug, Clone)]
pub struct PostToolUseFailureData {
    pub tool_name: String,
    pub tool_input: serde_json::Value,
    pub tool_use_id: String,
    pub error: String,
    pub is_interrupt: bool,
}

#[derive(Debug, Clone)]
pub struct StopData {
    pub last_assistant_message: Option<String>,
}

/// A parsed envelope: common fields plus the event payload.
#[derive(Debug, Clone)]
pub struct HookEnvelope {
    pub common: HookCommon,
    pub payload: HookPayload,
}

/// `k` is where the first line of `s` ends: the first `\n`, or the end.
pub open spec fn is_first_line_end(s: Seq<char>, k: int) -> bool {
    &&& 0 <= k <= s.len()
    &&& k < s.len() ==> s[k] == '\n'
    &&& forall|j: int| 0 <= j < k ==> s[j] != '\n'
}

/// The first item `str::lines` yields: nothing for an empty string; else the
/// text up to the first `\n` (without a `\r` right before that `\n`), or the
/// whole text when there is no `\n`.
pub open spec fn first_line(s: Seq<char>) -> Option<Seq<char>> {
    if s.len() == 0 {
        None
    } else {
        let k = choose|k: int| is_first_line_end(s, k);
        let line = s.take(k);
        if k < s.len() && line.len() > 0 && line.last() == '\r' {
            Some(line.drop_last())
        } else {
            Some(line)
        }
    }
}

/// The marker that opens a Bash failure's first line.
pub open spec fn exit_code_prefix() -> Seq<char> {
    "Exit code "@
}

/// The exit code in an `error` text: its first line must be `Exit code `
/// followed by exactly an `i32` in `str::parse` syntax.
pub open spec fn exit_code_of(error: Seq<char>) -> Option<i32> {
    match first_line(error) {
        None => None,
        Some(line) => if line.len() >= exit_code_prefix().len() && line.take(
            exit_code_prefix().len() as int,
        ) == exit_code_prefix() {
            parse_i32_spec(line.skip(exit_code_prefix().len() as int))
        } else {
            None
        },
    }
}

impl PostToolUseFailureData {
    /// The exit code from an `Exit code N` first line, if that is its shape.
    pub fn parse_exit_code(&self) -> (r: Option<i32>)
        ensures
            r == exit_code_of(self.error@),
    {
        let e = chars_of(self.error.as_str());
        if e.len() == 0 {
            return None;
        }
        let mut k: usize = 0;
        while k < e.len() && e[k] != '\n'
            invariant
                k <= e@.len(),
                forall|j: int| 0 <= j < k ==> e@[j] != '\n',
            decreases e@.len() - k,
        {
            k += 1;
        }
        proof {
            assert(is_first_line_end(e@, k as int));
            let c = choose|c: int| is_first_line_end(e@, c);
            assert(is_first_line_end(e@, c));
            if c < k {
                assert(e@[c] == '\n');
            }
            if k < c {
                assert(e@[k as int] == '\n');
            }
        }
        let end = if k < e.len() && k > 0 && e[k - 1] == '\r' {
            k - 1
        } else {
            k
        };
        let line = &e.as_slice()[0..end];
        assert(line@ == first_line(self.error@).unwrap());
        let prefix = chars_of("Exit code ");
        if !starts_with_chars(line, prefix.as_slice()) {
            return None;
        }
        let rest = &line[prefix.len()..line.len()];
        assert(rest@ == line@.skip(prefix@.len() as int));
        parse_i32(rest)
    }
}

} // verus!
