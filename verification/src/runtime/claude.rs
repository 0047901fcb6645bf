//! The handle on a discovered, version-checked agent CLI binary, and the
//! command line and environment it is run with.

use std::path::PathBuf;

use vstd::prelude::*;

use crate::common::{uuid_text, SessionId};
use crate::runtime::version::{compatible, ClaudeVersion, VersionError};

verus! {

/// An agent CLI binary bound to a worktree and a session.
pub struct ClaudeRuntime {
    claude_path: PathBuf,
    version: ClaudeVersion,
    worktree: PathBuf,
    session_id: SessionId,
}

impl ClaudeRuntime {
    /// The version the runtime was built with.
    pub closed spec fn version_spec(&self) -> ClaudeVersion {
        self.version
    }

    /// The session the runtime runs under.
    pub closed spec fn session_spec(&self) -> SessionId {
        self.session_id
    }

    /// Where the binary is.
    pub closed spec fn path_spec(&self) -> PathBuf {
        self.claude_path
    }

    /// The directory the child runs in.
    pub closed spec fn worktree_spec(&self) -> PathBuf {
        self.worktree
    }

    /// Binds a found binary of a detected version to a worktree and a
    /// session; refused when the version is not supported.
    pub fn from_parts(
        claude_path: PathBuf,
        version: ClaudeVersion,
        worktree: PathBuf,
        session_id: SessionId,
    ) -> (r: Result<ClaudeRuntime, VersionError>)
        ensures
            compatible(version) ==> (r matches Ok(rt) && rt.version_spec() == version
                && rt.session_spec() == session_id && rt.path_spec() == claude_path
                && rt.worktree_spec() == worktree),
            !compatible(version) ==> r == Err::<ClaudeRuntime, VersionError>(
                VersionError::Unsupported(version),
            ),
    {
        match version.validate_compatible() {
            Ok(()) => Ok(ClaudeRuntime { claude_path, version, worktree, session_id }),
            Err(e) => Err(e),
        }
    }

    /// The path of the agent CLI binary.
    pub fn claude_path(&self) -> (p: &PathBuf)
        ensures
            *p == self.path_spec(),
    {
        &self.claude_path
    }

    /// The binary's version.
    pub fn version(&self) -> (v: ClaudeVersion)
        ensures
            v == self.version_spec(),
    {
        self.version
    }

    /// The session id injected into the child's environment.
    pub fn session_id(&self) -> (id: SessionId)
        ensures
            id == self.session_spec(),
    {
        self.session_id
    }

    /// The directory the child runs in.
    pub fn worktree(&self) -> (p: &PathBuf)
        ensures
            *p == self.worktree_spec(),
    {
        &self.worktree
    }
}

/// The arguments of a programmatic run of `prompt`.
pub open spec fn watchdog_args_spec(prompt: Seq<char>) -> Seq<Seq<char>> {
    seq![
        "-p"@,
        prompt,
        "--max-turns"@,
        "10"@,
        "--no-session-persistence"@,
        "--dangerously-skip-permissions"@,
    ]
}

/// The environment injected into every agent CLI child.
pub open spec fn injected_env_spec(id: SessionId) -> Seq<(Seq<char>, Seq<char>)> {
    seq![
        ("MYTH_SESSION_ID"@, uuid_text(id.0)),
        ("MYTH_ACTIVE"@, "1"@),
        ("CLAUDE_STREAM_IDLE_TIMEOUT_MS"@, "120000"@),
        ("ENABLE_PROMPT_CACHING_1H"@, "1"@),
    ]
}

/// The command-line arguments of a programmatic run: the prompt, a turn
/// cap of 10, no session persistence, no permission prompts.
pub fn watchdog_args(prompt: &str) -> (v: Vec<String>)
    ensures
        v@.map_values(|s: String| s@) == watchdog_args_spec(prompt@),
{
    let v = vec![
        "-p".to_owned(),
        prompt.to_owned(),
        "--max-turns".to_owned(),
        "10".to_owned(),
        "--no-session-persistence".to_owned(),
        "--dangerously-skip-permissions".to_owned(),
    ];
    assert(v@.map_values(|s: String| s@) =~= watchdog_args_spec(prompt@));
    v
}

/// The environment variables set on an agent CLI child: the session id, the
/// myth-active flag, a two-minute stream idle timeout, and one-hour
/// prompt caching.
pub fn injected_env(session_id: SessionId) -> (v: Vec<(String, String)>)
    ensures
        v@.map_values(|p: (String, String)| (p.0@, p.1@)) == injected_env_spec(session_id),
{
    let v = vec![
        ("MYTH_SESSION_ID".to_owned(), session_id.to_string()),
        ("MYTH_ACTIVE".to_owned(), "1".to_owned()),
        ("CLAUDE_STREAM_IDLE_TIMEOUT_MS".to_owned(), "120000".to_owned()),
        ("ENABLE_PROMPT_CACHING_1H".to_owned(), "1".to_owned()),
    ];
    assert(v@.map_values(|p: (String, String)| (p.0@, p.1@)) =~= injected_env_spec(session_id));
    v
}

} // verus!
