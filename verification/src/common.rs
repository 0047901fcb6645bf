//! Shared vocabulary: severity levels, categories, enforcement verdicts and
//! the UUID-based identifiers of sessions, lessons and reminders.

use vstd::prelude::*;

use crate::text::{push_char, string_from};

verus! {

/// Lesson severity, from 1 (`Info`) to 5 (`Critical`).
#[derive(Debug, Clone, Copy, PartialEq, Eq, Hash, Structural)]
pub enum Level {
    Info,
    Low,
    Medium,
    High,
    Critical,
}

impl Level {
    /// The level's number, 1 to 5.
    pub open spec fn number(self) -> u8 {
        match self {
            Level::Info => 1,
            Level::Low => 2,
            Level::Medium => 3,
            Level::High => 4,
            Level::Critical => 5,
        }
    }

    /// The level's number, 1 to 5.
    pub fn as_u8(&self) -> (n: u8)
        ensures
            n == self.number(),
    {
        match self {
            Level::Info => 1,
            Level::Low => 2,
            Level::Medium => 3,
            Level::High => 4,
            Level::Critical => 5,
        }
    }
}

/// What kind of harm a lesson guards against.
#[derive(Debug, Clone, Copy, PartialEq, Eq, Hash, Structural)]
pub enum Category {
    Security,
    Correctness,
    Process,
    DataSafety,
    Temporal,
}

/// The SQL / JSONL label of a category.
pub open spec fn category_label(c: Category) -> Seq<char> {
    match c {
        Category::Security => "security"@,
        Category::Correctness => "correctness"@,
        Category::Process => "process"@,
        Category::DataSafety => "data_safety"@,
        Category::Temporal => "temporal"@,
    }
}

/// The snake_case label under which a category is stored.
pub fn category_sql_label(c: Category) -> (s: &'static str)
    ensures
        s@ == category_label(c),
{
    match c {
        Category::Security => "security",
        Category::Correctness => "correctness",
        Category::Process => "process",
        Category::DataSafety => "data_safety",
        Category::Temporal => "temporal",
    }
}

/// The Gavel's verdict on a tool call, from weakest to strongest.
#[derive(Debug, Clone, Copy, PartialEq, Eq, Hash, Structural)]
pub enum Enforcement {
    Dismiss,
    Note,
    Advisory,
    Caution,
    Warn,
    Remand,
    Strike,
    Seal,
}

/// A 128-bit identifier shown as a hyphenated UUID.
#[derive(Debug, Clone, Copy, PartialEq, Eq, Hash, Structural)]
pub struct SessionId(pub u128);

/// Identifier of a lesson.
#[derive(Debug, Clone, Copy, PartialEq, Eq, Hash, Structural)]
pub struct LessonId(pub u128);

/// Identifier of a pending-reflection reminder.
#[derive(Debug, Clone, Copy, PartialEq, Eq, Hash, Structural)]
pub struct ReminderId(pub u128);

/// The lowercase hexadecimal digit for `d` (below 16).
pub open spec fn hex_char(d: nat) -> char {
    if d < 10 {
        crate::text::digit_char(d)
    } else if d == 10 {
        'a'
    } else if d == 11 {
        'b'
    } else if d == 12 {
        'c'
    } else if d == 13 {
        'd'
    } else if d == 14 {
        'e'
    } else {
        'f'
    }
}

/// The last `n` hexadecimal digits of `v`, most significant first.
pub open spec fn hex_digits(v: nat, n: nat) -> Seq<char>
    decreases n,
{
    if n == 0 {
        seq![]
    } else {
        hex_digits(v / 16, (n - 1) as nat).push(hex_char(v % 16))
    }
}

/// The hyphenated form of a 128-bit UUID value (8-4-4-4-12 lowercase hex
/// digits), as `uuid::Uuid` displays it.
pub open spec fn uuid_text(v: u128) -> Seq<char> {
    let h = hex_digits(v as nat, 32);
    h.subrange(0, 8) + seq!['-'] + h.subrange(8, 12) + seq!['-'] + h.subrange(12, 16) + seq!['-']
        + h.subrange(16, 20) + seq!['-'] + h.subrange(20, 32)
}

fn hex_digit(d: u128) -> (c: char)
    requires
        d < 16,
    ensures
        c == hex_char(d as nat),
{
    if d < 10 {
        if d == 0 {
            '0'
        } else if d == 1 {
            '1'
        } else if d == 2 {
            '2'
        } else if d == 3 {
            '3'
        } else if d == 4 {
            '4'
        } else if d == 5 {
            '5'
        } else if d == 6 {
            '6'
        } else if d == 7 {
            '7'
        } else if d == 8 {
            '8'
        } else {
            '9'
        }
    } else if d == 10 {
        'a'
    } else if d == 11 {
        'b'
    } else if d == 12 {
        'c'
    } else if d == 13 {
        'd'
    } else if d == 14 {
        'e'
    } else {
        'f'
    }
}

fn push_hex_digits(out: &mut Vec<char>, v: u128, n: u32)
    ensures
        final(out)@ == old(out)@ + hex_digits(v as nat, n as nat),
    decreases n,
{
    if n > 0 {
        push_hex_digits(out, v / 16, n - 1);
        out.push(hex_digit(v % 16));
        assert(final(out)@ =~= old(out)@ + hex_digits(v as nat, n as nat));
    } else {
        assert(final(out)@ =~= old(out)@ + hex_digits(v as nat, n as nat));
    }
}

proof fn lemma_hex_digits_len(v: nat, n: nat)
    ensures
        hex_digits(v, n).len() == n,
    decreases n,
{
    if n > 0 {
        lemma_hex_digits_len(v / 16, (n - 1) as nat);
    }
}

fn push_range(out: &mut Vec<char>, h: &Vec<char>, a: usize, b: usize)
    requires
        a <= b <= h@.len(),
    ensures
        final(out)@ == old(out)@ + h@.subrange(a as int, b as int),
{
    let mut i = a;
    while i < b
        invariant
            a <= i <= b,
            b <= h@.len(),
            out@ == old(out)@ + h@.subrange(a as int, i as int),
        decreases b - i,
    {
        out.push(h[i]);
        i += 1;
        assert(out@ =~= old(out)@ + h@.subrange(a as int, i as int));
    }
}

/// The hyphenated lowercase form of a UUID value.
pub fn format_uuid(v: u128) -> (s: String)
    ensures
        s@ == uuid_text(v),
{
    let mut h: Vec<char> = Vec::new();
    push_hex_digits(&mut h, v, 32);
    proof {
        lemma_hex_digits_len(v as nat, 32);
    }
    assert(h@ =~= hex_digits(v as nat, 32));
    let mut out: Vec<char> = Vec::new();
    push_range(&mut out, &h, 0, 8);
    out.push('-');
    push_range(&mut out, &h, 8, 12);
    out.push('-');
    push_range(&mut out, &h, 12, 16);
    out.push('-');
    push_range(&mut out, &h, 16, 20);
    out.push('-');
    push_range(&mut out, &h, 20, 32);
    assert(out@ =~= uuid_text(v));
    string_from(out.as_slice())
}

/// What `uuid::Uuid::parse_str` yields for a text, as the UUID's 128-bit
/// value, or `None` when it rejects the text.
pub uninterp spec fn parsed_uuid(text: Seq<char>) -> Option<u128>;

/// `uuid::Uuid::parse_str` followed by `Uuid::as_u128`. The result is named;
/// the crate documents that the hyphenated form it displays is accepted,
/// which is stated here: such a text parses to the value it shows.
#[verifier::external_body]
fn uuid_parse(text: &str) -> (r: Option<u128>)
    ensures
        r == parsed_uuid(text@),
        forall|v: u128| text@ == uuid_text(v) ==> r == Some(v),
{
    match uuid::Uuid::parse_str(text) {
        Ok(u) => Some(u.as_u128()),
        Err(_) => None,
    }
}

/// `uuid::Uuid::new_v4` as a 128-bit value: random, except that the version
/// nibble is 4 and the variant bits are `10`, which the crate sets.
#[verifier::external_body]
fn uuid_new_v4() -> (v: u128)
    ensures
        (v >> 76u32) & 0xf == 4,
        (v >> 62u32) & 0x3 == 2,
{
    uuid::Uuid::new_v4().as_u128()
}

impl SessionId {
    /// A fresh random (version 4) session id.
    pub fn new() -> (id: SessionId)
        ensures
            (id.0 >> 76u32) & 0xf == 4,
            (id.0 >> 62u32) & 0x3 == 2,
    {
        SessionId(uuid_new_v4())
    }

    /// The hyphenated lowercase text of the id.
    pub fn to_string(&self) -> (s: String)
        ensures
            s@ == uuid_text(self.0),
    {
        format_uuid(self.0)
    }
}

impl LessonId {
    /// A fresh random (version 4) lesson id.
    pub fn new() -> (id: LessonId)
        ensures
            (id.0 >> 76u32) & 0xf == 4,
    {
        LessonId(uuid_new_v4())
    }

    /// The hyphenated lowercase text of the id.
    pub fn to_string(&self) -> (s: String)
        ensures
            s@ == uuid_text(self.0),
    {
        format_uuid(self.0)
    }
}

impl ReminderId {
    /// A fresh random (version 4) reminder id.
    pub fn new() -> (id: ReminderId)
        ensures
            (id.0 >> 76u32) & 0xf == 4,
    {
        ReminderId(uuid_new_v4())
    }

    /// The hyphenated lowercase text of the id.
    pub fn to_string(&self) -> (s: String)
        ensures
            s@ == uuid_text(self.0),
    {
        format_uuid(self.0)
    }
}

/// Why a session id text was rejected.
#[derive(Debug, Clone, PartialEq, Eq)]
pub enum SessionIdError {
    /// The text is not a UUID; it is kept for the message.
    NotAUuid(String),
}

/// Reads the agent CLI's `session_id` (a UUID string) as the session id.
pub fn parse_claude_session_id(s: &str) -> (r: Result<SessionId, SessionIdError>)
    ensures
        r matches Ok(id) ==> parsed_uuid(s@) == Some(id.0),
        r is Err <==> parsed_uuid(s@) is None,
        r matches Err(SessionIdError::NotAUuid(t)) ==> t@ == s@,
        forall|v: u128| s@ == uuid_text(v) ==> r == Ok::<SessionId, SessionIdError>(SessionId(v)),
{
    match uuid_parse(s) {
        Some(v) => Ok(SessionId(v)),
        None => Err(SessionIdError::NotAUuid(s.to_owned())),
    }
}

} // verus!

verus! {

/// `std::path::PathBuf`, carried through as an opaque value.
#[verifier::external_type_specification]
#[verifier::external_body]
pub struct ExPathBuf(std::path::PathBuf);

/// `serde_json::Value`, carried through as an opaque value.
#[verifier::external_type_specification]
#[verifier::external_body]
pub struct ExJsonValue(serde_json::Value);

/// `PathBuf::clone`; nothing is claimed of the copy.
pub assume_specification[ <std::path::PathBuf as Clone>::clone ](p: &std::path::PathBuf) -> std::path::PathBuf;

/// `serde_json::Value::clone`; nothing is claimed of the copy.
pub assume_specification[ <serde_json::Value as Clone>::clone ](v: &serde_json::Value) -> serde_json::Value;

} // verus!

verus! {

/// What `Duration::from_secs` returns for this many seconds.
pub uninterp spec fn duration_of_secs(secs: u64) -> std::time::Duration;

/// What `Duration::from_millis` returns for this many milliseconds.
pub uninterp spec fn duration_of_millis(ms: u64) -> std::time::Duration;

/// What `Duration::as_secs` returns for this duration: its whole seconds.
pub uninterp spec fn secs_of(d: std::time::Duration) -> u64;

/// What `Duration::as_millis` returns for this duration: its whole
/// milliseconds.
pub uninterp spec fn millis_of(d: std::time::Duration) -> u128;

/// `Duration::from_secs`; the result is named.
#[verifier::external_body]
pub(crate) fn duration_from_secs(secs: u64) -> (d: std::time::Duration)
    ensures
        d == duration_of_secs(secs),
{
    std::time::Duration::from_secs(secs)
}

/// `Duration::from_millis`; the result is named.
#[verifier::external_body]
pub(crate) fn duration_from_millis(ms: u64) -> (d: std::time::Duration)
    ensures
        d == duration_of_millis(ms),
{
    std::time::Duration::from_millis(ms)
}

/// `Duration::as_secs`: the whole seconds of a duration (named), which for
/// one made by `from_secs(s)` is `s` and for one made by `from_millis(m)` is
/// `m / 1000`, as the documentation of those constructors gives.
#[verifier::external_body]
pub(crate) fn duration_as_secs(d: &std::time::Duration) -> (s: u64)
    ensures
        s == secs_of(*d),
        forall|n: u64| *d == duration_of_secs(n) ==> s == n,
        forall|m: u64| *d == duration_of_millis(m) ==> s == m / 1000,
{
    d.as_secs()
}

/// `Duration::as_millis` (named), cut to 64 bits: for a duration made by
/// `from_millis(m)` it is `m`, for one made by `from_secs(s)` it is
/// `1000 * s` when that fits.
#[verifier::external_body]
pub(crate) fn duration_as_millis(d: &std::time::Duration) -> (r: u64)
    ensures
        r == millis_of(*d) as u64,
        forall|m: u64| *d == duration_of_millis(m) ==> r == m,
        forall|n: u64| *d == duration_of_secs(n) && n * 1000 <= u64::MAX ==> r == n * 1000,
{
    d.as_millis() as u64
}

} // verus!

verus! {

/// `Duration::clone`: `Duration` is `Copy`, so the clone is the same value.
pub assume_specification[ <std::time::Duration as Clone>::clone ](d: &std::time::Duration) -> (r: std::time::Duration)
    ensures
        r == *d,
;

} // verus!
