//! Session lifecycle: the session id, when it started and, once, when it
//! ended.

use std::time::{Duration, Instant};

use vstd::prelude::*;

use crate::common::SessionId;

verus! {

/// `std::time::Instant`, carried through as an opaque value.
#[verifier::external_type_specification]
#[verifier::external_body]
pub struct ExInstant(Instant);

/// `Instant::now`. Nothing is claimed of the value.
#[verifier::external_body]
fn instant_now() -> Instant {
    Instant::now()
}

/// What `Instant::duration_since` returns for two instants: the time from
/// `earlier` to `later`, zero when `earlier` is the later one.
pub uninterp spec fn instant_span(later: Instant, earlier: Instant) -> Duration;

/// `Instant::duration_since` (zero when `earlier` is later). It depends on
/// the two instants alone, and its value is named.
#[verifier::external_body]
fn duration_between(later: &Instant, earlier: &Instant) -> (d: Duration)
    ensures
        d == instant_span(*later, *earlier),
{
    later.duration_since(*earlier)
}

/// `Instant::elapsed`: the time from `start` to now. It depends on the
/// clock; nothing is claimed of the value.
#[verifier::external_body]
fn elapsed_since(start: &Instant) -> Duration {
    start.elapsed()
}

/// A session: its id, its start, and its end once it has ended.
#[derive(Debug)]
pub struct Session {
    pub id: SessionId,
    pub started_at: Instant,
    ended_at: Option<Instant>,
}

impl Session {
    /// A new active session with a fresh random (version 4) id.
    pub fn new() -> (s: Session)
        ensures
            (s.id_spec().0 >> 76u32) & 0xf == 4,
            (s.id_spec().0 >> 62u32) & 0x3 == 2,
            s.is_active_spec(),
    {
        Session { id: SessionId::new(), started_at: instant_now(), ended_at: None }
    }

    /// A new active session with the given id.
    pub fn from_id(id: SessionId) -> (s: Session)
        ensures
            s.id_spec() == id,
            s.is_active_spec(),
    {
        Session { id, started_at: instant_now(), ended_at: None }
    }

    /// The session's id.
    pub closed spec fn id_spec(&self) -> SessionId {
        self.id
    }

    /// When the session started.
    pub closed spec fn start_spec(&self) -> Instant {
        self.started_at
    }

    /// The session has not ended.
    pub closed spec fn is_active_spec(&self) -> bool {
        self.ended_at is None
    }

    /// When the session ended, if it has.
    pub closed spec fn end_spec(&self) -> Option<Instant> {
        self.ended_at
    }


    /// Ends the session now; a session that already ended keeps its first
    /// end time.
    pub fn mark_ended(&mut self)
        ensures
            !final(self).is_active_spec(),
            final(self).id_spec() == old(self).id_spec(),
            final(self).start_spec() == old(self).start_spec(),
            !old(self).is_active_spec() ==> final(self).end_spec() == old(self).end_spec(),
    {
        if self.ended_at.is_none() {
            self.ended_at = Some(instant_now());
        }
    }

    /// Whether the session has not ended.
    pub fn is_active(&self) -> (b: bool)
        ensures
            b == self.is_active_spec(),
    {
        self.ended_at.is_none()
    }

    /// When the session ended, if it has.
    pub fn ended_at(&self) -> (e: Option<Instant>)
        ensures
            e == self.end_spec(),
    {
        self.ended_at
    }

    /// Time from start to end, or to now while active.
    pub fn elapsed(&self) -> (d: Duration)
        ensures
            self.end_spec() matches Some(e) ==> d == instant_span(e, self.start_spec()),
    {
        match &self.ended_at {
            Some(end) => duration_between(end, &self.started_at),
            None => elapsed_since(&self.started_at),
        }
    }
}

impl Default for Session {
    fn default() -> (s: Session)
        ensures
            s.is_active_spec(),
    {
        Session::new()
    }
}

/// A session is active exactly when it has no end time.
pub proof fn lemma_active_iff_no_end(s: Session)
    ensures
        s.is_active_spec() <==> s.end_spec() is None,
{
}

/// The time from start to end of an ended session (what `elapsed` gives
/// once it has ended).
pub open spec fn ended_span(s: Session) -> Option<Duration> {
    match s.end_spec() {
        Some(e) => Some(instant_span(e, s.start_spec())),
        None => None,
    }
}

/// Marking a session ended twice keeps the first end time: the second call
/// changes nothing, and the elapsed time stays the span from the start to
/// the first end.
pub proof fn lemma_mark_ended_idempotent(first: Session, second: Session)
    requires
        !first.is_active_spec(),
        !second.is_active_spec(),
        second.id_spec() == first.id_spec(),
        second.start_spec() == first.start_spec(),
        second.end_spec() == first.end_spec(),
    ensures
        second == first,
        ended_span(second) is Some,
        ended_span(second) == ended_span(first),
{
}

/// What was read from a child's stdout and stderr, and when.
pub struct OutputCapture {
    pub stdout: Vec<u8>,
    pub stderr: Vec<u8>,
    pub last_activity: Instant,
}

} // verus!
