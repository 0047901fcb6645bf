//! Lapse scoring (desuetude): a lesson that keeps not firing fades.
//!
//! `lapse_score = missed_hook_count + 10 * idle_days`, where idle days are
//! whole days since the lesson was last seen (never negative). A lesson
//! lapses when its score reaches its level's threshold: 50 for Info and
//! Low, 200 for Medium and High. Critical lessons never lapse.
//!
//! Times are Unix milliseconds.

use vstd::prelude::*;

use crate::common::Level;

verus! {

/// Milliseconds in a day.
pub const DAY_MS: i64 = 86400000;

/// What lapse scoring reads of a lesson.
#[derive(Debug, Clone, Copy, PartialEq, Eq, Structural)]
pub struct LessonActivity {
    pub level: Level,
    pub missed_hook_count: u32,
    /// When the lesson last fired, in Unix milliseconds.
    pub last_seen: i64,
}

/// Whole days from `last_seen` to `now`; zero when `now` is not later.
pub open spec fn idle_days(last_seen: i64, now: i64) -> nat {
    if now > last_seen {
        ((now - last_seen) / (DAY_MS as int)) as nat
    } else {
        0
    }
}

/// The lapse score of a lesson at time `now`.
pub open spec fn lapse_score(l: LessonActivity, now: i64) -> nat {
    l.missed_hook_count as nat + 10 * idle_days(l.last_seen, now)
}

/// The score at which a lesson of this level lapses; none for Critical.
pub open spec fn threshold_of(level: Level) -> Option<nat> {
    match level {
        Level::Info | Level::Low => Some(50),
        Level::Medium | Level::High => Some(200),
        Level::Critical => None,
    }
}

/// Whether a lesson has lapsed at time `now`.
pub open spec fn lapsed(l: LessonActivity, now: i64) -> bool {
    match threshold_of(l.level) {
        Some(t) => lapse_score(l, now) >= t,
        None => false,
    }
}

/// The lapse score of `lesson` at time `now`.
pub fn compute_lapse_score(lesson: &LessonActivity, now: i64) -> (s: u64)
    ensures
        s == lapse_score(*lesson, now),
{
    let days: u64 = if now > lesson.last_seen {
        let gap: u64 = (now as i128 - lesson.last_seen as i128) as u64;
        gap / (DAY_MS as u64)
    } else {
        0
    };
    assert(days <= 0x1_0000_0000_0000) by {
        assert(days * 86400000 <= u64::MAX) by (nonlinear_arith)
            requires
                now > lesson.last_seen ==> days == ((now - lesson.last_seen) as u64) / 86400000u64,
                now <= lesson.last_seen ==> days == 0,
        ;
    }
    lesson.missed_hook_count as u64 + 10 * days
}

/// The lapse threshold of a level: 50 for Info and Low, 200 for Medium and
/// High, none for Critical.
pub fn lapse_threshold(level: Level) -> (t: Option<u64>)
    ensures
        match threshold_of(level) {
            Some(n) => t == Some(n as u64),
            None => t is None,
        },
{
    match level {
        Level::Info | Level::Low => Some(50),
        Level::Medium | Level::High => Some(200),
        Level::Critical => None,
    }
}

/// Whether `lesson` has lapsed at time `now`.
pub fn should_lapse(lesson: &LessonActivity, now: i64) -> (b: bool)
    ensures
        b == lapsed(*lesson, now),
        lesson.level == Level::Critical ==> !b,
        (lesson.level == Level::Info || lesson.level == Level::Low) ==> (b <==> lesson.missed_hook_count
            + 10 * (if now > lesson.last_seen {
            (now - lesson.last_seen) / 86400000
        } else {
            0
        }) >= 50),
        (lesson.level == Level::Medium || lesson.level == Level::High) ==> (b
            <==> lesson.missed_hook_count + 10 * (if now > lesson.last_seen {
            (now - lesson.last_seen) / 86400000
        } else {
            0
        }) >= 200),
{
    match lapse_threshold(lesson.level) {
        Some(t) => compute_lapse_score(lesson, now) >= t,
        None => false,
    }
}

/// The thresholds: with `score = missed hooks + 10 * whole idle days`, an
/// Info or Low lesson lapses exactly when the score reaches 50, a Medium or
/// High one exactly when it reaches 200; only a Critical lesson never lapses.
pub proof fn lemma_lapse_thresholds(l: LessonActivity, now: i64)
    ensures
        ({
            let score = l.missed_hook_count + 10 * (if now > l.last_seen {
                (now - l.last_seen) / 86400000
            } else {
                0
            });
            &&& (l.level == Level::Info || l.level == Level::Low) ==> (lapsed(l, now) <==> score >= 50)
            &&& (l.level == Level::Medium || l.level == Level::High) ==> (lapsed(l, now) <==> score
                >= 200)
            &&& l.level == Level::Critical ==> !lapsed(l, now)
        }),
{
}

/// A Critical lesson never lapses, however long idle and however many
/// hooks it missed.
pub proof fn lemma_critical_never_lapses(l: LessonActivity, now: i64)
    requires
        l.level == Level::Critical,
    ensures
        !lapsed(l, now),
{
}

/// Lapsing is permanent as time passes: a lesson lapsed at `now` is still
/// lapsed at any later time.
pub proof fn lemma_lapse_monotone_in_time(l: LessonActivity, now: i64, later: i64)
    requires
        now <= later,
        lapsed(l, now),
    ensures
        lapsed(l, later),
{
    if now > l.last_seen {
        assert((now - l.last_seen) / (DAY_MS as int) <= (later - l.last_seen) / (DAY_MS as int))
            by (nonlinear_arith)
            requires
                0 < now - l.last_seen <= later - l.last_seen,
        ;
    }
}

/// More missed hooks never un-lapse a lesson.
pub proof fn lemma_lapse_monotone_in_misses(l: LessonActivity, now: i64, more: u32)
    requires
        l.missed_hook_count <= more,
        lapsed(l, now),
    ensures
        lapsed(LessonActivity { missed_hook_count: more, ..l }, now),
{
}

} // verus!
