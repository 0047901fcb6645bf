//! UTC timestamps: Unix milliseconds as ISO 8601 text
//! (`YYYY-MM-DDTHH:MM:SS.mmmZ`) on the proleptic Gregorian calendar.

use vstd::arithmetic::div_mod::{lemma_fundamental_div_mod, lemma_fundamental_div_mod_converse};
use vstd::prelude::*;

use crate::common::duration_as_millis;
use crate::text::{decimal, digit, digit_char, push_char, push_decimal, push_str};

verus! {

/// `std::time::SystemTime`, carried through as an opaque value.
#[verifier::external_type_specification]
#[verifier::external_body]
pub struct ExSystemTime(std::time::SystemTime);

/// `SystemTime::now`. Nothing is claimed of the value.
#[verifier::external_body]
fn system_now() -> std::time::SystemTime {
    std::time::SystemTime::now()
}

/// `SystemTime::duration_since(UNIX_EPOCH)`: the time since 1970, or `None`
/// for a time before it. Nothing is claimed of the value.
#[verifier::external_body]
fn since_unix_epoch(t: &std::time::SystemTime) -> Option<std::time::Duration> {
    t.duration_since(std::time::UNIX_EPOCH).ok()
}

/// The current time in Unix milliseconds (zero for a clock set before
/// 1970). It depends on the clock.
pub fn unix_now_millis() -> i64 {
    match since_unix_epoch(&system_now()) {
        Some(d) => duration_as_millis(&d) as i64,
        None => 0,
    }
}

/// A leap year of the Gregorian calendar.
pub open spec fn is_leap(y: int) -> bool {
    y % 4 == 0 && (y % 100 != 0 || y % 400 == 0)
}

/// The number of days of year `y`.
pub open spec fn year_len(y: int) -> int {
    if is_leap(y) {
        366
    } else {
        365
    }
}

/// The number of days of month `m` (1 to 12) of year `y`.
pub open spec fn month_len(y: int, m: int) -> int {
    if m == 2 {
        if is_leap(y) {
            29
        } else {
            28
        }
    } else if m == 4 || m == 6 || m == 9 || m == 11 {
        30
    } else {
        31
    }
}

/// The days of year `y` before the first of month `m` (1 to 13).
pub open spec fn days_before_month(y: int, m: int) -> int {
    let l: int = if is_leap(y) {
        1
    } else {
        0
    };
    if m <= 1 {
        0
    } else if m == 2 {
        31
    } else if m == 3 {
        59 + l
    } else if m == 4 {
        90 + l
    } else if m == 5 {
        120 + l
    } else if m == 6 {
        151 + l
    } else if m == 7 {
        181 + l
    } else if m == 8 {
        212 + l
    } else if m == 9 {
        243 + l
    } else if m == 10 {
        273 + l
    } else if m == 11 {
        304 + l
    } else if m == 12 {
        334 + l
    } else {
        365 + l
    }
}

/// The leap years among years 1 to `x` (counted back from 0 for negative
/// `x`, so that differences count the leap years in between).
pub open spec fn leaps_upto(x: int) -> int {
    x / 4 - x / 100 + x / 400
}

/// The day number of January 1 of year `y`, counted from 1970-01-01.
pub open spec fn days_before_year(y: int) -> int {
    365 * (y - 1970) + leaps_upto(y - 1) - leaps_upto(1969)
}

/// A date that exists: a month from 1 to 12 and a day within it.
pub open spec fn valid_date(y: int, m: int, d: int) -> bool {
    1 <= m <= 12 && 1 <= d <= month_len(y, m)
}

/// The day number of a date, counted from 1970-01-01 (day 0).
pub open spec fn day_number(y: int, m: int, d: int) -> int {
    days_before_year(y) + days_before_month(y, m) + d - 1
}

/// The date of a day number (see `lemma_civil_date` for why there is
/// exactly one).
pub open spec fn civil_date(days: int) -> (int, int, int) {
    choose|y: int, m: int, d: int| valid_date(y, m, d) && day_number(y, m, d) == days
}

/// `n` in decimal, padded with leading zeros to at least `w` digits.
pub open spec fn padded(n: nat, w: nat) -> Seq<char>
    decreases w,
{
    if w <= 1 {
        decimal(n)
    } else {
        padded(n / 10, (w - 1) as nat).push(digit_char(n % 10))
    }
}

/// A year as `{:04}` writes it: at least four digits, or `-` and at least
/// three digits for a year before year 0.
pub open spec fn year_text(y: int) -> Seq<char> {
    if y >= 0 {
        padded(y as nat, 4)
    } else {
        seq!['-'] + padded((-y) as nat, 3)
    }
}

/// The text of a date and a time of day given in milliseconds.
pub open spec fn iso_format(y: int, m: int, d: int, t: int) -> Seq<char> {
    year_text(y) + "-"@ + padded(m as nat, 2) + "-"@ + padded(d as nat, 2) + "T"@ + padded(
        (t / 3600000) as nat,
        2,
    ) + ":"@ + padded(((t / 60000) % 60) as nat, 2) + ":"@ + padded(((t / 1000) % 60) as nat, 2)
        + "."@ + padded((t % 1000) as nat, 3) + "Z"@
}

/// The ISO 8601 UTC text of a Unix time in milliseconds.
pub open spec fn iso_text(ms: int) -> Seq<char> {
    let (y, m, d) = civil_date(ms / 86400000);
    iso_format(y, m, d, ms % 86400000)
}

proof fn lemma_div_shift(x: int, d: int, k: int)
    requires
        d > 0,
    ensures
        (x + k * d) / d == x / d + k,
        (x + k * d) % d == x % d,
{
    lemma_fundamental_div_mod(x, d);
    assert(x + k * d == (x / d + k) * d + x % d) by (nonlinear_arith)
        requires
            x == d * (x / d) + x % d,
    ;
    lemma_fundamental_div_mod_converse(x + k * d, d, x / d + k, x % d);
}

proof fn lemma_div_step(y: int, d: int)
    requires
        d > 0,
    ensures
        y % d == 0 ==> y / d == (y - 1) / d + 1,
        y % d != 0 ==> y / d == (y - 1) / d,
{
    let q = (y - 1) / d;
    let r = (y - 1) % d;
    lemma_fundamental_div_mod(y - 1, d);
    if r + 1 < d {
        assert(y == q * d + (r + 1)) by (nonlinear_arith)
            requires
                y - 1 == d * q + r,
        ;
        lemma_fundamental_div_mod_converse(y, d, q, r + 1);
    } else {
        assert(y == (q + 1) * d + 0) by (nonlinear_arith)
            requires
                y - 1 == d * q + r,
                r + 1 == d,
        ;
        lemma_fundamental_div_mod_converse(y, d, q + 1, 0);
    }
}

/// The next year starts a year's length later.
proof fn lemma_next_year(y: int)
    ensures
        days_before_year(y + 1) == days_before_year(y) + year_len(y),
{
    lemma_div_step(y, 4);
    lemma_div_step(y, 100);
    lemma_div_step(y, 400);
    lemma_div_shift(y % 400, 4, 100 * (y / 400));
    lemma_div_shift(y % 400, 100, 4 * (y / 400));
    lemma_fundamental_div_mod(y, 400);
    lemma_fundamental_div_mod(y, 100);
    lemma_fundamental_div_mod(y, 4);
    if y % 400 == 0 {
        assert(y % 100 == 0 && y % 4 == 0) by {
            lemma_div_shift(0, 100, 4 * (y / 400));
            lemma_div_shift(0, 4, 100 * (y / 400));
        }
    }
}

/// Four hundred years hold 146097 days, wherever they start.
proof fn lemma_eras(y: int, q: int)
    ensures
        days_before_year(y + 400 * q) == days_before_year(y) + 146097 * q,
{
    lemma_div_shift(y - 1, 4, 100 * q);
    lemma_div_shift(y - 1, 100, 4 * q);
    lemma_div_shift(y - 1, 400, q);
}

/// Leap years repeat every four hundred years.
proof fn lemma_leap_period(t: int, j: int)
    ensures
        is_leap(t + 400 * j) == is_leap(t),
{
    lemma_div_shift(t, 4, 100 * j);
    lemma_div_shift(t, 100, 4 * j);
    lemma_div_shift(t, 400, j);
}

/// Later years start later.
proof fn lemma_years_ordered(a: int, b: int)
    requires
        a <= b,
    ensures
        days_before_year(a) <= days_before_year(b),
    decreases b - a,
{
    if a < b {
        lemma_years_ordered(a, b - 1);
        lemma_next_year(b - 1);
    }
}

/// A date's day number lies within its year.
proof fn lemma_within_year(y: int, m: int, d: int)
    requires
        valid_date(y, m, d),
    ensures
        days_before_year(y) <= day_number(y, m, d) < days_before_year(y + 1),
{
    lemma_next_year(y);
}

/// Different dates have different day numbers, so a day number has at most
/// one date.
pub proof fn lemma_day_number_injective(y1: int, m1: int, d1: int, y2: int, m2: int, d2: int)
    requires
        valid_date(y1, m1, d1),
        valid_date(y2, m2, d2),
        day_number(y1, m1, d1) == day_number(y2, m2, d2),
    ensures
        y1 == y2 && m1 == m2 && d1 == d2,
{
    lemma_within_year(y1, m1, d1);
    lemma_within_year(y2, m2, d2);
    if y1 < y2 {
        lemma_years_ordered(y1 + 1, y2);
    } else if y2 < y1 {
        lemma_years_ordered(y2 + 1, y1);
    }
}

/// Every day number has exactly one date, `civil_date`'s.
pub proof fn lemma_civil_date(y: int, m: int, d: int)
    requires
        valid_date(y, m, d),
    ensures
        civil_date(day_number(y, m, d)) == (y, m, d),
{
    let days = day_number(y, m, d);
    assert(exists|a: int, b: int, c: int| valid_date(a, b, c) && day_number(a, b, c) == days) by {
        assert(valid_date(y, m, d) && day_number(y, m, d) == days);
    }
    let (a, b, c) = civil_date(days);
    lemma_day_number_injective(a, b, c, y, m, d);
}

/// Appends `n` zero-padded to at least `w` digits.
fn push_padded(s: &mut String, n: u64, w: u64)
    ensures
        final(s)@ == old(s)@ + padded(n as nat, w as nat),
    decreases w,
{
    if w <= 1 {
        push_decimal(s, n);
    } else {
        push_padded(s, n / 10, w - 1);
        push_char(s, digit(n % 10));
        assert(final(s)@ =~= old(s)@ + padded(n as nat, w as nat));
    }
}

/// The year at which the computation's day count starts: 800000 eras of
/// 400 years before 1970.
pub open spec fn start_year() -> int {
    1970 - 400 * 800000
}

/// The ISO 8601 UTC text of a Unix time in milliseconds, as
/// `YYYY-MM-DDTHH:MM:SS.mmmZ` on the proleptic Gregorian calendar.
pub fn iso_from_millis(ms: i64) -> (s: String)
    ensures
        s@ == iso_text(ms as int),
{
    // Shift by a whole number of 400-year eras so that everything is
    // non-negative.
    let x: u128 = (ms as i128 + 10_098_224_640_000_000_000i128) as u128;
    let total_days: u128 = x / 86_400_000;
    let tod: u128 = x % 86_400_000;
    let era: u128 = total_days / 146_097;
    let doe: u128 = total_days % 146_097;
    let ghost days: int = ms as int / 86400000;
    proof {
        assert(ms as int == (total_days - 146097 * 800000) * 86400000 + tod) by (nonlinear_arith)
            requires
                x == ms as int + 10_098_224_640_000_000_000int,
                x == 86_400_000 * total_days + tod,
        ;
        lemma_fundamental_div_mod_converse(ms as int, 86400000, total_days - 146097 * 800000, tod as int);
        lemma_eras(1970, -800000);
        lemma_eras(start_year(), era as int);
        assert(days == days_before_year(start_year() + 400 * era) + doe);
    }
    let mut yo: u128 = 400 * era;
    let mut r: u128 = doe;
    loop
        invariant
            days == days_before_year(start_year() + yo) + r,
            r <= doe,
            doe < 146097,
            era <= 20_000_000,
            yo <= 400 * era + doe - r,
        ensures
            days == days_before_year(start_year() + yo) + r,
            r < year_len(start_year() + yo),
            yo <= 400 * era + doe,
        decreases r,
    {
        let t: u128 = yo + 370;
        let leap = t % 4 == 0 && (t % 100 != 0 || t % 400 == 0);
        proof {
            lemma_leap_period(t as int, -799996);
            assert(start_year() + yo == t + 400 * (-799996));
        }
        let ylen: u128 = if leap {
            366
        } else {
            365
        };
        if r < ylen {
            break;
        }
        proof {
            lemma_next_year(start_year() + yo);
        }
        r = r - ylen;
        yo = yo + 1;
    }
    let ghost y: int = start_year() + yo;
    let t: u128 = yo + 370;
    let leap = t % 4 == 0 && (t % 100 != 0 || t % 400 == 0);
    proof {
        lemma_leap_period(t as int, -799996);
        assert(y == t + 400 * (-799996));
    }
    let mut m: u128 = 1;
    loop
        invariant
            days == days_before_year(y) + days_before_month(y, m as int) + r,
            1 <= m <= 12,
            days_before_month(y, m as int) + r < year_len(y),
            leap == is_leap(y),
        ensures
            days == days_before_year(y) + days_before_month(y, m as int) + r,
            1 <= m <= 12,
            r < month_len(y, m as int),
        decreases 12 - m,
    {
        let ml: u128 = if m == 2 {
            if leap {
                29
            } else {
                28
            }
        } else if m == 4 || m == 6 || m == 9 || m == 11 {
            30
        } else {
            31
        };
        if r < ml {
            break;
        }
        r = r - ml;
        m = m + 1;
    }
    let d: u128 = r + 1;
    proof {
        assert(valid_date(y, m as int, d as int));
        assert(day_number(y, m as int, d as int) == days);
        lemma_civil_date(y, m as int, d as int);
    }
    let year: i64 = yo as i64 - 319_998_030;
    let mut s = String::new();
    if year >= 0 {
        push_padded(&mut s, year as u64, 4);
    } else {
        push_char(&mut s, '-');
        push_padded(&mut s, (-year) as u64, 3);
    }
    let ghost head = s@;
    assert(head == year_text(y));
    push_str(&mut s, "-");
    push_padded(&mut s, m as u64, 2);
    push_str(&mut s, "-");
    push_padded(&mut s, d as u64, 2);
    push_str(&mut s, "T");
    push_padded(&mut s, (tod / 3_600_000) as u64, 2);
    push_str(&mut s, ":");
    push_padded(&mut s, ((tod / 60_000) % 60) as u64, 2);
    push_str(&mut s, ":");
    push_padded(&mut s, ((tod / 1000) % 60) as u64, 2);
    push_str(&mut s, ".");
    push_padded(&mut s, (tod % 1000) as u64, 3);
    push_str(&mut s, "Z");
    assert(s@ =~= iso_format(y, m as int, d as int, tod as int));
    s
}

} // verus!
