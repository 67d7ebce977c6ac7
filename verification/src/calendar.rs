//! The proleptic Gregorian calendar and Unix time, stated mathematically.
//!
//! A calendar date-time is valid when its fields are in range and its
//! day-of-year and weekday agree with its date.  `unix_seconds` counts the
//! seconds from 1970-01-01 00:00:00 to it.  The lemmas show that a Unix
//! timestamp has at most one valid calendar date-time.
use vstd::arithmetic::div_mod::{lemma_fundamental_div_mod, lemma_fundamental_div_mod_converse};
use vstd::prelude::*;

verus! {

/// Calendar fields of a date-time, as read by the date-part functions.
#[derive(Clone, Copy, Debug, PartialEq, Eq)]
pub struct DateTimeParts {
    /// The year, e.g. 2012.
    pub year: i32,
    /// The month, 1 (January) to 12 (December).
    pub month: u8,
    /// The day of the month, from 1.
    pub day: u8,
    /// The weekday counted in days from Sunday: 0 (Sunday) to 6 (Saturday).
    pub weekday: u8,
    /// The day of the year, from 1.
    pub ordinal: u16,
    /// The hour, 0 to 23.
    pub hour: u8,
    /// The minute, 0 to 59.
    pub minute: u8,
    /// The second, 0 to 59.
    pub second: u8,
    /// The millisecond, 0 to 999.
    pub millisecond: u16,
}

/// The smallest Unix timestamp with a supported date: -9999-01-01 00:00:00.
pub const MIN_UNIX_SECONDS: i64 = -377705116800i64;

/// The largest Unix timestamp with a supported date: 9999-12-31 23:59:59.
pub const MAX_UNIX_SECONDS: i64 = 253402300799i64;

/// The largest magnitude of a UTC offset in seconds (25:59:59).
pub const MAX_OFFSET_SECONDS: i32 = 93599i32;

pub open spec fn is_leap_year(year: int) -> bool {
    (year % 4 == 0 && year % 100 != 0) || year % 400 == 0
}

pub open spec fn days_in_year(year: int) -> int {
    if is_leap_year(year) {
        366
    } else {
        365
    }
}

pub open spec fn days_in_month(year: int, month: int) -> int {
    if month == 2 {
        if is_leap_year(year) {
            29
        } else {
            28
        }
    } else if month == 4 || month == 6 || month == 9 || month == 11 {
        30
    } else {
        31
    }
}

/// The days of `year` before the first day of `month` (1 to 12).
pub open spec fn days_before_month(year: int, month: int) -> int {
    let leap_day: int = if is_leap_year(year) && month > 2 {
        1
    } else {
        0
    };
    leap_day + days_before_month_common(month)
}

/// The days of a common year before the first day of `month` (1 to 12).
pub open spec fn days_before_month_common(month: int) -> int {
    if month <= 1 {
        0
    } else if month == 2 {
        31
    } else if month == 3 {
        59
    } else if month == 4 {
        90
    } else if month == 5 {
        120
    } else if month == 6 {
        151
    } else if month == 7 {
        181
    } else if month == 8 {
        212
    } else if month == 9 {
        243
    } else if month == 10 {
        273
    } else if month == 11 {
        304
    } else {
        334
    }
}

/// The count of leap years from year 1 to `year`, shifted by a constant for
/// years before 1: only differences of it are used.
pub open spec fn leap_years_through(year: int) -> int {
    year / 4 - year / 100 + year / 400
}

/// Days from 1970-01-01 to the first day of `year` (negative before 1970).
pub open spec fn days_before_year(year: int) -> int {
    365 * (year - 1970) + leap_years_through(year - 1) - leap_years_through(1969)
}

/// Days from 1970-01-01 to the given date.
pub open spec fn days_from_civil(year: int, month: int, day: int) -> int {
    days_before_year(year) + days_before_month(year, month) + day - 1
}

/// Seconds from midnight to the time of day of `p`.
pub open spec fn seconds_of_day(p: DateTimeParts) -> int {
    p.hour * 3600 + p.minute * 60 + p.second
}

/// Seconds from 1970-01-01 00:00:00 to `p`, the milliseconds left out.
pub open spec fn unix_seconds(p: DateTimeParts) -> int {
    days_from_civil(p.year as int, p.month as int, p.day as int) * 86400 + seconds_of_day(p)
}

/// `p` is a date-time of the supported calendar range whose fields agree.
pub open spec fn is_valid_parts(p: DateTimeParts) -> bool {
    &&& -9999 <= p.year <= 9999
    &&& 1 <= p.month <= 12
    &&& 1 <= p.day <= days_in_month(p.year as int, p.month as int)
    &&& p.hour < 24
    &&& p.minute < 60
    &&& p.second < 60
    &&& p.millisecond < 1000
    &&& p.ordinal == days_before_month(p.year as int, p.month as int) + p.day
    &&& p.weekday == (days_from_civil(p.year as int, p.month as int, p.day as int) + 4) % 7
}

/// `p` is the calendar date-time, with no milliseconds, of the Unix timestamp `secs`.
pub open spec fn is_parts_of(p: DateTimeParts, secs: int) -> bool {
    &&& is_valid_parts(p)
    &&& p.millisecond == 0
    &&& unix_seconds(p) == secs
}

/// The calendar date-time of the Unix timestamp `secs`.
pub open spec fn parts_of_unix(secs: int) -> DateTimeParts {
    choose|p: DateTimeParts| is_parts_of(p, secs)
}

/// `secs` is a Unix timestamp whose date lies in the supported range.
pub open spec fn in_supported_range(secs: int) -> bool {
    MIN_UNIX_SECONDS <= secs <= MAX_UNIX_SECONDS
}

proof fn lemma_div_step(y: int, d: int)
    requires
        d > 0,
    ensures
        y / d - (y - 1) / d == (if y % d == 0 {
            1int
        } else {
            0int
        }),
{
    let q = y / d;
    let r = y % d;
    lemma_fundamental_div_mod(y, d);
    assert(d * q == q * d) by (nonlinear_arith);
    if r == 0 {
        assert((q - 1) * d == q * d - d) by (nonlinear_arith);
        lemma_fundamental_div_mod_converse(y - 1, d, q - 1, d - 1);
    } else {
        lemma_fundamental_div_mod_converse(y - 1, d, q, r - 1);
    }
}

proof fn lemma_divides(y: int, big: int, small: int)
    requires
        small > 0,
        big > 0,
        big % small == 0,
        y % big == 0,
    ensures
        y % small == 0,
{
    lemma_fundamental_div_mod(y, big);
    lemma_fundamental_div_mod(big, small);
    let k = y / big;
    let j = big / small;
    assert(y == big * k);
    assert(big == small * j);
    assert(y == (k * j) * small) by (nonlinear_arith)
        requires
            y == big * k,
            big == small * j,
    ;
    lemma_fundamental_div_mod_converse(y, small, k * j, 0);
}

/// A year adds one to the leap-year count exactly when it is a leap year.
proof fn lemma_leap_step(y: int)
    ensures
        leap_years_through(y) - leap_years_through(y - 1) == (if is_leap_year(y) {
            1int
        } else {
            0int
        }),
{
    lemma_div_step(y, 4);
    lemma_div_step(y, 100);
    lemma_div_step(y, 400);
    if y % 400 == 0 {
        lemma_divides(y, 400, 100);
        lemma_divides(y, 400, 4);
    } else if y % 100 == 0 {
        lemma_divides(y, 100, 4);
    }
}

/// Consecutive years start `days_in_year` apart.
pub proof fn lemma_year_length(y: int)
    ensures
        days_before_year(y + 1) == days_before_year(y) + days_in_year(y),
{
    lemma_leap_step(y);
}

/// The first day of a later year comes later, by at least 365 days a year.
pub proof fn lemma_years_increase(a: int, b: int)
    requires
        a <= b,
    ensures
        days_before_year(a) + 365 * (b - a) <= days_before_year(b),
    decreases b - a,
{
    if a < b {
        lemma_years_increase(a, b - 1);
        lemma_year_length(b - 1);
    }
}

/// A valid month and day fall inside their month and their year.
proof fn lemma_day_in_year(y: int, m: int, d: int)
    requires
        1 <= m <= 12,
        1 <= d <= days_in_month(y, m),
    ensures
        0 <= days_before_month(y, m) + d - 1 < days_in_year(y),
        m < 12 ==> days_before_month(y, m) + d - 1 < days_before_month(y, m + 1),
        days_before_month(y, m) <= days_before_month(y, m) + d - 1,
{
}

proof fn lemma_month_day_unique(y: int, m1: int, d1: int, m2: int, d2: int)
    requires
        1 <= m1 <= 12,
        1 <= d1 <= days_in_month(y, m1),
        1 <= m2 <= 12,
        1 <= d2 <= days_in_month(y, m2),
        days_before_month(y, m1) + d1 == days_before_month(y, m2) + d2,
    ensures
        m1 == m2,
        d1 == d2,
{
    lemma_day_in_year(y, m1, d1);
    lemma_day_in_year(y, m2, d2);
    if m1 < m2 {
        assert(days_before_month(y, m1 + 1) <= days_before_month(y, m2));
    } else if m2 < m1 {
        assert(days_before_month(y, m2 + 1) <= days_before_month(y, m1));
    }
}

/// Distinct valid dates are distinct days.
pub proof fn lemma_civil_unique(y1: int, m1: int, d1: int, y2: int, m2: int, d2: int)
    requires
        1 <= m1 <= 12,
        1 <= d1 <= days_in_month(y1, m1),
        1 <= m2 <= 12,
        1 <= d2 <= days_in_month(y2, m2),
        days_from_civil(y1, m1, d1) == days_from_civil(y2, m2, d2),
    ensures
        y1 == y2,
        m1 == m2,
        d1 == d2,
{
    lemma_day_in_year(y1, m1, d1);
    lemma_day_in_year(y2, m2, d2);
    if y1 < y2 {
        lemma_year_length(y1);
        lemma_years_increase(y1 + 1, y2);
        assert(false);
    } else if y2 < y1 {
        lemma_year_length(y2);
        lemma_years_increase(y2 + 1, y1);
        assert(false);
    }
    lemma_month_day_unique(y1, m1, d1, m2, d2);
}

/// The day count and the time of day of a valid date-time are those of its timestamp.
pub proof fn lemma_unix_split(p: DateTimeParts)
    requires
        is_valid_parts(p),
    ensures
        unix_seconds(p) / 86400 == days_from_civil(p.year as int, p.month as int, p.day as int),
        unix_seconds(p) % 86400 == seconds_of_day(p),
        seconds_of_day(p) / 3600 == p.hour,
        (seconds_of_day(p) % 3600) / 60 == p.minute,
        seconds_of_day(p) % 60 == p.second,
{
    let days = days_from_civil(p.year as int, p.month as int, p.day as int);
    lemma_fundamental_div_mod_converse(unix_seconds(p), 86400, days, seconds_of_day(p));
    let rest = p.minute * 60 + p.second;
    lemma_fundamental_div_mod_converse(seconds_of_day(p), 3600, p.hour as int, rest);
    lemma_fundamental_div_mod_converse(rest, 60, p.minute as int, p.second as int);
    lemma_fundamental_div_mod_converse(seconds_of_day(p), 60, p.hour * 60 + p.minute, p.second as int);
}

/// A Unix timestamp has at most one calendar date-time.
pub proof fn lemma_parts_unique(p: DateTimeParts, q: DateTimeParts, secs: int)
    requires
        is_parts_of(p, secs),
        is_parts_of(q, secs),
    ensures
        p == q,
{
    lemma_unix_split(p);
    lemma_unix_split(q);
    lemma_civil_unique(
        p.year as int,
        p.month as int,
        p.day as int,
        q.year as int,
        q.month as int,
        q.day as int,
    );
}

/// A date-time that a timestamp has is the one that `parts_of_unix` names.
pub proof fn lemma_parts_of_unix(p: DateTimeParts, secs: int)
    requires
        is_parts_of(p, secs),
    ensures
        parts_of_unix(secs) == p,
{
    let q = parts_of_unix(secs);
    assert(is_parts_of(q, secs));
    lemma_parts_unique(p, q, secs);
}

/// The hour, minute and second of a timestamp's date-time make up the
/// timestamp's seconds since midnight (UTC midnight when no offset applies).
pub proof fn lemma_time_of_day(p: DateTimeParts, secs: int)
    requires
        is_parts_of(p, secs),
    ensures
        p.hour * 3600 + p.minute * 60 + p.second == secs % 86400,
        days_from_civil(p.year as int, p.month as int, p.day as int) == secs / 86400,
{
    lemma_unix_split(p);
}

/// One day later the weekday is the next one, Saturday (6) wrapping to Sunday (0).
pub proof fn lemma_weekday_next_day(p: DateTimeParts, q: DateTimeParts, secs: int)
    requires
        is_parts_of(p, secs),
        is_parts_of(q, secs + 86400),
    ensures
        q.weekday == (p.weekday + 1) % 7,
{
    lemma_unix_split(p);
    lemma_unix_split(q);
    let dp = days_from_civil(p.year as int, p.month as int, p.day as int);
    let dq = days_from_civil(q.year as int, q.month as int, q.day as int);
    assert(secs + 86400 == (dp + 1) * 86400 + seconds_of_day(p)) by (nonlinear_arith)
        requires
            secs == dp * 86400 + seconds_of_day(p),
    ;
    lemma_fundamental_div_mod_converse(secs + 86400, 86400, dp + 1, seconds_of_day(p));
    assert(dq == dp + 1);
    let w = (dp + 4) % 7;
    lemma_fundamental_div_mod(dp + 4, 7);
    let k = (dp + 4) / 7;
    if w == 6 {
        lemma_fundamental_div_mod_converse(dp + 5, 7, k + 1, 0);
    } else {
        lemma_fundamental_div_mod_converse(dp + 5, 7, k, w + 1);
    }
}

/// Every field of a valid date-time lies in its calendar range.
pub proof fn lemma_parts_ranges(p: DateTimeParts)
    requires
        is_valid_parts(p),
    ensures
        1 <= p.day <= 31,
        1 <= p.ordinal <= days_in_year(p.year as int),
        days_in_year(p.year as int) <= 366,
        p.weekday < 7,
{
    lemma_day_in_year(p.year as int, p.month as int, p.day as int);
}

} // verus!
