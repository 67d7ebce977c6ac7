//! Vega's date-part functions (`year`, `utcmonth`, ...) on columns of timestamps.
//!
//! A timestamp column holds milliseconds since the Unix epoch.  Each value is
//! cut to whole seconds (towards zero), turned into a calendar date-time in UTC
//! or in the local time zone, and one calendar field of it is returned.  Null
//! values stay null.
use crate::calendar::{
    in_supported_range, is_parts_of, is_valid_parts, lemma_parts_of_unix, lemma_parts_ranges,
    parts_of_unix, DateTimeParts,
    MAX_OFFSET_SECONDS, MAX_UNIX_SECONDS, MIN_UNIX_SECONDS,
};
use time::{OffsetDateTime, UtcOffset};
use vstd::prelude::*;

verus! {

/// The calendar field that a date-part function extracts.
#[derive(Clone, Copy, Debug, PartialEq, Eq)]
pub enum DatePart {
    Year,
    Month,
    Quarter,
    Date,
    Day,
    DayOfYear,
    Hours,
    Minutes,
    Seconds,
    Milliseconds,
}

/// Why a local-time date part could not be computed.
#[derive(Clone, Copy, Debug, PartialEq, Eq)]
pub enum DatePartError {
    /// The local UTC offset at some timestamp could not be determined.
    LocalOffsetUnavailable,
    /// Some local date-time lies outside the supported calendar range.
    LocalTimeOutOfRange,
}

/// A column of dates or timestamps, as the date-part functions accept it.
#[derive(Debug)]
pub enum DateColumn {
    /// Milliseconds since the Unix epoch (64-bit dates, millisecond
    /// timestamps and plain 64-bit integers).
    Millis(Vec<Option<i64>>),
    /// Days since the Unix epoch (32-bit dates).
    Days(Vec<Option<i32>>),
}

/// The value of the field `part` of the date-time `p`.
pub open spec fn spec_date_part(part: DatePart, p: DateTimeParts) -> int {
    match part {
        DatePart::Year => p.year as int,
        DatePart::Month => p.month - 1,
        DatePart::Quarter => (p.month - 1) / 3 + 1,
        DatePart::Date => p.day as int,
        DatePart::Day => p.weekday as int,
        DatePart::DayOfYear => p.ordinal as int,
        DatePart::Hours => p.hour as int,
        DatePart::Minutes => p.minute as int,
        DatePart::Seconds => p.second as int,
        DatePart::Milliseconds => p.millisecond as int,
    }
}

/// Whole seconds of a millisecond count, cut towards zero.
pub open spec fn seconds_of_millis(ms: int) -> int {
    if ms >= 0 {
        ms / 1000
    } else {
        -((-ms) / 1000)
    }
}

/// Every non-null millisecond value of `values` has a supported date.
pub open spec fn millis_in_range(values: Seq<Option<i64>>) -> bool {
    forall|i: int|
        0 <= i < values.len() ==> (#[trigger] values[i] matches Some(v) ==> in_supported_range(
            seconds_of_millis(v as int),
        ))
}

/// The field `part` of the date-time at `ms` milliseconds, shifted by `offset` seconds.
pub open spec fn part_at(part: DatePart, ms: int, offset: int) -> int {
    spec_date_part(part, parts_of_unix(seconds_of_millis(ms) + offset))
}

/// `out` holds, for each value of `millis`, null for null and otherwise the
/// field `part` of its date-time shifted by the offset of the same position.
pub open spec fn parts_column(
    part: DatePart,
    millis: Seq<Option<i64>>,
    offsets: Seq<i32>,
    out: Seq<Option<i64>>,
) -> bool {
    &&& out.len() == millis.len()
    &&& forall|i: int|
        0 <= i < millis.len() ==> match (#[trigger] out[i], millis[i]) {
            (None, None) => true,
            (Some(r), Some(v)) => r == part_at(part, v as int, offsets[i] as int),
            _ => false,
        }
}

/// No offset at any of `n` positions.
pub open spec fn zero_offsets(n: nat) -> Seq<i32> {
    Seq::new(n, |i: int| 0i32)
}

/// Each non-null value of `millis`, and the same value shifted by the offset
/// at its position, has a supported date, and each such offset lies within
/// 25:59:59.
pub open spec fn offsets_in_range(millis: Seq<Option<i64>>, offsets: Seq<i32>) -> bool {
    &&& offsets.len() == millis.len()
    &&& forall|i: int|
        0 <= i < millis.len() ==> (#[trigger] millis[i] matches Some(v) ==> {
            &&& in_supported_range(seconds_of_millis(v as int))
            &&& -MAX_OFFSET_SECONDS <= offsets[i] <= MAX_OFFSET_SECONDS
            &&& in_supported_range(seconds_of_millis(v as int) + offsets[i])
        })
}

/// `out` holds the field `part` of each value of `millis` shifted by some
/// offset within 25:59:59 (the local offset, which the system decides).
pub open spec fn local_parts_column(part: DatePart, millis: Seq<Option<i64>>, out: Seq<Option<i64>>) -> bool {
    exists|offsets: Seq<i32>|
        offsets_in_range(millis, offsets) && #[trigger] parts_column(part, millis, offsets, out)
}

/// Each offset at a non-null position of `millis` lies within 25:59:59.
pub open spec fn offsets_bounded(millis: Seq<Option<i64>>, offsets: Seq<i32>) -> bool {
    &&& offsets.len() == millis.len()
    &&& forall|i: int|
        0 <= i < millis.len() ==> (#[trigger] millis[i] is Some ==> -MAX_OFFSET_SECONDS
            <= offsets[i] <= MAX_OFFSET_SECONDS)
}

/// Some non-null timestamp of `millis`, shifted by its offset, leaves the
/// supported range.
pub open spec fn shifted_out_of_range(millis: Seq<Option<i64>>, offsets: Seq<i32>) -> bool {
    exists|i: int|
        0 <= i < millis.len() && (#[trigger] millis[i] matches Some(v) && !in_supported_range(
            seconds_of_millis(v as int) + offsets[i],
        ))
}

/// `secs` lies within 25:59:59 of an end of the supported range.
pub open spec fn near_range_end(secs: int) -> bool {
    !(MIN_UNIX_SECONDS + MAX_OFFSET_SECONDS <= secs <= MAX_UNIX_SECONDS - MAX_OFFSET_SECONDS)
}

/// `offset` is an offset that the system reports, through
/// `time::UtcOffset::local_offset_at`, as the local UTC offset at the Unix
/// timestamp `secs` (a value that a call of the offset lookup on `secs` can
/// give back).
pub closed spec fn is_reported_local_offset(secs: int, offset: i32) -> bool {
    call_ensures(local_offset_seconds_at, (secs as i64,), Some(offset))
}

/// The system can fail to report a local UTC offset at the Unix timestamp `secs`.
pub closed spec fn is_unreported_local_offset(secs: int) -> bool {
    call_ensures(local_offset_seconds_at, (secs as i64,), None::<i32>)
}

/// At each non-null position of `millis`, the offset of the same position of
/// `offsets` is one that the system reports for that timestamp.
pub open spec fn reported_offsets(millis: Seq<Option<i64>>, offsets: Seq<i32>) -> bool {
    &&& offsets.len() == millis.len()
    &&& forall|i: int|
        0 <= i < millis.len() ==> (#[trigger] millis[i] matches Some(v) ==> is_reported_local_offset(
            seconds_of_millis(v as int),
            offsets[i],
        ))
}

/// `out` holds the field `part` of each timestamp of `millis` in the
/// system's local time: shifted by the local offset that the system reports
/// at that timestamp.
pub open spec fn system_local_parts_column(
    part: DatePart,
    millis: Seq<Option<i64>>,
    out: Seq<Option<i64>>,
) -> bool {
    exists|offsets: Seq<i32>|
        reported_offsets(millis, offsets) && offsets_in_range(millis, offsets)
            && #[trigger] parts_column(part, millis, offsets, out)
}

/// The milliseconds of a date column.
pub open spec fn column_millis(column: DateColumn) -> Seq<Option<i64>> {
    match column {
        DateColumn::Millis(values) => values@,
        DateColumn::Days(days) => days@.map_values(
            |d: Option<i32>|
                match d {
                    Some(v) => Some((v * 86400000) as i64),
                    None => None,
                },
        ),
    }
}

/// Name of the Vega function that extracts `part`, in local time or in UTC.
pub open spec fn spec_udf_name(part: DatePart, local: bool) -> Seq<char> {
    if local {
        match part {
            DatePart::Year => "year"@,
            DatePart::Month => "month"@,
            DatePart::Quarter => "quarter"@,
            DatePart::Date => "date"@,
            DatePart::Day => "day"@,
            DatePart::DayOfYear => "dayofyear"@,
            DatePart::Hours => "hours"@,
            DatePart::Minutes => "minutes"@,
            DatePart::Seconds => "seconds"@,
            DatePart::Milliseconds => "milliseconds"@,
        }
    } else {
        match part {
            DatePart::Year => "utcyear"@,
            DatePart::Month => "utcmonth"@,
            DatePart::Quarter => "utcquarter"@,
            DatePart::Date => "utcdate"@,
            DatePart::Day => "utcday"@,
            DatePart::DayOfYear => "utcdayofyear"@,
            DatePart::Hours => "utchours"@,
            DatePart::Minutes => "utcminutes"@,
            DatePart::Seconds => "utcseconds"@,
            DatePart::Milliseconds => "utcmilliseconds"@,
        }
    }
}

/// The year.
pub fn extract_year(dt: &DateTimeParts) -> (r: i64)
    ensures
        r == spec_date_part(DatePart::Year, *dt),
{
    dt.year as i64
}

/// The month counted from 0 (January) to 11 (December).
pub fn extract_month(dt: &DateTimeParts) -> (r: i64)
    ensures
        r == spec_date_part(DatePart::Month, *dt),
{
    dt.month as i64 - 1
}

/// The quarter of the year, 1 to 4 for a valid month.
pub fn extract_quarter(dt: &DateTimeParts) -> (r: i64)
    ensures
        r == spec_date_part(DatePart::Quarter, *dt),
{
    if dt.month == 0 {
        0
    } else {
        ((dt.month - 1) / 3) as i64 + 1
    }
}

/// The day of the month.
pub fn extract_date(dt: &DateTimeParts) -> (r: i64)
    ensures
        r == spec_date_part(DatePart::Date, *dt),
{
    dt.day as i64
}

/// The weekday, counted in days from Sunday (0) to Saturday (6).
pub fn extract_day(dt: &DateTimeParts) -> (r: i64)
    ensures
        r == spec_date_part(DatePart::Day, *dt),
{
    dt.weekday as i64
}

/// The day of the year, from 1.
pub fn extract_dayofyear(dt: &DateTimeParts) -> (r: i64)
    ensures
        r == spec_date_part(DatePart::DayOfYear, *dt),
{
    dt.ordinal as i64
}

/// The hour.
pub fn extract_hour(dt: &DateTimeParts) -> (r: i64)
    ensures
        r == spec_date_part(DatePart::Hours, *dt),
{
    dt.hour as i64
}

/// The minute.
pub fn extract_minute(dt: &DateTimeParts) -> (r: i64)
    ensures
        r == spec_date_part(DatePart::Minutes, *dt),
{
    dt.minute as i64
}

/// The second.
pub fn extract_second(dt: &DateTimeParts) -> (r: i64)
    ensures
        r == spec_date_part(DatePart::Seconds, *dt),
{
    dt.second as i64
}

/// The millisecond.
pub fn extract_millisecond(dt: &DateTimeParts) -> (r: i64)
    ensures
        r == spec_date_part(DatePart::Milliseconds, *dt),
{
    dt.millisecond as i64
}

impl DatePart {
    /// The field `self` of `dt`.
    pub fn extract(&self, dt: &DateTimeParts) -> (r: i64)
        ensures
            r == spec_date_part(*self, *dt),
    {
        match self {
            DatePart::Year => extract_year(dt),
            DatePart::Month => extract_month(dt),
            DatePart::Quarter => extract_quarter(dt),
            DatePart::Date => extract_date(dt),
            DatePart::Day => extract_day(dt),
            DatePart::DayOfYear => extract_dayofyear(dt),
            DatePart::Hours => extract_hour(dt),
            DatePart::Minutes => extract_minute(dt),
            DatePart::Seconds => extract_second(dt),
            DatePart::Milliseconds => extract_millisecond(dt),
        }
    }

    /// The name of the Vega function that extracts `self`, in local time
    /// (`local`) or in UTC.
    pub fn udf_name(&self, local: bool) -> (name: &'static str)
        ensures
            name@ == spec_udf_name(*self, local),
    {
        if local {
            match self {
                DatePart::Year => "year",
                DatePart::Month => "month",
                DatePart::Quarter => "quarter",
                DatePart::Date => "date",
                DatePart::Day => "day",
                DatePart::DayOfYear => "dayofyear",
                DatePart::Hours => "hours",
                DatePart::Minutes => "minutes",
                DatePart::Seconds => "seconds",
                DatePart::Milliseconds => "milliseconds",
            }
        } else {
            match self {
                DatePart::Year => "utcyear",
                DatePart::Month => "utcmonth",
                DatePart::Quarter => "utcquarter",
                DatePart::Date => "utcdate",
                DatePart::Day => "utcday",
                DatePart::DayOfYear => "utcdayofyear",
                DatePart::Hours => "utchours",
                DatePart::Minutes => "utcminutes",
                DatePart::Seconds => "utcseconds",
                DatePart::Milliseconds => "utcmilliseconds",
            }
        }
    }
}

/// Calls `time::OffsetDateTime::from_unix_timestamp(secs)` and then
/// `checked_to_offset` with the offset that `time::UtcOffset::from_whole_seconds`
/// makes of `offset_seconds`, and reads the calendar fields of the result.
/// Claimed: a result comes exactly when `secs`, the offset and the shifted
/// time are all in the range that `time` supports (years -9999 to 9999,
/// offsets within 25:59:59), and it is the calendar date-time, without
/// milliseconds, of `secs + offset_seconds` in the proleptic Gregorian calendar.
#[verifier::external_body]
fn datetime_parts_at(secs: i64, offset_seconds: i32) -> (res: Option<DateTimeParts>)
    ensures
        res is Some <==> (in_supported_range(secs as int) && -MAX_OFFSET_SECONDS <= offset_seconds
            <= MAX_OFFSET_SECONDS && in_supported_range(secs + offset_seconds)),
        res matches Some(p) ==> is_parts_of(p, secs + offset_seconds),
{
    let offset = UtcOffset::from_whole_seconds(offset_seconds).ok()?;
    let dt = OffsetDateTime::from_unix_timestamp(secs).ok()?.checked_to_offset(offset)?;
    Some(DateTimeParts {
        year: dt.year(),
        month: dt.month() as u8,
        day: dt.day(),
        weekday: dt.weekday().number_days_from_sunday(),
        ordinal: dt.ordinal(),
        hour: dt.hour(),
        minute: dt.minute(),
        second: dt.second(),
        millisecond: dt.millisecond(),
    })
}

/// Calls `time::UtcOffset::local_offset_at` on the UTC date-time that
/// `time::OffsetDateTime::from_unix_timestamp(secs)` makes, and returns the
/// offset in whole seconds.  The offset depends on the system's time-zone
/// database and on the process (the call fails in some multi-threaded
/// processes), so nothing is claimed of its value but that it lies within
/// 25:59:59, and that a result comes only for a supported `secs`.
#[verifier::external_body]
fn local_offset_seconds_at(secs: i64) -> (res: Option<i32>)
    ensures
        res is Some ==> in_supported_range(secs as int),
        res matches Some(o) ==> -MAX_OFFSET_SECONDS <= o <= MAX_OFFSET_SECONDS,
{
    let utc = OffsetDateTime::from_unix_timestamp(secs).ok()?;
    UtcOffset::local_offset_at(utc).ok().map(|offset| offset.whole_seconds())
}

/// Whole seconds of a millisecond count, cut towards zero.
fn millis_to_seconds(ms: i64) -> (s: i64)
    ensures
        s == seconds_of_millis(ms as int),
{
    if ms >= 0 {
        ms / 1000
    } else {
        let magnitude: u64 = (0i128 - ms as i128) as u64;
        let q: u64 = magnitude / 1000;
        -(q as i64)
    }
}

/// The field `part` of each timestamp of `millis`, shifted by the offset in
/// seconds at the same position of `offsets`.
pub fn date_part_with_offsets(millis: &Vec<Option<i64>>, offsets: &Vec<i32>, part: DatePart) -> (res:
    Vec<Option<i64>>)
    requires
        offsets_in_range(millis@, offsets@),
    ensures
        parts_column(part, millis@, offsets@, res@),
{
    let mut res: Vec<Option<i64>> = Vec::new();
    let mut i: usize = 0;
    while i < millis.len()
        invariant
            i <= millis.len(),
            offsets_in_range(millis@, offsets@),
            res.len() == i,
            forall|j: int|
                0 <= j < i ==> match (#[trigger] res@[j], millis@[j]) {
                    (None, None) => true,
                    (Some(r), Some(v)) => r == part_at(part, v as int, offsets@[j] as int),
                    _ => false,
                },
        decreases millis.len() - i,
    {
        match millis[i] {
            None => res.push(None),
            Some(v) => {
                assert(millis@[i as int] == Some(v));
                let secs = millis_to_seconds(v);
                let offset = offsets[i];
                match datetime_parts_at(secs, offset) {
                    Some(p) => {
                        proof {
                            lemma_parts_of_unix(p, secs + offset);
                        }
                        res.push(Some(part.extract(&p)));
                    },
                    None => {
                        assert(false);
                        res.push(None);
                    },
                }
            },
        }
        i = i + 1;
    }
    res
}

/// The field `part`, in UTC, of each timestamp of `millis`.
pub fn date_part_utc(millis: &Vec<Option<i64>>, part: DatePart) -> (res: Vec<Option<i64>>)
    requires
        millis_in_range(millis@),
    ensures
        parts_column(part, millis@, zero_offsets(millis@.len()), res@),
{
    let mut offsets: Vec<i32> = Vec::new();
    let mut i: usize = 0;
    while i < millis.len()
        invariant
            i <= millis.len(),
            offsets@ == zero_offsets(i as nat),
        decreases millis.len() - i,
    {
        offsets.push(0);
        i = i + 1;
    }
    assert(offsets_in_range(millis@, offsets@)) by {
        assert forall|j: int| 0 <= j < millis@.len() implies (#[trigger] millis@[j] matches Some(
            v,
        ) ==> {
            &&& in_supported_range(seconds_of_millis(v as int))
            &&& -MAX_OFFSET_SECONDS <= offsets@[j] <= MAX_OFFSET_SECONDS
            &&& in_supported_range(seconds_of_millis(v as int) + offsets@[j])
        }) by {
            assert(offsets@[j] == 0);
        }
    }
    date_part_with_offsets(millis, &offsets, part)
}

/// The field `part` of each timestamp of `millis` in a local time given by
/// the offsets in seconds at the same positions of `offsets`.  When some
/// non-null timestamp shifted by its offset leaves the supported range, the
/// result is `LocalTimeOutOfRange`.
pub fn date_part_from_local_offsets(
    millis: &Vec<Option<i64>>,
    offsets: &Vec<i32>,
    part: DatePart,
) -> (res: Result<Vec<Option<i64>>, DatePartError>)
    requires
        millis_in_range(millis@),
        offsets_bounded(millis@, offsets@),
    ensures
        res is Err <==> shifted_out_of_range(millis@, offsets@),
        res matches Err(e) ==> e == DatePartError::LocalTimeOutOfRange,
        res matches Ok(out) ==> parts_column(part, millis@, offsets@, out@),
{
    let mut i: usize = 0;
    while i < millis.len()
        invariant
            i <= millis.len(),
            millis_in_range(millis@),
            offsets_bounded(millis@, offsets@),
            offsets_in_range(millis@.take(i as int), offsets@.take(i as int)),
        decreases millis.len() - i,
    {
        match millis[i] {
            None => {},
            Some(v) => {
                assert(millis@[i as int] == Some(v));
                let secs = millis_to_seconds(v);
                let shifted = secs + offsets[i] as i64;
                if shifted < MIN_UNIX_SECONDS || shifted > MAX_UNIX_SECONDS {
                    assert(!in_supported_range(seconds_of_millis(v as int) + offsets@[i as int]));
                    return Err(DatePartError::LocalTimeOutOfRange);
                }
            },
        }
        assert(millis@.take(i + 1) =~= millis@.take(i as int).push(millis@[i as int]));
        assert(offsets@.take(i + 1) =~= offsets@.take(i as int).push(offsets@[i as int]));
        i = i + 1;
    }
    assert(millis@.take(millis@.len() as int) =~= millis@);
    assert(offsets@.take(offsets@.len() as int) =~= offsets@);
    assert(offsets_in_range(millis@, offsets@));
    assert(!shifted_out_of_range(millis@, offsets@));
    Ok(date_part_with_offsets(millis, offsets, part))
}

/// The field `part`, in the local time zone, of each timestamp of `millis`:
/// the field of the timestamp shifted by the local offset that the system
/// reports at it (within 25:59:59); nulls stay null.  An error comes only
/// where the system reports no offset, or where a shifted time leaves the
/// supported range.  The offsets go to
/// `date_part_from_local_offsets`, so `LocalTimeOutOfRange` comes only for a
/// timestamp within 25:59:59 of the ends of the supported range.
pub fn date_part_local(millis: &Vec<Option<i64>>, part: DatePart) -> (res: Result<
    Vec<Option<i64>>,
    DatePartError,
>)
    requires
        millis_in_range(millis@),
    ensures
        res matches Ok(out) ==> local_parts_column(part, millis@, out@),
        res is Err ==> exists|i: int| 0 <= i < millis@.len() && #[trigger] millis@[i] is Some,
        res == Err::<Vec<Option<i64>>, DatePartError>(DatePartError::LocalTimeOutOfRange)
            ==> exists|i: int| 0 <= i < millis@.len() && (#[trigger] millis@[i] matches Some(v)
            && near_range_end(seconds_of_millis(v as int))),
        res matches Ok(out) ==> system_local_parts_column(part, millis@, out@),
        res == Err::<Vec<Option<i64>>, DatePartError>(DatePartError::LocalOffsetUnavailable)
            ==> exists|i: int| 0 <= i < millis@.len() && (#[trigger] millis@[i] matches Some(v)
            && is_unreported_local_offset(seconds_of_millis(v as int))),
        res == Err::<Vec<Option<i64>>, DatePartError>(DatePartError::LocalTimeOutOfRange)
            ==> exists|offsets: Seq<i32>|
            #[trigger] reported_offsets(millis@, offsets) && offsets_bounded(millis@, offsets)
                && shifted_out_of_range(millis@, offsets),
{
    let mut offsets: Vec<i32> = Vec::new();
    let mut i: usize = 0;
    while i < millis.len()
        invariant
            i <= millis.len(),
            millis_in_range(millis@),
            offsets.len() == i,
            offsets_bounded(millis@.take(i as int), offsets@),
            reported_offsets(millis@.take(i as int), offsets@),
        decreases millis.len() - i,
    {
        match millis[i] {
            None => offsets.push(0),
            Some(v) => {
                assert(millis@[i as int] == Some(v));
                let secs = millis_to_seconds(v);
                match local_offset_seconds_at(secs) {
                    None => {
                        assert(is_unreported_local_offset(seconds_of_millis(v as int)));
                        return Err(DatePartError::LocalOffsetUnavailable);
                    },
                    Some(offset) => offsets.push(offset),
                }
            },
        }
        assert(millis@.take(i + 1) =~= millis@.take(i as int).push(millis@[i as int]));
        i = i + 1;
    }
    assert(millis@.take(millis@.len() as int) =~= millis@);
    let res = date_part_from_local_offsets(millis, &offsets, part);
    match &res {
        Ok(out) => {
            assert(offsets_in_range(millis@, offsets@)) by {
                assert forall|k: int| 0 <= k < millis@.len() implies (#[trigger] millis@[k] matches Some(v) ==> {
                    &&& in_supported_range(seconds_of_millis(v as int))
                    &&& -MAX_OFFSET_SECONDS <= offsets@[k] <= MAX_OFFSET_SECONDS
                    &&& in_supported_range(seconds_of_millis(v as int) + offsets@[k])
                }) by {
                    if millis@[k] is Some && !in_supported_range(seconds_of_millis(millis@[k]->0 as int) + offsets@[k]) {
                        assert(shifted_out_of_range(millis@, offsets@));
                    }
                }
            }
            assert(local_parts_column(part, millis@, out@));
            assert(reported_offsets(millis@, offsets@));
            assert(system_local_parts_column(part, millis@, out@));
        },
        Err(_) => {
            assert(reported_offsets(millis@, offsets@));
            let ghost k = choose|k: int| 0 <= k < millis@.len() && (#[trigger] millis@[k] matches Some(v)
                && !in_supported_range(seconds_of_millis(v as int) + offsets@[k]));
            assert(millis@[k] is Some);
            assert(near_range_end(seconds_of_millis(millis@[k]->0 as int)));
        },
    }
    res
}

/// Each UTC function is named "utc" followed by the name of the local
/// function for the same field.
pub proof fn lemma_utc_names(part: DatePart)
    ensures
        spec_udf_name(part, false) == "utc"@ + spec_udf_name(part, true),
{
    reveal_strlit("utc");
        reveal_strlit("year");
        reveal_strlit("utcyear");
        reveal_strlit("month");
        reveal_strlit("utcmonth");
        reveal_strlit("quarter");
        reveal_strlit("utcquarter");
        reveal_strlit("date");
        reveal_strlit("utcdate");
        reveal_strlit("day");
        reveal_strlit("utcday");
        reveal_strlit("dayofyear");
        reveal_strlit("utcdayofyear");
        reveal_strlit("hours");
        reveal_strlit("utchours");
        reveal_strlit("minutes");
        reveal_strlit("utcminutes");
        reveal_strlit("seconds");
        reveal_strlit("utcseconds");
        reveal_strlit("milliseconds");
        reveal_strlit("utcmilliseconds");
    match part {
        DatePart::Year => assert("utcyear"@ =~= "utc"@ + "year"@),
        DatePart::Month => assert("utcmonth"@ =~= "utc"@ + "month"@),
        DatePart::Quarter => assert("utcquarter"@ =~= "utc"@ + "quarter"@),
        DatePart::Date => assert("utcdate"@ =~= "utc"@ + "date"@),
        DatePart::Day => assert("utcday"@ =~= "utc"@ + "day"@),
        DatePart::DayOfYear => assert("utcdayofyear"@ =~= "utc"@ + "dayofyear"@),
        DatePart::Hours => assert("utchours"@ =~= "utc"@ + "hours"@),
        DatePart::Minutes => assert("utcminutes"@ =~= "utc"@ + "minutes"@),
        DatePart::Seconds => assert("utcseconds"@ =~= "utc"@ + "seconds"@),
        DatePart::Milliseconds => assert("utcmilliseconds"@ =~= "utc"@ + "milliseconds"@),
    }
}

/// Each function name gives the field that Vega documents for it: `year`
/// the year, `month` the zero-based month, `quarter` the quarter, `date` the
/// day of the month, `day` the weekday, `dayofyear` the day of the year, and
/// `hours`, `minutes`, `seconds`, `milliseconds` the time of day.
pub proof fn lemma_names_follow_fields(part: DatePart, p: DateTimeParts)
    ensures
        spec_udf_name(part, true) == "year"@ ==> spec_date_part(part, p) == p.year,
        spec_udf_name(part, true) == "month"@ ==> spec_date_part(part, p) == p.month - 1,
        spec_udf_name(part, true) == "quarter"@ ==> spec_date_part(part, p) == (p.month - 1) / 3
            + 1,
        spec_udf_name(part, true) == "date"@ ==> spec_date_part(part, p) == p.day,
        spec_udf_name(part, true) == "day"@ ==> spec_date_part(part, p) == p.weekday,
        spec_udf_name(part, true) == "dayofyear"@ ==> spec_date_part(part, p) == p.ordinal,
        spec_udf_name(part, true) == "hours"@ ==> spec_date_part(part, p) == p.hour,
        spec_udf_name(part, true) == "minutes"@ ==> spec_date_part(part, p) == p.minute,
        spec_udf_name(part, true) == "seconds"@ ==> spec_date_part(part, p) == p.second,
        spec_udf_name(part, true) == "milliseconds"@ ==> spec_date_part(part, p)
            == p.millisecond,
{
    reveal_strlit("year");
    reveal_strlit("month");
    reveal_strlit("quarter");
    reveal_strlit("date");
    reveal_strlit("day");
    reveal_strlit("dayofyear");
    reveal_strlit("hours");
    reveal_strlit("minutes");
    reveal_strlit("seconds");
    reveal_strlit("milliseconds");
    match part {
        DatePart::Year => {
            assert("year"@.len() != "month"@.len());
            assert("year"@.len() != "quarter"@.len());
            assert("year"@[0] != "date"@[0]);
            assert("year"@.len() != "day"@.len());
            assert("year"@.len() != "dayofyear"@.len());
            assert("year"@.len() != "hours"@.len());
            assert("year"@.len() != "minutes"@.len());
            assert("year"@.len() != "seconds"@.len());
            assert("year"@.len() != "milliseconds"@.len());
        },
        DatePart::Month => {
            assert("month"@.len() != "year"@.len());
            assert("month"@.len() != "quarter"@.len());
            assert("month"@.len() != "date"@.len());
            assert("month"@.len() != "day"@.len());
            assert("month"@.len() != "dayofyear"@.len());
            assert("month"@[0] != "hours"@[0]);
            assert("month"@.len() != "minutes"@.len());
            assert("month"@.len() != "seconds"@.len());
            assert("month"@.len() != "milliseconds"@.len());
        },
        DatePart::Quarter => {
            assert("quarter"@.len() != "year"@.len());
            assert("quarter"@.len() != "month"@.len());
            assert("quarter"@.len() != "date"@.len());
            assert("quarter"@.len() != "day"@.len());
            assert("quarter"@.len() != "dayofyear"@.len());
            assert("quarter"@.len() != "hours"@.len());
            assert("quarter"@[0] != "minutes"@[0]);
            assert("quarter"@[0] != "seconds"@[0]);
            assert("quarter"@.len() != "milliseconds"@.len());
        },
        DatePart::Date => {
            assert("date"@[0] != "year"@[0]);
            assert("date"@.len() != "month"@.len());
            assert("date"@.len() != "quarter"@.len());
            assert("date"@.len() != "day"@.len());
            assert("date"@.len() != "dayofyear"@.len());
            assert("date"@.len() != "hours"@.len());
            assert("date"@.len() != "minutes"@.len());
            assert("date"@.len() != "seconds"@.len());
            assert("date"@.len() != "milliseconds"@.len());
        },
        DatePart::Day => {
            assert("day"@.len() != "year"@.len());
            assert("day"@.len() != "month"@.len());
            assert("day"@.len() != "quarter"@.len());
            assert("day"@.len() != "date"@.len());
            assert("day"@.len() != "dayofyear"@.len());
            assert("day"@.len() != "hours"@.len());
            assert("day"@.len() != "minutes"@.len());
            assert("day"@.len() != "seconds"@.len());
            assert("day"@.len() != "milliseconds"@.len());
        },
        DatePart::DayOfYear => {
            assert("dayofyear"@.len() != "year"@.len());
            assert("dayofyear"@.len() != "month"@.len());
            assert("dayofyear"@.len() != "quarter"@.len());
            assert("dayofyear"@.len() != "date"@.len());
            assert("dayofyear"@.len() != "day"@.len());
            assert("dayofyear"@.len() != "hours"@.len());
            assert("dayofyear"@.len() != "minutes"@.len());
            assert("dayofyear"@.len() != "seconds"@.len());
            assert("dayofyear"@.len() != "milliseconds"@.len());
        },
        DatePart::Hours => {
            assert("hours"@.len() != "year"@.len());
            assert("hours"@[0] != "month"@[0]);
            assert("hours"@.len() != "quarter"@.len());
            assert("hours"@.len() != "date"@.len());
            assert("hours"@.len() != "day"@.len());
            assert("hours"@.len() != "dayofyear"@.len());
            assert("hours"@.len() != "minutes"@.len());
            assert("hours"@.len() != "seconds"@.len());
            assert("hours"@.len() != "milliseconds"@.len());
        },
        DatePart::Minutes => {
            assert("minutes"@.len() != "year"@.len());
            assert("minutes"@.len() != "month"@.len());
            assert("minutes"@[0] != "quarter"@[0]);
            assert("minutes"@.len() != "date"@.len());
            assert("minutes"@.len() != "day"@.len());
            assert("minutes"@.len() != "dayofyear"@.len());
            assert("minutes"@.len() != "hours"@.len());
            assert("minutes"@[0] != "seconds"@[0]);
            assert("minutes"@.len() != "milliseconds"@.len());
        },
        DatePart::Seconds => {
            assert("seconds"@.len() != "year"@.len());
            assert("seconds"@.len() != "month"@.len());
            assert("seconds"@[0] != "quarter"@[0]);
            assert("seconds"@.len() != "date"@.len());
            assert("seconds"@.len() != "day"@.len());
            assert("seconds"@.len() != "dayofyear"@.len());
            assert("seconds"@.len() != "hours"@.len());
            assert("seconds"@[0] != "minutes"@[0]);
            assert("seconds"@.len() != "milliseconds"@.len());
        },
        DatePart::Milliseconds => {
            assert("milliseconds"@.len() != "year"@.len());
            assert("milliseconds"@.len() != "month"@.len());
            assert("milliseconds"@.len() != "quarter"@.len());
            assert("milliseconds"@.len() != "date"@.len());
            assert("milliseconds"@.len() != "day"@.len());
            assert("milliseconds"@.len() != "dayofyear"@.len());
            assert("milliseconds"@.len() != "hours"@.len());
            assert("milliseconds"@.len() != "minutes"@.len());
            assert("milliseconds"@.len() != "seconds"@.len());
        },
    }
}

/// Vega's quarter is the zero-based month divided by three, plus one.
pub proof fn lemma_quarter_of_month(p: DateTimeParts)
    ensures
        spec_date_part(DatePart::Quarter, p) == spec_date_part(DatePart::Month, p) / 3 + 1,
{
}

/// On a valid date-time each date part lies in its documented range: the
/// month in 0..=11, the quarter in 1..=4, the date in 1..=31, the weekday in
/// 0..=6, the day of the year in 1..=366, hours, minutes, seconds and
/// milliseconds below 24, 60, 60 and 1000.
pub proof fn lemma_date_part_ranges(p: DateTimeParts)
    requires
        is_valid_parts(p),
    ensures
        0 <= spec_date_part(DatePart::Month, p) <= 11,
        1 <= spec_date_part(DatePart::Quarter, p) <= 4,
        1 <= spec_date_part(DatePart::Date, p) <= 31,
        0 <= spec_date_part(DatePart::Day, p) <= 6,
        1 <= spec_date_part(DatePart::DayOfYear, p) <= 366,
        0 <= spec_date_part(DatePart::Hours, p) < 24,
        0 <= spec_date_part(DatePart::Minutes, p) < 60,
        0 <= spec_date_part(DatePart::Seconds, p) < 60,
        0 <= spec_date_part(DatePart::Milliseconds, p) < 1000,
        -9999 <= spec_date_part(DatePart::Year, p) <= 9999,
{
    lemma_parts_ranges(p);
}

/// The UTC date parts of a column are its date parts at a zero offset: the
/// local functions agree with the UTC ones wherever the local offset is zero.
pub proof fn lemma_utc_is_zero_offset(part: DatePart, millis: Seq<Option<i64>>, out: Seq<Option<i64>>)
    requires
        parts_column(part, millis, zero_offsets(millis.len()), out),
        millis_in_range(millis),
    ensures
        offsets_in_range(millis, zero_offsets(millis.len())),
        local_parts_column(part, millis, out),
{
    assert forall|i: int| 0 <= i < millis.len() implies (#[trigger] millis[i] matches Some(v) ==> {
        &&& in_supported_range(seconds_of_millis(v as int))
        &&& -MAX_OFFSET_SECONDS <= zero_offsets(millis.len())[i] <= MAX_OFFSET_SECONDS
        &&& in_supported_range(seconds_of_millis(v as int) + zero_offsets(millis.len())[i])
    }) by {}
}

/// A column's date parts at given offsets are determined: two results that
/// meet `parts_column` for the same input are the same.
pub proof fn lemma_parts_column_unique(
    part: DatePart,
    millis: Seq<Option<i64>>,
    offsets: Seq<i32>,
    a: Seq<Option<i64>>,
    b: Seq<Option<i64>>,
)
    requires
        parts_column(part, millis, offsets, a),
        parts_column(part, millis, offsets, b),
    ensures
        a == b,
{
    assert forall|i: int| 0 <= i < a.len() implies a[i] == b[i] by {
        match (a[i], millis[i]) {
            (Some(_), Some(_)) => {
                assert(b[i] is Some);
            },
            _ => {},
        }
    }
    assert(a =~= b);
}

/// The input encoding does not change the date parts: a column of days and
/// the column of the same instants in milliseconds read as the same
/// timestamps, and so give the same parts at the same offsets.
pub proof fn lemma_days_read_as_millis(
    part: DatePart,
    days: Vec<Option<i32>>,
    millis: Vec<Option<i64>>,
    offsets: Seq<i32>,
    from_days: Seq<Option<i64>>,
    from_millis: Seq<Option<i64>>,
)
    requires
        millis@.len() == days@.len(),
        forall|i: int|
            0 <= i < days@.len() ==> #[trigger] millis@[i] == match days@[i] {
                Some(d) => Some((d * 86400000) as i64),
                None => None,
            },
        parts_column(part, column_millis(DateColumn::Days(days)), offsets, from_days),
        parts_column(part, column_millis(DateColumn::Millis(millis)), offsets, from_millis),
    ensures
        column_millis(DateColumn::Days(days)) == column_millis(DateColumn::Millis(millis)),
        from_days == from_millis,
{
    assert(column_millis(DateColumn::Days(days)) =~= column_millis(DateColumn::Millis(millis)));
    lemma_parts_column_unique(part, millis@, offsets, from_days, from_millis);
}

/// Where the local offset is zero at every timestamp, the local date parts
/// are the UTC ones: zero offsets never leave the range, so
/// `date_part_from_local_offsets` succeeds, and its result equals what
/// `date_part_utc` gives.
pub proof fn lemma_local_zero_offset_is_utc(
    part: DatePart,
    millis: Seq<Option<i64>>,
    local: Seq<Option<i64>>,
    utc: Seq<Option<i64>>,
)
    requires
        millis_in_range(millis),
        parts_column(part, millis, zero_offsets(millis.len()), local),
        parts_column(part, millis, zero_offsets(millis.len()), utc),
    ensures
        offsets_bounded(millis, zero_offsets(millis.len())),
        !shifted_out_of_range(millis, zero_offsets(millis.len())),
        local == utc,
{
    let zeros = zero_offsets(millis.len());
    assert forall|i: int| 0 <= i < millis.len() implies !(#[trigger] millis[i] matches Some(v)
        && !in_supported_range(seconds_of_millis(v as int) + zeros[i])) by {
        assert(zeros[i] == 0);
    }
    lemma_parts_column_unique(part, millis, zeros, local, utc);
}

/// Where the system reports no local offset but zero at every timestamp of
/// a column (the time zone is UTC), the local date parts of the column are
/// its UTC date parts.
pub proof fn lemma_local_is_utc_where_system_offset_is_zero(
    part: DatePart,
    millis: Seq<Option<i64>>,
    local: Seq<Option<i64>>,
    utc: Seq<Option<i64>>,
)
    requires
        millis_in_range(millis),
        forall|i: int, o: i32|
            0 <= i < millis.len() && millis[i] is Some && #[trigger] is_reported_local_offset(
                seconds_of_millis(millis[i]->0 as int),
                o,
            ) ==> o == 0,
        system_local_parts_column(part, millis, local),
        parts_column(part, millis, zero_offsets(millis.len()), utc),
    ensures
        local == utc,
{
    let offsets = choose|offsets: Seq<i32>|
        reported_offsets(millis, offsets) && offsets_in_range(millis, offsets) && #[trigger] parts_column(
            part,
            millis,
            offsets,
            local,
        );
    let zeros = zero_offsets(millis.len());
    assert forall|i: int| 0 <= i < millis.len() implies match (#[trigger] local[i], millis[i]) {
        (None, None) => true,
        (Some(r), Some(v)) => r == part_at(part, v as int, zeros[i] as int),
        _ => false,
    } by {
        if millis[i] is Some {
            assert(is_reported_local_offset(seconds_of_millis(millis[i]->0 as int), offsets[i]));
            assert(offsets[i] == 0);
        }
        match (local[i], millis[i]) {
            _ => {},
        }
    }
    assert(parts_column(part, millis, zeros, local));
    lemma_parts_column_unique(part, millis, zeros, local, utc);
}

impl DateColumn {
    /// The column as milliseconds since the Unix epoch; days count 86400000
    /// milliseconds each.
    pub fn to_millis(&self) -> (res: Vec<Option<i64>>)
        ensures
            res@ == column_millis(*self),
    {
        let mut res: Vec<Option<i64>> = Vec::new();
        match self {
            DateColumn::Millis(values) => {
                let mut i: usize = 0;
                while i < values.len()
                    invariant
                        i <= values.len(),
                        res@ == values@.take(i as int),
                    decreases values.len() - i,
                {
                    res.push(values[i]);
                    assert(values@.take(i + 1) =~= values@.take(i as int).push(values@[i as int]));
                    i = i + 1;
                }
                assert(values@.take(values@.len() as int) =~= values@);
            },
            DateColumn::Days(days) => {
                let mut i: usize = 0;
                while i < days.len()
                    invariant
                        i <= days.len(),
                        res.len() == i,
                        forall|j: int|
                            0 <= j < i ==> #[trigger] res@[j] == match days@[j] {
                                Some(v) => Some((v * 86400000) as i64),
                                None => None,
                            },
                    decreases days.len() - i,
                {
                    match days[i] {
                        Some(v) => res.push(Some(v as i64 * 86400000)),
                        None => res.push(None),
                    }
                    i = i + 1;
                }
                assert(res@ =~= column_millis(*self));
            },
        }
        res
    }
}

/// The field `part` of each date of `column`, in the local time zone
/// (`local`) or in UTC.
pub fn date_part_column(column: &DateColumn, part: DatePart, local: bool) -> (res: Result<
    Vec<Option<i64>>,
    DatePartError,
>)
    requires
        millis_in_range(column_millis(*column)),
    ensures
        !local ==> (res matches Ok(out) && parts_column(
            part,
            column_millis(*column),
            zero_offsets(column_millis(*column).len()),
            out@,
        )),
        local ==> (res matches Ok(out) ==> local_parts_column(part, column_millis(*column), out@)),
        local ==> (res matches Ok(out) ==> system_local_parts_column(
            part,
            column_millis(*column),
            out@,
        )),
        local ==> (res == Err::<Vec<Option<i64>>, DatePartError>(
            DatePartError::LocalOffsetUnavailable,
        ) ==> exists|i: int|
            0 <= i < column_millis(*column).len() && (#[trigger] column_millis(*column)[i] matches Some(
                v,
            ) && is_unreported_local_offset(seconds_of_millis(v as int)))),
        local ==> (res == Err::<Vec<Option<i64>>, DatePartError>(
            DatePartError::LocalTimeOutOfRange,
        ) ==> exists|offsets: Seq<i32>|
            #[trigger] reported_offsets(column_millis(*column), offsets) && offsets_bounded(
                column_millis(*column),
                offsets,
            ) && shifted_out_of_range(column_millis(*column), offsets)),
        local ==> (res is Err ==> exists|i: int|
            0 <= i < column_millis(*column).len() && #[trigger] column_millis(*column)[i] is Some),
        local ==> (res == Err::<Vec<Option<i64>>, DatePartError>(
            DatePartError::LocalTimeOutOfRange,
        ) ==> exists|i: int|
            0 <= i < column_millis(*column).len() && (#[trigger] column_millis(*column)[i] matches Some(
                v,
            ) && near_range_end(seconds_of_millis(v as int)))),
{
    let millis = column.to_millis();
    if local {
        date_part_local(&millis, part)
    } else {
        Ok(date_part_utc(&millis, part))
    }
}

} // verus!
