use vegafusion::calendar::{DateTimeParts, MAX_UNIX_SECONDS, MIN_UNIX_SECONDS};
use vegafusion::date_parts::{
    date_part_column, date_part_from_local_offsets, date_part_local, date_part_utc, date_part_with_offsets, extract_date,
    extract_day, extract_dayofyear, extract_hour, extract_millisecond, extract_minute,
    extract_month, extract_quarter, extract_second, extract_year, DateColumn, DatePart,
    DatePartError,
};

fn utc(ms: i64, part: DatePart) -> i64 {
    date_part_utc(&vec![Some(ms)], part)[0].unwrap()
}

fn parts(year: i32, month: u8, day: u8) -> DateTimeParts {
    DateTimeParts {
        year,
        month,
        day,
        weekday: 0,
        ordinal: 0,
        hour: 13,
        minute: 14,
        second: 15,
        millisecond: 16,
    }
}

#[test]
fn extract_functions_read_fields() {
    let p = parts(2012, 5, 17);
    assert_eq!(extract_year(&p), 2012);
    assert_eq!(extract_month(&p), 4);
    assert_eq!(extract_quarter(&p), 2);
    assert_eq!(extract_date(&p), 17);
    assert_eq!(extract_day(&p), 0);
    assert_eq!(extract_dayofyear(&p), 0);
    assert_eq!(extract_hour(&p), 13);
    assert_eq!(extract_minute(&p), 14);
    assert_eq!(extract_second(&p), 15);
    assert_eq!(extract_millisecond(&p), 16);
    assert_eq!(DatePart::Minutes.extract(&p), 14);
}

#[test]
fn quarter_boundaries() {
    assert_eq!(extract_quarter(&parts(2000, 1, 1)), 1);
    assert_eq!(extract_quarter(&parts(2000, 3, 1)), 1);
    assert_eq!(extract_quarter(&parts(2000, 4, 1)), 2);
    assert_eq!(extract_quarter(&parts(2000, 9, 1)), 3);
    assert_eq!(extract_quarter(&parts(2000, 10, 1)), 4);
    assert_eq!(extract_quarter(&parts(2000, 12, 1)), 4);
}

#[test]
fn epoch_is_thursday_first_of_january_1970() {
    assert_eq!(utc(0, DatePart::Year), 1970);
    assert_eq!(utc(0, DatePart::Month), 0);
    assert_eq!(utc(0, DatePart::Date), 1);
    assert_eq!(utc(0, DatePart::Day), 4);
    assert_eq!(utc(0, DatePart::DayOfYear), 1);
    assert_eq!(utc(0, DatePart::Hours), 0);
}

#[test]
fn new_year_2019() {
    let ms = 1_546_300_800_000;
    assert_eq!(utc(ms, DatePart::Year), 2019);
    assert_eq!(utc(ms, DatePart::Month), 0);
    assert_eq!(utc(ms, DatePart::Quarter), 1);
    assert_eq!(utc(ms, DatePart::Date), 1);
    assert_eq!(utc(ms, DatePart::Day), 2);
}

#[test]
fn leap_day_2012() {
    let ms = 1_330_518_896_789;
    assert_eq!(utc(ms, DatePart::Year), 2012);
    assert_eq!(utc(ms, DatePart::Month), 1);
    assert_eq!(utc(ms, DatePart::Date), 29);
    assert_eq!(utc(ms, DatePart::Day), 3);
    assert_eq!(utc(ms, DatePart::DayOfYear), 60);
    assert_eq!(utc(ms, DatePart::Hours), 12);
    assert_eq!(utc(ms, DatePart::Minutes), 34);
    assert_eq!(utc(ms, DatePart::Seconds), 56);
    // Timestamps are cut to whole seconds before the date-time is made.
    assert_eq!(utc(ms, DatePart::Milliseconds), 0);
}

#[test]
fn last_day_of_leap_year_2000() {
    let ms = 978_303_600_000;
    assert_eq!(utc(ms, DatePart::DayOfYear), 366);
    assert_eq!(utc(ms, DatePart::Month), 11);
    assert_eq!(utc(ms, DatePart::Quarter), 4);
    assert_eq!(utc(ms, DatePart::Hours), 23);
}

#[test]
fn negative_millis_cut_towards_zero() {
    // -1 ms is cut to 0 s: still 1970-01-01 00:00:00.
    assert_eq!(utc(-1, DatePart::Year), 1970);
    assert_eq!(utc(-999, DatePart::Hours), 0);
    // -1000 ms is one second before the epoch.
    assert_eq!(utc(-1000, DatePart::Year), 1969);
    assert_eq!(utc(-1000, DatePart::Month), 11);
    assert_eq!(utc(-1000, DatePart::Date), 31);
    assert_eq!(utc(-1000, DatePart::Day), 3);
    assert_eq!(utc(-1000, DatePart::Hours), 23);
    assert_eq!(utc(-1000, DatePart::Seconds), 59);
}

#[test]
fn supported_range_ends() {
    let min = MIN_UNIX_SECONDS * 1000;
    assert_eq!(utc(min, DatePart::Year), -9999);
    assert_eq!(utc(min, DatePart::Month), 0);
    assert_eq!(utc(min, DatePart::Date), 1);
    assert_eq!(utc(min, DatePart::Day), 1);
    let max = MAX_UNIX_SECONDS * 1000 + 999;
    assert_eq!(utc(max, DatePart::Year), 9999);
    assert_eq!(utc(max, DatePart::Month), 11);
    assert_eq!(utc(max, DatePart::Date), 31);
    assert_eq!(utc(max, DatePart::Hours), 23);
    assert_eq!(utc(max, DatePart::Minutes), 59);
    assert_eq!(utc(max, DatePart::Seconds), 59);
}

#[test]
fn nulls_stay_null() {
    let out = date_part_utc(&vec![None, Some(0), None], DatePart::Year);
    assert_eq!(out, vec![None, Some(1970), None]);
    let out = date_part_utc(&vec![], DatePart::Year);
    assert!(out.is_empty());
}

#[test]
fn offsets_shift_the_time() {
    let out = date_part_with_offsets(&vec![Some(0), Some(0), None], &vec![3600, -3600, 0], DatePart::Hours);
    assert_eq!(out, vec![Some(1), Some(23), None]);
    let out = date_part_with_offsets(&vec![Some(0)], &vec![-1], DatePart::Year);
    assert_eq!(out, vec![Some(1969)]);
}

#[test]
fn utc_equals_zero_offsets() {
    let millis = vec![Some(1_330_518_896_789), None, Some(-1000)];
    for part in [DatePart::Year, DatePart::Day, DatePart::Hours, DatePart::DayOfYear] {
        assert_eq!(date_part_utc(&millis, part), date_part_with_offsets(&millis, &vec![0, 0, 0], part));
    }
}

#[test]
fn weekday_advances_daily() {
    let mut ms: i64 = 1_325_376_000_000;
    let mut day = utc(ms, DatePart::Day);
    for _ in 0..10 {
        ms += 86_400_000;
        let next = utc(ms, DatePart::Day);
        assert_eq!(next, (day + 1) % 7);
        day = next;
    }
}

#[test]
fn days_column() {
    let column = DateColumn::Days(vec![Some(15340), None, Some(-1)]);
    assert_eq!(column.to_millis(), vec![Some(1_325_376_000_000), None, Some(-86_400_000)]);
    let out = date_part_column(&column, DatePart::Year, false);
    assert_eq!(out, Ok(vec![Some(2012), None, Some(1969)]));
    let out = date_part_column(&column, DatePart::DayOfYear, false);
    assert_eq!(out, Ok(vec![Some(1), None, Some(365)]));
}

#[test]
fn millis_column() {
    let column = DateColumn::Millis(vec![Some(0), None]);
    assert_eq!(date_part_column(&column, DatePart::Date, false), Ok(vec![Some(1), None]));
}

#[test]
fn local_parts_keep_shape() {
    let millis = vec![Some(1_330_518_896_789), None];
    match date_part_local(&millis, DatePart::Minutes) {
        Ok(out) => {
            assert_eq!(out.len(), 2);
            assert!(out[0].is_some());
            assert_eq!(out[1], None);
        }
        Err(e) => assert_eq!(e, DatePartError::LocalOffsetUnavailable),
    }
    assert_eq!(date_part_local(&vec![None, None], DatePart::Year), Ok(vec![None, None]));
}

#[test]
fn udf_names() {
    assert_eq!(DatePart::Year.udf_name(true), "year");
    assert_eq!(DatePart::Year.udf_name(false), "utcyear");
    assert_eq!(DatePart::DayOfYear.udf_name(true), "dayofyear");
    assert_eq!(DatePart::Milliseconds.udf_name(false), "utcmilliseconds");
    assert_eq!(DatePart::Hours.udf_name(false), "utchours");
}

#[test]
fn local_offsets_give_shifted_parts() {
    let millis = vec![Some(0), None, Some(1_330_518_896_789)];
    let out = date_part_from_local_offsets(&millis, &vec![-18_000, 0, 3600], DatePart::Hours);
    assert_eq!(out, Ok(vec![Some(19), None, Some(13)]));
    let out = date_part_from_local_offsets(&millis, &vec![0, 0, 0], DatePart::Day);
    assert_eq!(out, Ok(date_part_utc(&millis, DatePart::Day)));
}

#[test]
fn local_offsets_past_range_end_are_refused() {
    let max = MAX_UNIX_SECONDS * 1000;
    let out = date_part_from_local_offsets(&vec![Some(max)], &vec![1], DatePart::Year);
    assert_eq!(out, Err(DatePartError::LocalTimeOutOfRange));
    let out = date_part_from_local_offsets(&vec![Some(max)], &vec![-1], DatePart::Year);
    assert_eq!(out, Ok(vec![Some(9999)]));
    let min = MIN_UNIX_SECONDS * 1000;
    let out = date_part_from_local_offsets(&vec![None, Some(min)], &vec![5, -60], DatePart::Year);
    assert_eq!(out, Err(DatePartError::LocalTimeOutOfRange));
}

#[test]
fn sub_second_millis_are_dropped() {
    assert_eq!(utc(1500, DatePart::Milliseconds), 0);
    assert_eq!(utc(1500, DatePart::Seconds), 1);
}

#[test]
fn days_and_millis_columns_agree() {
    let days = DateColumn::Days(vec![Some(15340), None, Some(-719_162)]);
    let millis = DateColumn::Millis(vec![Some(15340 * 86_400_000), None, Some(-719_162 * 86_400_000)]);
    for part in [DatePart::Year, DatePart::Month, DatePart::Date, DatePart::Day] {
        assert_eq!(date_part_column(&days, part, false), date_part_column(&millis, part, false));
    }
    assert_eq!(date_part_column(&days, DatePart::Year, false), Ok(vec![Some(2012), None, Some(1)]));
}
