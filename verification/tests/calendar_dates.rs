use crust_ls::calendar::{civil_time, push_civil_time, push_time, CivilTime};

fn text_at(seconds: i64) -> String {
    let mut out = String::new();
    push_time(&mut out, seconds);
    out
}

#[test]
fn the_epoch_is_the_first_second_of_1970() {
    let t = civil_time(0);
    assert_eq!(t, CivilTime { year: 1970, month: 1, day: 1, hour: 0, minute: 0, second: 0 });
    assert_eq!(text_at(0), "1970-01-01T00:00:00Z");
}

#[test]
fn a_known_recent_time() {
    assert_eq!(text_at(1700000000), "2023-11-14T22:13:20Z");
    assert_eq!(text_at(1000000000), "2001-09-09T01:46:40Z");
}

#[test]
fn times_before_the_epoch() {
    assert_eq!(text_at(-1), "1969-12-31T23:59:59Z");
    assert_eq!(text_at(-86400), "1969-12-31T00:00:00Z");
    assert_eq!(text_at(-86401), "1969-12-30T23:59:59Z");
    assert_eq!(text_at(-2208988800), "1900-01-01T00:00:00Z");
}

#[test]
fn leap_days() {
    assert_eq!(text_at(951782400), "2000-02-29T00:00:00Z");
    assert_eq!(text_at(951868800), "2000-03-01T00:00:00Z");
    assert_eq!(text_at(68169600), "1972-02-29T00:00:00Z");
    assert_eq!(text_at(4107456000), "2100-02-28T00:00:00Z");
    assert_eq!(text_at(4107542400), "2100-03-01T00:00:00Z");
}

#[test]
fn ends_of_months_and_years() {
    assert_eq!(text_at(2678399), "1970-01-31T23:59:59Z");
    assert_eq!(text_at(2678400), "1970-02-01T00:00:00Z");
    assert_eq!(text_at(31535999), "1970-12-31T23:59:59Z");
    assert_eq!(text_at(31536000), "1971-01-01T00:00:00Z");
    assert_eq!(text_at(2147483647), "2038-01-19T03:14:07Z");
}

#[test]
fn years_with_fewer_or_more_than_four_digits() {
    assert_eq!(text_at(-62135596800), "0001-01-01T00:00:00Z");
    assert_eq!(text_at(-62167219200), "0000-01-01T00:00:00Z");
    assert_eq!(text_at(-62167219201), "-0001-12-31T23:59:59Z");
    assert_eq!(text_at(253402300800), "10000-01-01T00:00:00Z");
}

#[test]
fn the_ends_of_the_range() {
    assert_eq!(text_at(i64::MAX), "292277026596-12-04T15:30:07Z");
    assert_eq!(text_at(i64::MIN), "-292277022657-01-27T08:29:52Z");
}

#[test]
fn day_numbers_run_through_the_calendar_without_gaps() {
    let month_lengths = [31, 28, 31, 30, 31, 30, 31, 31, 30, 31, 30, 31];
    let mut year: i64 = 1600;
    let mut month: u8 = 1;
    let mut day: u8 = 1;
    let mut seconds: i64 = -11676096000;
    while year < 2401 {
        let t = civil_time(seconds + 43200);
        assert_eq!(t, CivilTime { year, month, day, hour: 12, minute: 0, second: 0 });
        let leap = year % 4 == 0 && (year % 100 != 0 || year % 400 == 0);
        let mut length = month_lengths[(month - 1) as usize];
        if month == 2 && leap {
            length = 29;
        }
        if day < length {
            day += 1;
        } else {
            day = 1;
            if month < 12 {
                month += 1;
            } else {
                month = 1;
                year += 1;
            }
        }
        seconds += 86400;
    }
}

#[test]
fn a_date_and_time_as_text() {
    let mut out = String::from("at ");
    let t = CivilTime { year: 1999, month: 12, day: 31, hour: 23, minute: 59, second: 59 };
    push_civil_time(&mut out, t);
    assert_eq!(out, "at 1999-12-31T23:59:59Z");
}
