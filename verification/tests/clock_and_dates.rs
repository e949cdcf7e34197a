use time_tracker::clock::{format_duration, push_clock, ClockTime, Duration, END_OF_DAY_NANOS};
use time_tracker::date::{iso_date, long_date, parse_weekday, resolve_date, Date, ResolveError};
use time_tracker::text::{contains, find_char, int_text, trim};

const MINUTE: i128 = 60_000_000_000;

fn minutes(m: i128) -> Duration {
    Duration { nanos: m * MINUTE }
}

fn at(h: u64, m: u64) -> ClockTime {
    ClockTime { nanos: (h * 3600 + m * 60) * 1_000_000_000 }
}

fn date(year: i32, month: u32, day: u32) -> Date {
    Date { year, month, day }
}

#[test]
fn duration_of_ninety_minutes_reads_one_hour_thirty() {
    assert_eq!(format_duration(minutes(90)), "1h 30m");
}

#[test]
fn short_durations_pad_the_minutes() {
    assert_eq!(format_duration(minutes(5)), "0h 05m");
    assert_eq!(format_duration(minutes(0)), "0h 00m");
    assert_eq!(format_duration(minutes(125)), "2h 05m");
    assert_eq!(format_duration(minutes(600)), "10h 00m");
}

#[test]
fn partial_minutes_are_dropped() {
    assert_eq!(format_duration(Duration { nanos: 59_999_999_999 }), "0h 00m");
    assert_eq!(format_duration(Duration { nanos: 61 * 1_000_000_000 }), "0h 01m");
}

#[test]
fn negative_durations_round_toward_zero() {
    assert_eq!(format_duration(minutes(-90)), "-1h -30m");
    assert_eq!(format_duration(minutes(-5)), "0h -5m");
    assert_eq!(format_duration(minutes(-60)), "-1h 00m");
    assert_eq!(format_duration(Duration { nanos: -59_000_000_000 }), "0h 00m");
}

#[test]
fn duration_minutes_and_seconds_truncate() {
    assert_eq!(Duration { nanos: -61_000_000_000 }.num_minutes(), -1);
    assert_eq!(Duration { nanos: -1_500_000_000 }.num_seconds(), -1);
    assert_eq!(Duration { nanos: 119_000_000_000 }.num_minutes(), 1);
    assert_eq!(Duration::zero().num_seconds(), 0);
}

#[test]
fn clock_times_subtract_to_signed_durations() {
    assert_eq!(at(10, 30).since(at(9, 0)).nanos, 90 * MINUTE);
    assert_eq!(at(9, 0).since(at(10, 30)).nanos, -90 * MINUTE);
    assert_eq!(ClockTime::end_of_day().nanos, END_OF_DAY_NANOS);
}

#[test]
fn clock_text_is_two_digit_hours_and_minutes() {
    let mut s = String::from("at ");
    push_clock(&mut s, at(9, 5));
    assert_eq!(s, "at 09:05");
    let mut e = String::new();
    push_clock(&mut e, ClockTime::end_of_day());
    assert_eq!(e, "23:59");
}

fn on(day: &str, week: Option<u32>, year: Option<i32>, today: Date) -> Result<Date, ResolveError> {
    resolve_date(Some(day.to_string()), week, year, today)
}

#[test]
fn weekdays_are_named_from_the_date() {
    assert_eq!(long_date(date(2024, 1, 1)), "Monday, 2024-01-01");
    assert_eq!(long_date(date(2024, 1, 7)), "Sunday, 2024-01-07");
    assert_eq!(long_date(date(2000, 2, 29)), "Tuesday, 2000-02-29");
    assert_eq!(long_date(date(1970, 1, 1)), "Thursday, 1970-01-01");
}

#[test]
fn the_default_week_is_the_iso_week_of_today() {
    assert_eq!(on("mon", None, None, date(2024, 3, 5)).unwrap(), date(2024, 3, 4));
    // 2024-12-30 lies in week 1 (of 2024's ISO year 2025), and the year
    // defaults to the calendar year
    assert_eq!(on("mon", None, None, date(2024, 12, 30)).unwrap(), date(2024, 1, 1));
    // 2021-01-03 lies in week 53, which 2021 does not have
    match on("sun", None, None, date(2021, 1, 3)) {
        Err(ResolveError::InvalidDate { year, week, .. }) => {
            assert_eq!(year, 2021);
            assert_eq!(week, 53);
        }
        other => panic!("unexpected {:?}", other),
    }
}

#[test]
fn iso_week_dates_resolve_or_not() {
    let today = date(2024, 3, 5);
    assert_eq!(on("fri", Some(53), Some(2020), today).unwrap(), date(2021, 1, 1));
    assert_eq!(on("mon", Some(1), Some(2024), today).unwrap(), date(2024, 1, 1));
    assert!(on("mon", Some(53), Some(2021), today).is_err());
    assert!(on("mon", Some(0), Some(2024), today).is_err());
}

#[test]
fn dates_are_written_iso_and_long() {
    assert_eq!(iso_date(date(2024, 3, 5)), "2024-03-05");
    assert_eq!(long_date(date(2024, 3, 5)), "Tuesday, 2024-03-05");
    assert_eq!(long_date(date(2024, 1, 14)), "Sunday, 2024-01-14");
}

#[test]
fn date_validity_follows_the_calendar() {
    assert!(date(2024, 2, 29).is_valid());
    assert!(!date(2023, 2, 29).is_valid());
    assert!(!date(2024, 4, 31).is_valid());
    assert!(!date(2024, 13, 1).is_valid());
    assert!(!date(2024, 1, 0).is_valid());
    assert!(date(1900, 2, 28).is_valid());
    assert!(!date(1900, 2, 29).is_valid());
}

#[test]
fn weekday_names_in_english_and_german_any_case() {
    assert_eq!(parse_weekday("Monday"), Some(0));
    assert_eq!(parse_weekday("tue"), Some(1));
    assert_eq!(parse_weekday("MITTWOCH"), Some(2));
    assert_eq!(parse_weekday("do"), Some(3));
    assert_eq!(parse_weekday("Fr"), Some(4));
    assert_eq!(parse_weekday("samstag"), Some(5));
    assert_eq!(parse_weekday("SUN"), Some(6));
    assert_eq!(parse_weekday("funday"), None);
    assert_eq!(parse_weekday(""), None);
    assert_eq!(parse_weekday("mön"), None);
}

#[test]
fn status_day_defaults_to_today() {
    let today = date(2024, 3, 5);
    assert_eq!(resolve_date(None, None, None, today).unwrap(), today);
}

#[test]
fn status_day_is_a_weekday_of_the_current_week_by_default() {
    let today = date(2024, 3, 5);
    assert_eq!(resolve_date(Some("friday".to_string()), None, None, today).unwrap(), date(2024, 3, 8));
    assert_eq!(resolve_date(Some("mo".to_string()), None, None, today).unwrap(), date(2024, 3, 4));
}

#[test]
fn status_day_in_a_given_week_and_year() {
    let today = date(2024, 3, 5);
    assert_eq!(resolve_date(Some("mon".to_string()), Some(1), Some(2023), today).unwrap(), date(2023, 1, 2));
    assert_eq!(resolve_date(Some("sun".to_string()), Some(52), None, today).unwrap(), date(2024, 12, 29));
}

#[test]
fn status_day_with_unknown_name_is_refused() {
    let today = date(2024, 3, 5);
    match resolve_date(Some("someday".to_string()), None, None, today) {
        Err(ResolveError::UnknownWeekday { day }) => assert_eq!(day, "someday"),
        other => panic!("unexpected {:?}", other),
    }
}

#[test]
fn status_day_outside_the_week_calendar_is_refused() {
    let today = date(2024, 3, 5);
    match resolve_date(Some("monday".to_string()), Some(54), Some(2024), today) {
        Err(ResolveError::InvalidDate { year, week, day }) => {
            assert_eq!(year, 2024);
            assert_eq!(week, 54);
            assert_eq!(day, "monday");
        }
        other => panic!("unexpected {:?}", other),
    }
}

#[test]
fn numbers_and_texts() {
    assert_eq!(int_text(-42), "-42");
    assert_eq!(int_text(0), "0");
    assert_eq!(int_text(i128::MIN), i128::MIN.to_string());
    assert_eq!(trim("  a b \t\n"), "a b");
    assert_eq!(trim("\u{3000}x\u{85}"), "x");
    assert_eq!(find_char("ab:cd:e", ':'), Some(2));
    assert_eq!(find_char("abc", ':'), None);
    assert!(contains("x = 1\n[tasks]\n", "[tasks]"));
    assert!(!contains("[task]", "[tasks]"));
    assert!(contains("abc", ""));
}

#[test]
fn the_extreme_years_of_i32_hold_no_week_dates() {
    let today = date(2024, 3, 5);
    for y in [i32::MIN, i32::MAX] {
        match on("mon", Some(1), Some(y), today) {
            Err(ResolveError::InvalidDate { year, week, day }) => {
                assert_eq!(year, y);
                assert_eq!(week, 1);
                assert_eq!(day, "mon");
            }
            other => panic!("unexpected {:?}", other),
        }
    }
}
