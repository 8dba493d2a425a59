use chrono::{Datelike, NaiveDate};
use lesson_schedule::stamp::{deserialize, end_minute, parse_input_text, parse_stamp_text, serialize, weekday, Stamp, FIRST_DAY, LAST_DAY};

fn day(y: i32, m: u32, d: u32) -> i32 {
    NaiveDate::from_ymd_opt(y, m, d).unwrap().num_days_from_ce()
}

#[test]
fn day_range_is_four_digit_years() {
    assert_eq!(FIRST_DAY, day(0, 1, 1));
    assert_eq!(LAST_DAY, day(9999, 12, 31));
}

#[test]
fn serialize_writes_stored_pattern() {
    let s = Stamp { day: day(2025, 3, 1), minute: 10 * 60 };
    assert_eq!(serialize(&s), "01-03-2025 10:00");
    let t = Stamp { day: day(1999, 12, 31), minute: 23 * 60 + 59 };
    assert_eq!(serialize(&t), "31-12-1999 23:59");
}

#[test]
fn deserialize_reads_stored_pattern() {
    assert_eq!(deserialize("19-02-2025 10:25"), Some(Stamp { day: day(2025, 2, 19), minute: 625 }));
    assert_eq!(deserialize("19.02.2025 10:25"), None);
    assert_eq!(deserialize("30-02-2025 10:25"), None);
    assert_eq!(deserialize("19-02-2025 24:00"), None);
    assert_eq!(deserialize("19-02-2025 10:60"), None);
    assert_eq!(deserialize("not-a-date"), None);
    assert_eq!(deserialize(""), None);
}

#[test]
fn stamp_round_trip() {
    for (y, m, d, minute) in [(2025, 3, 1, 600), (0, 1, 1, 0), (9999, 12, 31, 1439), (2024, 2, 29, 61)] {
        let s = Stamp { day: day(y, m, d), minute };
        assert_eq!(deserialize(&serialize(&s)), Some(s));
    }
}

#[test]
fn dotted_input_is_read() {
    assert_eq!(
        parse_stamp_text("01.03.2025 10:00", '.'),
        Some(Stamp { day: day(2025, 3, 1), minute: 600 })
    );
    assert_eq!(parse_stamp_text("01-03-2025 10:00", '.'), None);
}

#[test]
fn weekday_matches_calendar() {
    for (y, m, d) in [(2025, 3, 1), (2025, 3, 5), (1, 1, 1), (2024, 12, 30), (0, 1, 1)] {
        let date = NaiveDate::from_ymd_opt(y, m, d).unwrap();
        assert_eq!(weekday(date.num_days_from_ce()), date.weekday().num_days_from_monday());
    }
    assert_eq!(weekday(day(2025, 3, 5)), 2);
}

#[test]
fn end_minute_wraps_around_the_day() {
    assert_eq!(end_minute(600, 90), 690);
    assert_eq!(end_minute(1380, 120), 60);
    assert_eq!(end_minute(30, -60), 1410);
    assert_eq!(end_minute(0, i64::MIN), ((i64::MIN as i128).rem_euclid(1440)) as u32);
}

#[test]
fn typed_time_accepts_one_or_two_digits() {
    let want = Some(Stamp { day: day(2025, 3, 1), minute: 9 * 60 + 5 });
    assert_eq!(parse_input_text("1.3.2025 9:05"), want);
    assert_eq!(parse_input_text("01.03.2025 09:05"), want);
    assert_eq!(parse_input_text("01.03.2025 9:5"), want);
    assert_eq!(parse_input_text("001.03.2025 09:05"), None);
    assert_eq!(parse_input_text("1.3.25 9:05"), None);
    assert_eq!(parse_input_text("1.3.2025 9:05 "), None);
    assert_eq!(parse_input_text("31.4.2025 9:05"), None);
    assert_eq!(parse_input_text("not-a-date"), None);
}
