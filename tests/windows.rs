use chrono::{Datelike, NaiveDate};
use lesson_schedule::lesson::Lesson;
use lesson_schedule::query::{lesson_line, query, window_bounds, DayReport, Window};
use lesson_schedule::stamp::{weekday, Stamp};

fn day(y: i32, m: u32, d: u32) -> i32 {
    NaiveDate::from_ymd_opt(y, m, d).unwrap().num_days_from_ce()
}

fn lesson(name: &str, d: i32, minute: u32, cabinet: &str) -> Lesson {
    Lesson {
        name: name.to_string(),
        lesson_type: "Seminar".to_string(),
        duration: 80,
        cabinet: cabinet.to_string(),
        date: Stamp { day: d, minute },
    }
}

#[test]
fn window_lengths_and_successive_days() {
    let now = Stamp { day: day(2025, 3, 5), minute: 720 };
    for (w, n) in [(Window::Today, 1), (Window::Tomorrow, 1), (Window::ThisWeek, 7), (Window::NextWeek, 7)] {
        let r = query(&vec![], now, w);
        assert_eq!(r.len(), n);
        for k in 1..r.len() {
            assert_eq!(r[k].day, r[k - 1].day + 1);
        }
    }
    assert_eq!(query(&vec![], now, Window::Tomorrow)[0].day, day(2025, 3, 6));
}

#[test]
fn weeks_from_wednesday() {
    let now = Stamp { day: day(2025, 3, 5), minute: 720 };
    assert_eq!(weekday(now.day), 2);
    let this = window_bounds(now, Window::ThisWeek);
    let next = window_bounds(now, Window::NextWeek);
    assert_eq!(this, (day(2025, 3, 3), 7));
    assert_eq!(next, (day(2025, 3, 10), 7));
    assert_eq!(this.0 + this.1 as i32, next.0);
}

#[test]
fn week_on_sunday_and_monday() {
    let sunday = Stamp { day: day(2025, 3, 9), minute: 0 };
    assert_eq!(window_bounds(sunday, Window::ThisWeek).0, day(2025, 3, 3));
    let monday = Stamp { day: day(2025, 3, 3), minute: 0 };
    assert_eq!(window_bounds(monday, Window::ThisWeek).0, day(2025, 3, 3));
    assert_eq!(window_bounds(monday, Window::NextWeek).0, day(2025, 3, 10));
}

#[test]
fn reports_group_by_day_in_store_order() {
    let wed = day(2025, 3, 5);
    let store = vec![
        lesson("Late", wed, 14 * 60, "B"),
        lesson("Other", wed + 1, 600, "C"),
        lesson("Early", wed, 9 * 60, ""),
    ];
    let r = query(&store, Stamp { day: wed, minute: 0 }, Window::ThisWeek);
    assert_eq!(r[2].day, wed);
    assert_eq!(
        r[2].lines,
        vec![
            "14:00-15:20\n<b>Late</b>\nSeminar B".to_string(),
            "09:00-10:20\n<b>Early</b>\nSeminar ".to_string()
        ]
    );
    assert_eq!(r[3].lines.len(), 1);
    assert_eq!(r[0].body(), "No classes");
    assert_eq!(
        r[2].body(),
        "14:00-15:20\n<b>Late</b>\nSeminar B\n------\n\n09:00-10:20\n<b>Early</b>\nSeminar "
    );
}

#[test]
fn line_crosses_midnight() {
    let l = lesson("Night", day(2025, 3, 5), 23 * 60 + 30, "X");
    assert_eq!(lesson_line(&l), "23:30-00:50\n<b>Night</b>\nSeminar X");
}

#[test]
fn single_line_body() {
    let r = DayReport { day: 1, lines: vec!["a".to_string()] };
    assert_eq!(r.body(), "a");
}
