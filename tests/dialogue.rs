use chrono::{Datelike, NaiveDate};
use lesson_schedule::lesson::{add, Lesson};
use lesson_schedule::query::{query, Window};
use lesson_schedule::stamp::Stamp;
use lesson_schedule::state::{begin, cancel, step, Action, Intent, State};
use lesson_schedule::utils::state_message;

fn day(y: i32, m: u32, d: u32) -> i32 {
    NaiveDate::from_ymd_opt(y, m, d).unwrap().num_days_from_ce()
}

fn now() -> Stamp {
    Stamp { day: day(2025, 3, 5), minute: 8 * 60 }
}

#[test]
fn idle_preview_is_empty() {
    assert_eq!(state_message(State::Default, now()), "");
}

#[test]
fn preview_uses_placeholders() {
    assert_eq!(
        state_message(begin(Intent::Add).state, now()),
        "08:00-09:20\n<b>Subject</b>\nType Room"
    );
}

#[test]
fn bad_time_keeps_step_and_name() {
    let r = step(begin(Intent::Add).state, Some("Algorithms"), now());
    let r = step(r.state, Some("not-a-date"), now());
    assert!(matches!(r.action, Action::Nothing));
    assert_eq!(r.message, "Wrong date format. Enter the time as <b>19.02.2025 10:25</b>.");
    assert!(state_message(r.state.clone(), now()).contains("<b>Algorithms</b>"));
    let r = step(r.state, Some("01.03.2025 10:00"), now());
    assert!(r.message.starts_with("10:00-11:20\n<b>Algorithms</b>"));
}

#[test]
fn bad_duration_and_empty_name_are_rejected() {
    let r = step(begin(Intent::Add).state, Some(""), now());
    assert_eq!(r.message, "The subject must not be empty. Enter the subject:");
    let r = step(r.state, Some("X"), now());
    let r = step(r.state, Some(" 01.03.2025 10:00 "), now());
    let r = step(r.state, Some("ninety"), now());
    assert_eq!(r.message, "Wrong duration. Enter the duration in minutes, e.g. <b>80</b>.");
    let r = step(r.state, None, now());
    assert_eq!(r.message, "The message has no text.");
    let r = step(r.state, Some(" 45 "), now());
    assert!(r.message.starts_with("10:00-10:45\n"));
}

#[test]
fn cancel_then_add_starts_empty() {
    let r = step(begin(Intent::Delete).state, Some("Algorithms"), now());
    assert!(matches!(r.state, State::DeleteLesson { name: Some(_), .. }));
    let c = cancel();
    assert!(matches!(c.state, State::Default));
    assert_eq!(c.message, "The command was cancelled.");
    let b = begin(Intent::Add);
    assert_eq!(b.message, "Enter the subject:");
    assert!(matches!(
        b.state,
        State::AddLesson { name: None, time: None, duration: None, lesson_type: None, cabinet: None }
    ));
}

#[test]
fn step_on_idle_changes_nothing() {
    let r = step(State::Default, Some("hello"), now());
    assert!(matches!(r.state, State::Default));
    assert!(matches!(r.action, Action::Nothing));
}

#[test]
fn add_dialogue_end_to_end() {
    let mut store: Vec<Lesson> = Vec::new();
    let r = begin(Intent::Add);
    assert_eq!(r.message, "Enter the subject:");
    let r = step(r.state, Some("Algorithms"), now());
    assert!(r.message.ends_with("Enter the time as <b>19.02.2025 10:25</b>."));
    let r = step(r.state, Some("01.03.2025 10:00"), now());
    assert!(r.message.ends_with("Enter the duration in minutes, e.g. <b>80</b>."));
    let r = step(r.state, Some("90"), now());
    assert!(r.message.ends_with("Enter the type of the class (lecture/seminar/etc)."));
    let r = step(r.state, Some("Lecture"), now());
    assert!(r.message.ends_with("Enter the location:"));
    let r = step(r.state, Some("Room 204"), now());
    assert_eq!(
        r.message,
        "10:00-11:30\n<b>Algorithms</b>\nLecture Room 204\n\nLesson added."
    );
    assert!(matches!(r.state, State::Default));
    let expected = Lesson {
        name: "Algorithms".to_string(),
        lesson_type: "Lecture".to_string(),
        duration: 90,
        cabinet: "Room 204".to_string(),
        date: Stamp { day: day(2025, 3, 1), minute: 600 },
    };
    match r.action {
        Action::Add(l) => {
            assert_eq!(l, expected);
            add(&mut store, l);
        }
        _ => panic!("expected a lesson to add"),
    }
    assert_eq!(store, vec![expected]);
    let reports = query(&store, Stamp { day: day(2025, 3, 1), minute: 9 * 60 }, Window::Today);
    assert_eq!(reports.len(), 1);
    assert_eq!(reports[0].lines, vec!["10:00-11:30\n<b>Algorithms</b>\nLecture Room 204".to_string()]);
}

#[test]
fn delete_dialogue_hands_out_delete() {
    let mut r = begin(Intent::Delete);
    for t in ["A", "01.03.2025 10:00", "90", "Lecture", ""] {
        r = step(r.state, Some(t), now());
    }
    assert!(r.message.ends_with("Lesson deleted."));
    match r.action {
        Action::Delete(l) => assert_eq!(l.cabinet, ""),
        _ => panic!("expected a lesson to delete"),
    }
}

#[test]
fn short_fields_in_typed_time() {
    let r = step(begin(Intent::Add).state, Some("Algorithms"), now());
    let r = step(r.state, Some("1.3.2025 9:05"), now());
    assert!(r.message.starts_with("09:05-10:25\n<b>Algorithms</b>"));
    assert!(matches!(r.state, State::AddLesson { time: Some(t), .. } if t == Stamp { day: day(2025, 3, 1), minute: 545 }));
    let r = step(r.state, Some("+90"), now());
    assert!(r.message.starts_with("09:05-10:35\n"));
}

#[test]
fn negative_and_overlong_durations() {
    let mut r = begin(Intent::Add);
    for t in ["A", "01.03.2025 10:00"] {
        r = step(r.state, Some(t), now());
    }
    let bad = step(r.state.clone(), Some("99999999999999999999"), now());
    assert_eq!(bad.message, "Wrong duration. Enter the duration in minutes, e.g. <b>80</b>.");
    let bad = step(r.state.clone(), Some("-"), now());
    assert!(matches!(bad.state, State::AddLesson { duration: None, .. }));
    let ok = step(r.state, Some("-30"), now());
    assert!(matches!(ok.state, State::AddLesson { duration: Some(-30), .. }));
}
