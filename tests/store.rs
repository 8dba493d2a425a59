use chrono::{Datelike, NaiveDate};
use lesson_schedule::lesson::{add, delete, from_record, load, to_records, Lesson, Record, StoreError};
use lesson_schedule::stamp::Stamp;

fn day(y: i32, m: u32, d: u32) -> i32 {
    NaiveDate::from_ymd_opt(y, m, d).unwrap().num_days_from_ce()
}

fn lesson(name: &str, cabinet: &str) -> Lesson {
    Lesson {
        name: name.to_string(),
        lesson_type: "Lecture".to_string(),
        duration: 90,
        cabinet: cabinet.to_string(),
        date: Stamp { day: day(2025, 3, 1), minute: 600 },
    }
}

fn record(date: &str) -> Record {
    Record {
        name: "Algorithms".to_string(),
        lesson_type: "Lecture".to_string(),
        duration: 90,
        cabinet: "Room 204".to_string(),
        date: date.to_string(),
    }
}

#[test]
fn add_appends_duplicates() {
    let mut v = Vec::new();
    add(&mut v, lesson("A", "1"));
    add(&mut v, lesson("A", "1"));
    assert_eq!(v.len(), 2);
    assert_eq!(v[1], lesson("A", "1"));
}

#[test]
fn delete_removes_every_copy() {
    let mut v = vec![lesson("A", "1"), lesson("B", "2"), lesson("A", "1")];
    delete(&mut v, &lesson("A", "1"));
    assert_eq!(v, vec![lesson("B", "2")]);
}

#[test]
fn delete_absent_changes_nothing() {
    let mut v = vec![lesson("A", "1"), lesson("B", "2")];
    delete(&mut v, &lesson("A", "2"));
    assert_eq!(v, vec![lesson("A", "1"), lesson("B", "2")]);
}

#[test]
fn load_reads_records() {
    let v = load(&vec![record("01-03-2025 10:00")]).unwrap();
    assert_eq!(v, vec![lesson("Algorithms", "Room 204")]);
    assert_eq!(load(&vec![]).unwrap().len(), 0);
}

#[test]
fn load_rejects_corrupt_record() {
    let r = load(&vec![record("01-03-2025 10:00"), record("2025-03-01T10:00")]);
    assert_eq!(r.unwrap_err(), StoreError::CorruptStore);
}

#[test]
fn record_round_trip() {
    let l = lesson("Algorithms", "");
    let recs = to_records(&vec![l.clone()]);
    assert_eq!(recs[0].date, "01-03-2025 10:00");
    assert_eq!(recs[0].cabinet, "");
    assert_eq!(from_record(&recs[0]), Some(l));
}
