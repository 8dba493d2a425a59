use vstd::prelude::*;
use crate::lesson::{Lesson, LessonView};
use crate::query::{lesson_line, line_text};
use crate::stamp::Stamp;
use crate::state::{SlotsView, State, StateView};

verus! {

/// Duration shown for a lesson whose duration is not known yet.
pub const DEFAULT_DURATION: i64 = 80;

pub open spec fn or_text(o: Option<Seq<char>>, dflt: Seq<char>) -> Seq<char> {
    match o {
        Some(s) => s,
        None => dflt,
    }
}

/// The lesson that partly collected fields show: each unknown field takes
/// its placeholder, and an unknown time is `now`.
pub open spec fn shown_lesson(v: SlotsView, now: Stamp) -> LessonView {
    LessonView {
        name: or_text(v.name, "Subject"@),
        lesson_type: or_text(v.lesson_type, "Type"@),
        duration: match v.duration {
            Some(x) => x,
            None => DEFAULT_DURATION,
        },
        cabinet: or_text(v.cabinet, "Room"@),
        date: match v.time {
            Some(x) => x,
            None => now,
        },
    }
}

/// The preview of partly collected fields: the schedule line of the lesson
/// they show.
pub open spec fn preview_text(v: SlotsView, now: Stamp) -> Seq<char> {
    line_text(shown_lesson(v, now))
}

/// The preview of a conversation's state; empty when it is idle.
pub open spec fn state_text(s: StateView, now: Stamp) -> Seq<char> {
    match s {
        StateView::Idle => Seq::empty(),
        StateView::Collecting(_, v) => preview_text(v, now),
    }
}

fn or_string(o: Option<String>, dflt: &str) -> (r: String)
    ensures
        r@ == or_text(crate::state::opt_view(o), dflt@),
{
    match o {
        Some(x) => x,
        None => String::from_str(dflt),
    }
}

/// Renders the fields collected so far in the very format of a schedule
/// line, placeholders standing for the missing ones.
pub fn state_message(state: State, now: Stamp) -> (r: String)
    requires
        state.wf(),
        now.wf(),
    ensures
        r@ == state_text(state@, now),
{
    let (name, time, duration, lesson_type, cabinet) = match state {
        State::AddLesson { name, time, duration, lesson_type, cabinet } => (
            name,
            time,
            duration,
            lesson_type,
            cabinet,
        ),
        State::DeleteLesson { name, time, duration, lesson_type, cabinet } => (
            name,
            time,
            duration,
            lesson_type,
            cabinet,
        ),
        State::Default => {
            return String::new();
        },
    };
    let shown = Lesson {
        name: or_string(name, "Subject"),
        lesson_type: or_string(lesson_type, "Type"),
        duration: match duration {
            Some(x) => x,
            None => DEFAULT_DURATION,
        },
        cabinet: or_string(cabinet, "Room"),
        date: match time {
            Some(x) => x,
            None => now,
        },
    };
    lesson_line(&shown)
}

} // verus!
