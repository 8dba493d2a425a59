use vstd::prelude::*;
use crate::lesson::{Lesson, LessonView, all_wf};
use crate::stamp::{Stamp, clock_text, end_minute, end_minute_of, push_clock, weekday, weekday_of};

verus! {

/// The span of days a schedule request asks for.
#[derive(Clone, Copy, Debug, PartialEq, Eq, Structural)]
pub enum Window {
    Today,
    Tomorrow,
    ThisWeek,
    NextWeek,
}

/// The first day of the window, counted from the day of `now`.
pub open spec fn window_start(now: Stamp, w: Window) -> int {
    match w {
        Window::Today => now.day as int,
        Window::Tomorrow => now.day + 1,
        Window::ThisWeek => now.day - weekday_of(now.day as int),
        Window::NextWeek => now.day + 7 - weekday_of(now.day as int),
    }
}

/// How many days the window covers.
pub open spec fn window_len(w: Window) -> int {
    match w {
        Window::Today | Window::Tomorrow => 1,
        Window::ThisWeek | Window::NextWeek => 7,
    }
}

/// The rendered line of a lesson: `HH:MM-HH:MM`, then the name in bold, then
/// the type and the location.
pub open spec fn line_text(l: LessonView) -> Seq<char> {
    clock_text(l.date.minute as int) + "-"@ + clock_text(
        end_minute_of(l.date.minute as int, l.duration as int),
    ) + "\n<b>"@ + l.name + "</b>\n"@ + l.lesson_type + " "@ + l.cabinet
}

/// The lines of the lessons held on `day`, in the timetable's order.
pub open spec fn day_lines(s: Seq<Lesson>, day: int) -> Seq<Seq<char>>
    decreases s.len(),
{
    if s.len() == 0 {
        Seq::empty()
    } else if s.last().date.day == day {
        day_lines(s.drop_last(), day).push(line_text(s.last()@))
    } else {
        day_lines(s.drop_last(), day)
    }
}

pub open spec fn texts(v: Seq<String>) -> Seq<Seq<char>> {
    v.map_values(|x: String| x@)
}

/// One day of a schedule answer: its day number and the lines of its lessons.
#[derive(Clone, Debug)]
pub struct DayReport {
    pub day: i32,
    pub lines: Vec<String>,
}

/// Renders one lesson as a schedule line.
pub fn lesson_line(l: &Lesson) -> (r: String)
    requires
        l.wf(),
    ensures
        r@ == line_text(l@),
{
    let mut s = String::new();
    push_clock(&mut s, l.date.minute);
    s.append("-");
    push_clock(&mut s, end_minute(l.date.minute, l.duration));
    s.append("\n<b>");
    s.append(l.name.as_str());
    s.append("</b>\n");
    s.append(l.lesson_type.as_str());
    s.append(" ");
    s.append(l.cabinet.as_str());
    s
}

/// The lines of the lessons held on `day`, in the timetable's order.
pub fn lines_for_day(lessons: &Vec<Lesson>, day: i32) -> (r: Vec<String>)
    requires
        all_wf(lessons@),
    ensures
        texts(r@) == day_lines(lessons@, day as int),
{
    let mut out: Vec<String> = Vec::new();
    let mut i: usize = 0;
    while i < lessons.len()
        invariant
            i <= lessons@.len(),
            all_wf(lessons@),
            texts(out@) == day_lines(lessons@.subrange(0, i as int), day as int),
        decreases lessons@.len() - i,
    {
        let ghost pre = lessons@.subrange(0, i as int);
        assert(lessons@.subrange(0, i + 1).drop_last() == pre);
        assert(lessons@.subrange(0, i + 1).last() == lessons@[i as int]);
        if lessons[i].date.day == day {
            let line = lesson_line(&lessons[i]);
            let ghost before = out@;
            out.push(line);
            assert(texts(out@) =~= texts(before).push(line@));
        }
        i = i + 1;
    }
    assert(lessons@.subrange(0, lessons@.len() as int) == lessons@);
    out
}

/// The first day of the window and how many days it covers.
pub fn window_bounds(now: Stamp, w: Window) -> (r: (i32, u32))
    requires
        now.wf(),
    ensures
        r.0 == window_start(now, w),
        r.1 == window_len(w),
{
    let wd = weekday(now.day) as i32;
    match w {
        Window::Today => (now.day, 1),
        Window::Tomorrow => (now.day + 1, 1),
        Window::ThisWeek => (now.day - wd, 7),
        Window::NextWeek => (now.day + 7 - wd, 7),
    }
}

/// One report per day of the window, in order, each with every lesson held
/// that day; a day without lessons still has its report.
pub fn query(lessons: &Vec<Lesson>, now: Stamp, w: Window) -> (r: Vec<DayReport>)
    requires
        now.wf(),
        all_wf(lessons@),
    ensures
        r@.len() == window_len(w),
        forall|k: int| 0 <= k < r@.len() ==> (#[trigger] r@[k]).day == window_start(now, w) + k,
        forall|k: int|
            0 <= k < r@.len() ==> texts((#[trigger] r@[k]).lines@) == day_lines(
                lessons@,
                r@[k].day as int,
            ),
{
    let (start, len) = window_bounds(now, w);
    let mut out: Vec<DayReport> = Vec::new();
    let mut k: u32 = 0;
    while k < len
        invariant
            k <= len,
            len == window_len(w),
            start == window_start(now, w),
            now.wf(),
            all_wf(lessons@),
            out@.len() == k,
            forall|j: int| 0 <= j < k ==> (#[trigger] out@[j]).day == start + j,
            forall|j: int|
                0 <= j < k ==> texts((#[trigger] out@[j]).lines@) == day_lines(
                    lessons@,
                    out@[j].day as int,
                ),
        decreases len - k,
    {
        let day = start + k as i32;
        out.push(DayReport { day, lines: lines_for_day(lessons, day) });
        k = k + 1;
    }
    out
}

pub open spec fn join_lines(s: Seq<Seq<char>>) -> Seq<char>
    decreases s.len(),
{
    if s.len() == 0 {
        Seq::empty()
    } else if s.len() == 1 {
        s[0]
    } else {
        join_lines(s.drop_last()) + "\n------\n\n"@ + s.last()
    }
}

/// What a day's report says below its header.
pub open spec fn body_text(lines: Seq<Seq<char>>) -> Seq<char> {
    if lines.len() == 0 {
        "No classes"@
    } else {
        join_lines(lines)
    }
}

impl DayReport {
    /// The lessons' lines separated by rules, or a note that there are none.
    pub fn body(&self) -> (r: String)
        ensures
            r@ == body_text(texts(self.lines@)),
    {
        if self.lines.len() == 0 {
            return String::from_str("No classes");
        }
        let mut s = self.lines[0].clone();
        let mut i: usize = 1;
        while i < self.lines.len()
            invariant
                1 <= i <= self.lines@.len(),
                s@ == join_lines(texts(self.lines@.subrange(0, i as int))),
            decreases self.lines@.len() - i,
        {
            let ghost pre = texts(self.lines@.subrange(0, i + 1));
            assert(pre.drop_last() =~= texts(self.lines@.subrange(0, i as int)));
            s.append("\n------\n\n");
            s.append(self.lines[i].as_str());
            i = i + 1;
        }
        assert(self.lines@.subrange(0, i as int) == self.lines@);
        s
    }
}

/// The week windows start on Mondays, this week's holds `now`, and the next
/// week's starts where this week's ends.
pub proof fn lemma_weeks_adjacent(now: Stamp)
    ensures
        weekday_of(window_start(now, Window::ThisWeek)) == 0,
        weekday_of(window_start(now, Window::NextWeek)) == 0,
        weekday_of(now.day as int) == 2 ==> window_start(now, Window::ThisWeek) == now.day - 2,
        window_start(now, Window::ThisWeek) <= now.day < window_start(now, Window::ThisWeek)
            + window_len(Window::ThisWeek),
        window_start(now, Window::NextWeek) == window_start(now, Window::ThisWeek) + window_len(
            Window::ThisWeek,
        ),
{
    let d = now.day as int;
    assert(0 <= (d - 1) % 7 < 7);
    assert(((d - (d - 1) % 7) - 1) % 7 == 0) by {
        vstd::arithmetic::div_mod::lemma_fundamental_div_mod(d - 1, 7);
        vstd::arithmetic::div_mod::lemma_mod_multiples_basic((d - 1) / 7, 7);
    }
    assert(((d + 7 - (d - 1) % 7) - 1) % 7 == 0) by {
        vstd::arithmetic::div_mod::lemma_fundamental_div_mod(d - 1, 7);
        vstd::arithmetic::div_mod::lemma_mod_multiples_basic((d - 1) / 7 + 1, 7);
    }
}

} // verus!
