use vstd::prelude::*;
use crate::lesson::{Lesson, LessonView};
use crate::stamp::{Stamp, digit_value, is_digit, parse_input, parse_input_text};
use crate::utils::{preview_text, state_message, state_text};

verus! {

/// A white-space character: the Unicode `White_Space` property.
pub open spec fn is_white(c: char) -> bool {
    let u = c as u32;
    (9 <= u <= 13) || u == 32 || u == 0x85 || u == 0xA0 || u == 0x1680 || (0x2000 <= u <= 0x200A)
        || u == 0x2028 || u == 0x2029 || u == 0x202F || u == 0x205F || u == 0x3000
}

/// The first index at or after `i` that holds no white space (or the end).
pub open spec fn front(s: Seq<char>, i: int) -> int
    decreases s.len() - i,
{
    if 0 <= i < s.len() && is_white(s[i]) {
        front(s, i + 1)
    } else {
        i
    }
}

/// The end of `s[lo..j]` once trailing white space is dropped.
pub open spec fn back(s: Seq<char>, lo: int, j: int) -> int
    decreases j - lo,
{
    if lo < j && is_white(s[j - 1]) {
        back(s, lo, j - 1)
    } else {
        j
    }
}

/// The text with its leading and trailing white space removed.
pub open spec fn trimmed(s: Seq<char>) -> Seq<char> {
    s.subrange(front(s, 0), back(s, front(s, 0), s.len() as int))
}

fn white(c: char) -> (r: bool)
    ensures
        r == is_white(c),
{
    let u = c as u32;
    (9 <= u && u <= 13) || u == 32 || u == 0x85 || u == 0xA0 || u == 0x1680 || (0x2000 <= u && u
        <= 0x200A) || u == 0x2028 || u == 0x2029 || u == 0x202F || u == 0x205F || u == 0x3000
}

/// Drops leading and trailing white space.
pub fn trim_text(s: &str) -> (r: &str)
    ensures
        r@ == trimmed(s@),
{
    let len = s.unicode_len();
    let mut a: usize = 0;
    while a < len && white(s.get_char(a))
        invariant
            a <= len == s@.len(),
            front(s@, a as int) == front(s@, 0),
        decreases len - a,
    {
        a = a + 1;
    }
    let mut b: usize = len;
    while b > a && white(s.get_char(b - 1))
        invariant
            a <= b <= len == s@.len(),
            a == front(s@, 0),
            back(s@, a as int, b as int) == back(s@, a as int, len as int),
        decreases b,
    {
        b = b - 1;
    }
    s.substring_char(a, b)
}

/// The value of a run of decimal digits.
pub open spec fn digits_value(s: Seq<char>) -> int
    decreases s.len(),
{
    if s.len() == 0 {
        0
    } else {
        digits_value(s.drop_last()) * 10 + digit_value(s.last())
    }
}

pub open spec fn all_digits(s: Seq<char>) -> bool {
    forall|i: int| 0 <= i < s.len() ==> #[trigger] is_digit(s[i])
}

/// The integer an optional `+` or `-` followed by decimal digits spells.
pub open spec fn int_of(s: Seq<char>) -> Option<int> {
    if s.len() > 0 && (s[0] == '-' || s[0] == '+') {
        let d = s.subrange(1, s.len() as int);
        if d.len() > 0 && all_digits(d) {
            Some(
                if s[0] == '-' {
                    -digits_value(d)
                } else {
                    digits_value(d)
                },
            )
        } else {
            None
        }
    } else if s.len() > 0 && all_digits(s) {
        Some(digits_value(s))
    } else {
        None
    }
}

/// The signed 64-bit number a text spells, if it spells one in range.
pub open spec fn i64_of(s: Seq<char>) -> Option<i64> {
    match int_of(s) {
        Some(v) => if i64::MIN <= v <= i64::MAX {
            Some(v as i64)
        } else {
            None
        },
        None => None,
    }
}

proof fn lemma_digits_value_nonneg(s: Seq<char>)
    requires
        all_digits(s),
    ensures
        digits_value(s) >= 0,
    decreases s.len(),
{
    if s.len() > 0 {
        assert(all_digits(s.drop_last()));
        assert(is_digit(s[s.len() - 1]));
        lemma_digits_value_nonneg(s.drop_last());
    }
}

/// Reads a signed 64-bit decimal number: an optional sign, then digits.
pub fn parse_i64(s: &str) -> (r: Option<i64>)
    ensures
        r == i64_of(s@),
{
    let len = s.unicode_len();
    if len == 0 {
        return None;
    }
    let first = s.get_char(0);
    let neg = first == '-';
    let st: usize = if first == '-' || first == '+' {
        1
    } else {
        0
    };
    if st == len {
        return None;
    }
    let ghost d = s@.subrange(st as int, len as int);
    let bound: i128 = 0x8000_0000_0000_0000;
    let mut acc: i128 = 0;
    let mut big = false;
    let mut k: usize = st;
    while k < len
        invariant
            st <= k <= len == s@.len(),
            d == s@.subrange(st as int, len as int),
            all_digits(s@.subrange(st as int, k as int)),
            !big ==> acc == digits_value(s@.subrange(st as int, k as int)) && 0 <= acc <= bound,
            big ==> digits_value(s@.subrange(st as int, k as int)) > bound,
            bound == 0x8000_0000_0000_0000,
            s@.len() > 0,
            st == (if s@[0] == '-' || s@[0] == '+' {
                1usize
            } else {
                0usize
            }),
            neg == (s@[0] == '-'),
        decreases len - k,
    {
        let ghost pre = s@.subrange(st as int, k as int);
        let ghost next = s@.subrange(st as int, k + 1);
        assert(next.drop_last() == pre);
        assert(next.last() == s@[k as int]);
        let v = match digit_at_pos(s, k) {
            Some(v) => v,
            None => {
                assert(!all_digits(d)) by {
                    assert(d[k - st] == s@[k as int]);
                }
                if st == 0 {
                    assert(d =~= s@);
                    assert(!(s@[0] == '-' || s@[0] == '+'));
                    assert(!all_digits(s@));
                } else {
                    assert(s@[0] == '-' || s@[0] == '+');
                    assert(d.len() > 0);
                }
                assert(int_of(s@) is None);
                return None;
            },
        };
        assert(all_digits(next)) by {
            assert forall|i: int| 0 <= i < next.len() implies #[trigger] is_digit(next[i]) by {
                if i < pre.len() {
                    assert(next[i] == pre[i]);
                }
            }
        }
        proof {
            lemma_digits_value_nonneg(pre);
        }
        if !big {
            acc = acc * 10 + v as i128;
            if acc > bound {
                big = true;
            }
        }
        k = k + 1;
    }
    assert(s@.subrange(st as int, len as int) == d);
    if st == 0 {
        assert(d == s@);
    }
    if big {
        return None;
    }
    if neg {
        Some((-acc) as i64)
    } else if acc < bound {
        Some(acc as i64)
    } else {
        None
    }
}

fn digit_at_pos(t: &str, i: usize) -> (r: Option<u32>)
    requires
        i < t@.len(),
    ensures
        r == (if crate::stamp::is_digit(t@[i as int]) {
            Some(digit_value(t@[i as int]) as u32)
        } else {
            None::<u32>
        }),
{
    let v = t.get_char(i) as u32;
    if 48 <= v && v <= 57 {
        Some(v - 48)
    } else {
        None
    }
}

/// Whether a finished dialogue adds its lesson or deletes it.
#[derive(Clone, Copy, Debug, PartialEq, Eq, Structural)]
pub enum Intent {
    Add,
    Delete,
}

/// Where one conversation stands: idle, or collecting the five fields of a
/// lesson to add or to delete. The fields are filled in the order name, time,
/// duration, type, location.
#[derive(Clone, Debug)]
pub enum State {
    Default,
    AddLesson {
        name: Option<String>,
        time: Option<Stamp>,
        duration: Option<i64>,
        lesson_type: Option<String>,
        cabinet: Option<String>,
    },
    DeleteLesson {
        name: Option<String>,
        time: Option<Stamp>,
        duration: Option<i64>,
        lesson_type: Option<String>,
        cabinet: Option<String>,
    },
}

pub struct SlotsView {
    pub name: Option<Seq<char>>,
    pub time: Option<Stamp>,
    pub duration: Option<i64>,
    pub lesson_type: Option<Seq<char>>,
    pub cabinet: Option<Seq<char>>,
}

pub enum StateView {
    Idle,
    Collecting(Intent, SlotsView),
}

pub open spec fn opt_view(o: Option<String>) -> Option<Seq<char>> {
    match o {
        Some(s) => Some(s@),
        None => None,
    }
}

pub open spec fn slots_view(
    name: Option<String>,
    time: Option<Stamp>,
    duration: Option<i64>,
    lesson_type: Option<String>,
    cabinet: Option<String>,
) -> SlotsView {
    SlotsView {
        name: opt_view(name),
        time,
        duration,
        lesson_type: opt_view(lesson_type),
        cabinet: opt_view(cabinet),
    }
}

impl View for State {
    type V = StateView;

    open spec fn view(&self) -> StateView {
        match *self {
            State::Default => StateView::Idle,
            State::AddLesson { name, time, duration, lesson_type, cabinet } => StateView::Collecting(
                Intent::Add,
                slots_view(name, time, duration, lesson_type, cabinet),
            ),
            State::DeleteLesson { name, time, duration, lesson_type, cabinet } =>
                StateView::Collecting(
                Intent::Delete,
                slots_view(name, time, duration, lesson_type, cabinet),
            ),
        }
    }
}

impl State {
    /// A collected instant is a valid one.
    pub open spec fn wf(&self) -> bool {
        match self@ {
            StateView::Idle => true,
            StateView::Collecting(_, v) => (v.time matches Some(t) ==> t.wf()) && in_order(v),
        }
    }
}

impl Default for State {
    fn default() -> (r: State)
        ensures
            r@ == StateView::Idle,
    {
        State::Default
    }
}

/// The fields set so far are a prefix of name, time, duration, type, location.
pub open spec fn in_order(v: SlotsView) -> bool {
    &&& v.time is Some ==> v.name is Some
    &&& v.duration is Some ==> v.time is Some
    &&& v.lesson_type is Some ==> v.duration is Some
    &&& v.cabinet is Some ==> v.lesson_type is Some
}

pub open spec fn empty_slots() -> SlotsView {
    SlotsView { name: None, time: None, duration: None, lesson_type: None, cabinet: None }
}

pub open spec fn complete(v: SlotsView) -> bool {
    v.name is Some && v.time is Some && v.duration is Some && v.lesson_type is Some
        && v.cabinet is Some
}

/// The slots after one text message, or `None` when the message is rejected
/// for the slot it is meant to fill.
pub open spec fn fill(v: SlotsView, t: Seq<char>) -> Option<SlotsView> {
    if v.name is None {
        if t.len() == 0 {
            None
        } else {
            Some(SlotsView { name: Some(t), ..v })
        }
    } else if v.time is None {
        match parse_input(trimmed(t)) {
            Some(s) => Some(SlotsView { time: Some(s), ..v }),
            None => None,
        }
    } else if v.duration is None {
        match i64_of(trimmed(t)) {
            Some(d) => Some(SlotsView { duration: Some(d), ..v }),
            None => None,
        }
    } else if v.lesson_type is None {
        Some(SlotsView { lesson_type: Some(t), ..v })
    } else if v.cabinet is None {
        Some(SlotsView { cabinet: Some(t), ..v })
    } else {
        Some(v)
    }
}

/// The lesson that complete slots describe.
pub open spec fn lesson_of(v: SlotsView) -> LessonView {
    LessonView {
        name: v.name.unwrap(),
        lesson_type: v.lesson_type.unwrap(),
        duration: v.duration.unwrap(),
        cabinet: v.cabinet.unwrap(),
        date: v.time.unwrap(),
    }
}


/// What a step hands to the timetable: nothing, or a lesson to add or delete.
#[derive(Clone, Debug)]
pub enum Action {
    Nothing,
    Add(Lesson),
    Delete(Lesson),
}

pub open spec fn action_view(a: Action) -> Option<(Intent, LessonView)> {
    match a {
        Action::Nothing => None,
        Action::Add(l) => Some((Intent::Add, l@)),
        Action::Delete(l) => Some((Intent::Delete, l@)),
    }
}

/// The outcome of one event: the next state, what to do to the timetable,
/// and the message for the user.
#[derive(Clone, Debug)]
pub struct Reply {
    pub state: State,
    pub action: Action,
    pub message: String,
}

/// The prompt for the first field still missing from incomplete slots.
pub open spec fn prompt_after(v: SlotsView) -> Seq<char> {
    if v.name is None {
        "Enter the subject:"@
    } else if v.time is None {
        "Enter the time as <b>19.02.2025 10:25</b>."@
    } else if v.duration is None {
        "Enter the duration in minutes, e.g. <b>80</b>."@
    } else if v.lesson_type is None {
        "Enter the type of the class (lecture/seminar/etc)."@
    } else {
        "Enter the location:"@
    }
}

/// Why a message was not taken for the field it was meant to fill.
pub open spec fn reject_text(v: SlotsView) -> Seq<char> {
    if v.name is None {
        "The subject must not be empty. Enter the subject:"@
    } else if v.time is None {
        "Wrong date format. Enter the time as <b>19.02.2025 10:25</b>."@
    } else {
        "Wrong duration. Enter the duration in minutes, e.g. <b>80</b>."@
    }
}

pub open spec fn done_text(i: Intent) -> Seq<char> {
    match i {
        Intent::Add => "Lesson added."@,
        Intent::Delete => "Lesson deleted."@,
    }
}

/// The state after a message (`None`: a message without text).
pub open spec fn next_state(s: StateView, text: Option<Seq<char>>) -> StateView {
    match s {
        StateView::Idle => StateView::Idle,
        StateView::Collecting(i, v) => match text {
            None => s,
            Some(t) => match fill(v, t) {
                None => s,
                Some(w) => if complete(w) {
                    StateView::Idle
                } else {
                    StateView::Collecting(i, w)
                },
            },
        },
    }
}

/// The timetable change a message triggers: the completed lesson, once the
/// last field is filled.
pub open spec fn next_action(s: StateView, text: Option<Seq<char>>) -> Option<(Intent, LessonView)> {
    match s {
        StateView::Collecting(i, v) => match text {
            Some(t) => match fill(v, t) {
                Some(w) => if complete(w) {
                    Some((i, lesson_of(w)))
                } else {
                    None
                },
                None => None,
            },
            None => None,
        },
        StateView::Idle => None,
    }
}

/// The message answering an event.
pub open spec fn next_message(s: StateView, text: Option<Seq<char>>, now: Stamp) -> Seq<char> {
    match s {
        StateView::Idle => "Something went wrong, please try again."@,
        StateView::Collecting(i, v) => match text {
            None => "The message has no text."@,
            Some(t) => match fill(v, t) {
                None => reject_text(v),
                Some(w) => preview_text(w, now) + "\n\n"@ + if complete(w) {
                    done_text(i)
                } else {
                    prompt_after(w)
                },
            },
        },
    }
}

fn clone_opt(o: &Option<String>) -> (r: Option<String>)
    ensures
        opt_view(r) == opt_view(*o),
{
    match o {
        Some(x) => Some(x.clone()),
        None => None,
    }
}

fn make_state(
    i: Intent,
    name: Option<String>,
    time: Option<Stamp>,
    duration: Option<i64>,
    lesson_type: Option<String>,
    cabinet: Option<String>,
) -> (r: State)
    ensures
        r@ == StateView::Collecting(i, slots_view(name, time, duration, lesson_type, cabinet)),
{
    match i {
        Intent::Add => State::AddLesson { name, time, duration, lesson_type, cabinet },
        Intent::Delete => State::DeleteLesson { name, time, duration, lesson_type, cabinet },
    }
}

/// Starts a dialogue that collects a lesson to add or delete, discarding any
/// fields collected before.
pub fn begin(i: Intent) -> (r: Reply)
    ensures
        r.state@ == StateView::Collecting(i, empty_slots()),
        action_view(r.action) is None,
        r.message@ == prompt_after(empty_slots()),
{
    let state = make_state(i, None, None, None, None, None);
    Reply { state, action: Action::Nothing, message: String::from_str("Enter the subject:") }
}

/// Drops whatever was being collected.
pub fn cancel() -> (r: Reply)
    ensures
        r.state@ == StateView::Idle,
        action_view(r.action) is None,
        r.message@ == "The command was cancelled."@,
{
    Reply {
        state: State::Default,
        action: Action::Nothing,
        message: String::from_str("The command was cancelled."),
    }
}

/// Takes one message of a dialogue (`None`: a message without text): it
/// fills the next missing field, or is rejected and changes nothing; once the
/// last field is filled the lesson is handed out to be added or deleted and
/// the conversation goes back to idle.
pub fn step(state: State, text: Option<&str>, now: Stamp) -> (r: Reply)
    requires
        state.wf(),
        now.wf(),
    ensures
        r.state.wf(),
        r.state@ == next_state(state@, opt_str(text)),
        action_view(r.action) == next_action(state@, opt_str(text)),
        r.message@ == next_message(state@, opt_str(text), now),
        r.action matches Action::Add(l) ==> l.wf(),
        r.action matches Action::Delete(l) ==> l.wf(),
{
    let ghost s0 = state@;
    let (i, mut name, mut time, mut duration, mut lesson_type, mut cabinet) = match state {
        State::AddLesson { name, time, duration, lesson_type, cabinet } => (
            Intent::Add,
            name,
            time,
            duration,
            lesson_type,
            cabinet,
        ),
        State::DeleteLesson { name, time, duration, lesson_type, cabinet } => (
            Intent::Delete,
            name,
            time,
            duration,
            lesson_type,
            cabinet,
        ),
        State::Default => {
            return Reply {
                state: State::Default,
                action: Action::Nothing,
                message: String::from_str("Something went wrong, please try again."),
            };
        },
    };
    let ghost v = slots_view(name, time, duration, lesson_type, cabinet);
    let t = match text {
        Some(t) => t,
        None => {
            return Reply {
                state: make_state(i, name, time, duration, lesson_type, cabinet),
                action: Action::Nothing,
                message: String::from_str("The message has no text."),
            };
        },
    };
    if name.is_none() {
        if t.unicode_len() == 0 {
            return Reply {
                state: make_state(i, name, time, duration, lesson_type, cabinet),
                action: Action::Nothing,
                message: String::from_str("The subject must not be empty. Enter the subject:"),
            };
        }
        name = Some(String::from_str(t));
    } else if time.is_none() {
        match parse_input_text(trim_text(t)) {
            Some(x) => {
                time = Some(x);
            },
            None => {
                return Reply {
                    state: make_state(i, name, time, duration, lesson_type, cabinet),
                    action: Action::Nothing,
                    message: String::from_str(
                        "Wrong date format. Enter the time as <b>19.02.2025 10:25</b>.",
                    ),
                };
            },
        }
    } else if duration.is_none() {
        match parse_i64(trim_text(t)) {
            Some(x) => {
                duration = Some(x);
            },
            None => {
                return Reply {
                    state: make_state(i, name, time, duration, lesson_type, cabinet),
                    action: Action::Nothing,
                    message: String::from_str(
                        "Wrong duration. Enter the duration in minutes, e.g. <b>80</b>.",
                    ),
                };
            },
        }
    } else if lesson_type.is_none() {
        lesson_type = Some(String::from_str(t));
    } else if cabinet.is_none() {
        cabinet = Some(String::from_str(t));
    }
    let ghost w = slots_view(name, time, duration, lesson_type, cabinet);
    assert(fill(v, t@) == Some(w));
    let shown = make_state(
        i,
        clone_opt(&name),
        time,
        duration,
        clone_opt(&lesson_type),
        clone_opt(&cabinet),
    );
    let mut message = state_message(shown, now);
    message.append("\n\n");
    match (name, time, duration, lesson_type, cabinet) {
        (Some(a), Some(b), Some(c), Some(d), Some(e)) => {
            let lesson = Lesson { name: a, lesson_type: d, duration: c, cabinet: e, date: b };
            let action = match i {
                Intent::Add => {
                    message.append("Lesson added.");
                    Action::Add(lesson)
                },
                Intent::Delete => {
                    message.append("Lesson deleted.");
                    Action::Delete(lesson)
                },
            };
            Reply { state: State::Default, action, message }
        },
        (name, time, duration, lesson_type, cabinet) => {
            if name.is_none() {
                message.append("Enter the subject:");
            } else if time.is_none() {
                message.append("Enter the time as <b>19.02.2025 10:25</b>.");
            } else if duration.is_none() {
                message.append("Enter the duration in minutes, e.g. <b>80</b>.");
            } else if lesson_type.is_none() {
                message.append("Enter the type of the class (lecture/seminar/etc).");
            } else {
                message.append("Enter the location:");
            }
            Reply {
                state: make_state(i, name, time, duration, lesson_type, cabinet),
                action: Action::Nothing,
                message,
            }
        },
    }
}

pub open spec fn opt_str(o: Option<&str>) -> Option<Seq<char>> {
    match o {
        Some(s) => Some(s@),
        None => None,
    }
}

/// A time that does not read is rejected: the dialogue stays on the time
/// field, with everything collected before, which the preview still shows.
pub proof fn lemma_bad_time_keeps_state(i: Intent, v: SlotsView, t: Seq<char>, now: Stamp)
    requires
        v.name is Some,
        v.time is None,
        parse_input(trimmed(t)) is None,
    ensures
        next_state(StateView::Collecting(i, v), Some(t)) == StateView::Collecting(i, v),
        next_action(StateView::Collecting(i, v), Some(t)) is None,
        next_message(StateView::Collecting(i, v), Some(t), now) == reject_text(v),
        state_text(next_state(StateView::Collecting(i, v), Some(t)), now) == preview_text(v, now),
{
}

/// A dialogue begun afresh carries nothing over: its first message only sets
/// the name.
pub proof fn lemma_fresh_start(i: Intent, t: Seq<char>)
    requires
        t.len() > 0,
    ensures
        next_state(StateView::Collecting(i, empty_slots()), Some(t)) == StateView::Collecting(
            i,
            SlotsView { name: Some(t), time: None, duration: None, lesson_type: None, cabinet: None },
        ),
        next_action(StateView::Collecting(i, empty_slots()), Some(t)) is None,
{
}

} // verus!
