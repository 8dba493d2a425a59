use vstd::prelude::*;
use chrono::{Datelike, NaiveDate};

verus! {

/// Day number of 0000-01-01, in chrono's numbering where 0001-01-01 is day 1.
pub const FIRST_DAY: i32 = -365;

/// Day number of 9999-12-31, in chrono's numbering where 0001-01-01 is day 1.
pub const LAST_DAY: i32 = 3652059;

/// An instant with minute precision, in the one implicit zone of the timetable:
/// a day number (0001-01-01 is day 1) and the minute of that day.
#[derive(Clone, Copy, Debug, PartialEq, Eq, Structural)]
pub struct Stamp {
    pub day: i32,
    pub minute: u32,
}

impl Stamp {
    /// A four-digit year and a minute inside its day.
    pub open spec fn wf(self) -> bool {
        FIRST_DAY <= self.day <= LAST_DAY && self.minute < 1440
    }
}

/// The day number of a calendar date, when the date exists.
pub uninterp spec fn ce_day_of(year: i32, month: u32, day: u32) -> Option<i32>;

/// The calendar date (year, month, day) of a day number.
pub uninterp spec fn civil_of(day: i32) -> (i32, u32, u32);

/// Relies on chrono's `NaiveDate::from_ymd_opt` (`None` for a date that does not
/// exist) and `Datelike::num_days_from_ce` (0001-01-01 is day 1).
#[verifier::external_body]
fn day_number(year: i32, month: u32, day: u32) -> (r: Option<i32>)
    ensures
        r == ce_day_of(year, month, day),
{
    match NaiveDate::from_ymd_opt(year, month, day) {
        Some(d) => Some(d.num_days_from_ce()),
        None => None,
    }
}

/// Relies on chrono's `NaiveDate::from_num_days_from_ce_opt`, which inverts
/// `num_days_from_ce` and covers every day of the years 0 to 9999.
#[verifier::external_body]
fn calendar_date(day: i32) -> (r: (i32, u32, u32))
    requires
        FIRST_DAY <= day <= LAST_DAY,
    ensures
        r == civil_of(day),
        0 <= r.0 <= 9999,
        1 <= r.1 <= 12,
        1 <= r.2 <= 31,
        ce_day_of(r.0, r.1, r.2) == Some(day),
{
    let d = NaiveDate::from_num_days_from_ce_opt(day).unwrap();
    (d.year(), d.month(), d.day())
}

/// What a call of `calendar_date` on a day makes known of its date.
pub open spec fn civil_known(day: i32) -> bool {
    let (y, m, d) = civil_of(day);
    &&& 0 <= y <= 9999
    &&& 1 <= m <= 12
    &&& 1 <= d <= 31
    &&& ce_day_of(y, m, d) == Some(day)
}

/// Monday is 0, Sunday 6 (0001-01-01 was a Monday).
pub open spec fn weekday_of(day: int) -> int {
    (day - 1) % 7
}

/// The weekday of a day number, Monday being 0.
pub fn weekday(day: i32) -> (r: u32)
    ensures
        r as int == weekday_of(day as int),
        r < 7,
{
    let shifted: i64 = day as i64 - 1;
    let m: i64 = shifted % 7;
    if m < 0 {
        (m + 7) as u32
    } else {
        m as u32
    }
}

pub open spec fn digit_char(d: int) -> char {
    if d == 0 {
        '0'
    } else if d == 1 {
        '1'
    } else if d == 2 {
        '2'
    } else if d == 3 {
        '3'
    } else if d == 4 {
        '4'
    } else if d == 5 {
        '5'
    } else if d == 6 {
        '6'
    } else if d == 7 {
        '7'
    } else if d == 8 {
        '8'
    } else {
        '9'
    }
}

pub open spec fn is_digit(c: char) -> bool {
    48 <= c as u32 <= 57
}

pub open spec fn digit_value(c: char) -> int {
    c as u32 - 48
}

proof fn lemma_digit(d: int)
    requires
        0 <= d < 10,
    ensures
        is_digit(digit_char(d)),
        digit_value(digit_char(d)) == d,
{
}


pub open spec fn two_digits(n: int) -> Seq<char> {
    seq![digit_char(n / 10), digit_char(n % 10)]
}

pub open spec fn four_digits(n: int) -> Seq<char> {
    seq![digit_char(n / 1000), digit_char((n / 100) % 10), digit_char((n / 10) % 10), digit_char(n % 10)]
}

/// `HH:MM` for a minute of the day.
pub open spec fn clock_text(minute: int) -> Seq<char> {
    two_digits(minute / 60) + seq![':'] + two_digits(minute % 60)
}

/// `dd<sep>mm<sep>yyyy` for a day number.
pub open spec fn date_text(day: i32, sep: char) -> Seq<char> {
    two_digits(civil_of(day).2 as int) + seq![sep] + two_digits(civil_of(day).1 as int) + seq![sep]
        + four_digits(civil_of(day).0 as int)
}

/// `dd<sep>mm<sep>yyyy HH:MM`.
pub open spec fn stamp_text(s: Stamp, sep: char) -> Seq<char> {
    date_text(s.day, sep) + seq![' '] + clock_text(s.minute as int)
}

pub open spec fn num2(t: Seq<char>, i: int) -> int {
    digit_value(t[i]) * 10 + digit_value(t[i + 1])
}

pub open spec fn num4(t: Seq<char>, i: int) -> int {
    num2(t, i) * 100 + num2(t, i + 2)
}

/// Sixteen characters shaped as `dd<sep>mm<sep>yyyy HH:MM`.
pub open spec fn stamp_shape(t: Seq<char>, sep: char) -> bool {
    &&& t.len() == 16
    &&& t[2] == sep && t[5] == sep && t[10] == ' ' && t[13] == ':'
    &&& is_digit(t[0]) && is_digit(t[1]) && is_digit(t[3]) && is_digit(t[4])
    &&& is_digit(t[6]) && is_digit(t[7]) && is_digit(t[8]) && is_digit(t[9])
    &&& is_digit(t[11]) && is_digit(t[12]) && is_digit(t[14]) && is_digit(t[15])
}

/// What `dd<sep>mm<sep>yyyy HH:MM` denotes, when it is well shaped, names an
/// existing date of a four-digit year and a time of day.
pub open spec fn parse_stamp(t: Seq<char>, sep: char) -> Option<Stamp> {
    if !stamp_shape(t, sep) {
        None
    } else {
        let hour = num2(t, 11);
        let minute = num2(t, 14);
        if hour < 24 && minute < 60 {
            match ce_day_of(num4(t, 6) as i32, num2(t, 3) as u32, num2(t, 0) as u32) {
                Some(n) => if FIRST_DAY <= n <= LAST_DAY {
                    Some(Stamp { day: n, minute: (hour * 60 + minute) as u32 })
                } else {
                    None
                },
                None => None,
            }
        } else {
            None
        }
    }
}

fn push_digit(s: &mut String, d: u32)
    requires
        d < 10,
    ensures
        final(s)@ == old(s)@.push(digit_char(d as int)),
{
    proof {
        reveal_strlit("0");
        reveal_strlit("1");
        reveal_strlit("2");
        reveal_strlit("3");
        reveal_strlit("4");
        reveal_strlit("5");
        reveal_strlit("6");
        reveal_strlit("7");
        reveal_strlit("8");
        reveal_strlit("9");
    }
    if d == 0 {
        s.append("0");
    } else if d == 1 {
        s.append("1");
    } else if d == 2 {
        s.append("2");
    } else if d == 3 {
        s.append("3");
    } else if d == 4 {
        s.append("4");
    } else if d == 5 {
        s.append("5");
    } else if d == 6 {
        s.append("6");
    } else if d == 7 {
        s.append("7");
    } else if d == 8 {
        s.append("8");
    } else {
        s.append("9");
    }
}

fn push_two(s: &mut String, n: u32)
    requires
        n < 100,
    ensures
        final(s)@ == old(s)@ + two_digits(n as int),
{
    push_digit(s, n / 10);
    push_digit(s, n % 10);
}

fn push_four(s: &mut String, n: u32)
    requires
        n < 10000,
    ensures
        final(s)@ == old(s)@ + four_digits(n as int),
{
    push_digit(s, n / 1000);
    push_digit(s, (n / 100) % 10);
    push_digit(s, (n / 10) % 10);
    push_digit(s, n % 10);
}

/// Appends `HH:MM` for a minute of the day.
pub fn push_clock(s: &mut String, minute: u32)
    requires
        minute < 1440,
    ensures
        final(s)@ == old(s)@ + clock_text(minute as int),
{
    push_two(s, minute / 60);
    proof {
        reveal_strlit(":");
    }
    s.append(":");
    push_two(s, minute % 60);
}

/// Appends `dd<sep>mm<sep>yyyy` for a day number.
pub fn push_date(s: &mut String, day: i32, sep: &str)
    requires
        FIRST_DAY <= day <= LAST_DAY,
        sep@.len() == 1,
    ensures
        final(s)@ == old(s)@ + date_text(day, sep@[0]),
        civil_known(day),
{
    let (y, m, d) = calendar_date(day);
    push_two(s, d);
    s.append(sep);
    push_two(s, m);
    s.append(sep);
    push_four(s, y as u32);
    assert(sep@ == seq![sep@[0]]);
}


fn digit_at(t: &str, i: usize) -> (r: Option<u32>)
    requires
        i < t@.len(),
    ensures
        r == (if is_digit(t@[i as int]) {
            Some(digit_value(t@[i as int]) as u32)
        } else {
            None::<u32>
        }),
{
    let c = t.get_char(i);
    let v = c as u32;
    if 48 <= v && v <= 57 {
        Some(v - 48)
    } else {
        None
    }
}

fn num_at(t: &str, i: usize) -> (r: Option<u32>)
    requires
        i < 15,
        i + 1 < t@.len(),
    ensures
        r == (if is_digit(t@[i as int]) && is_digit(t@[i + 1]) {
            Some(num2(t@, i as int) as u32)
        } else {
            None::<u32>
        }),
{
    match (digit_at(t, i), digit_at(t, i + 1)) {
        (Some(a), Some(b)) => Some(a * 10 + b),
        _ => None,
    }
}

/// Reads `dd<sep>mm<sep>yyyy HH:MM`.
pub fn parse_stamp_text(t: &str, sep: char) -> (r: Option<Stamp>)
    ensures
        r == parse_stamp(t@, sep),
        r matches Some(s) ==> s.wf(),
{
    if t.unicode_len() != 16 {
        return None;
    }
    if t.get_char(2) != sep || t.get_char(5) != sep || t.get_char(10) != ' ' || t.get_char(13)
        != ':' {
        return None;
    }
    let (day, month, y_hi, y_lo, hour, minute) = match (
        num_at(t, 0),
        num_at(t, 3),
        num_at(t, 6),
        num_at(t, 8),
        num_at(t, 11),
        num_at(t, 14),
    ) {
        (Some(a), Some(b), Some(c), Some(d), Some(e), Some(f)) => (a, b, c, d, e, f),
        _ => {
            return None;
        },
    };
    assert(stamp_shape(t@, sep));
    if hour >= 24 || minute >= 60 {
        return None;
    }
    let year = y_hi * 100 + y_lo;
    assert(year == num4(t@, 6));
    match day_number(year as i32, month, day) {
        Some(n) => if FIRST_DAY <= n && n <= LAST_DAY {
            Some(Stamp { day: n, minute: hour * 60 + minute })
        } else {
            None
        },
        None => None,
    }
}

proof fn lemma_two_digits(n: int)
    requires
        0 <= n < 100,
    ensures
        is_digit(two_digits(n)[0]) && is_digit(two_digits(n)[1]),
        num2(two_digits(n), 0) == n,
{
    lemma_digit(n / 10);
    lemma_digit(n % 10);
}

proof fn lemma_four_digits(n: int)
    requires
        0 <= n < 10000,
    ensures
        is_digit(four_digits(n)[0]) && is_digit(four_digits(n)[1]),
        is_digit(four_digits(n)[2]) && is_digit(four_digits(n)[3]),
        num4(four_digits(n), 0) == n,
{
    lemma_digit(n / 1000);
    lemma_digit((n / 100) % 10);
    lemma_digit((n / 10) % 10);
    lemma_digit(n % 10);
    assert(n / 1000 * 10 + (n / 100) % 10 == n / 100);
    assert((n / 10) % 10 * 10 + n % 10 == n % 100);
}

/// Reading back the text of an instant gives that instant.
proof fn lemma_stamp_text_parses(s: Stamp, sep: char)
    requires
        s.wf(),
        civil_known(s.day),
        is_digit(sep) == false,
        sep != ' ',
        sep != ':',
    ensures
        parse_stamp(stamp_text(s, sep), sep) == Some(s),
{
    let (y, m, d) = civil_of(s.day);
    let t = stamp_text(s, sep);
    lemma_two_digits(d as int);
    lemma_two_digits(m as int);
    lemma_four_digits(y as int);
    lemma_two_digits(s.minute as int / 60);
    lemma_two_digits(s.minute as int % 60);
    let a = two_digits(d as int);
    let b = two_digits(m as int);
    let c = four_digits(y as int);
    let e = two_digits(s.minute as int / 60);
    let f = two_digits(s.minute as int % 60);
    assert(t[0] == a[0] && t[1] == a[1] && t[3] == b[0] && t[4] == b[1]);
    assert(t[6] == c[0] && t[7] == c[1] && t[8] == c[2] && t[9] == c[3]);
    assert(t[11] == e[0] && t[12] == e[1] && t[14] == f[0] && t[15] == f[1]);
    assert(num2(t, 0) == num2(a, 0));
    assert(num2(t, 3) == num2(b, 0));
    assert(num4(t, 6) == num4(c, 0));
    assert(num2(t, 11) == num2(e, 0));
    assert(num2(t, 14) == num2(f, 0));
    assert(stamp_shape(t, sep));
}

/// The stored text of an instant: `dd-mm-yyyy HH:MM`. Reading it back with
/// `deserialize` gives the same instant.
pub fn serialize(date: &Stamp) -> (r: String)
    requires
        date.wf(),
    ensures
        r@ == stamp_text(*date, '-'),
        parse_stamp(r@, '-') == Some(*date),
{
    let mut s = String::new();
    proof {
        reveal_strlit(" ");
        reveal_strlit("-");
    }
    push_date(&mut s, date.day, "-");
    s.append(" ");
    push_clock(&mut s, date.minute);
    proof {
        lemma_stamp_text_parses(*date, '-');
    }
    s
}


/// Reads the stored text of an instant, `dd-mm-yyyy HH:MM`.
pub fn deserialize(text: &str) -> (r: Option<Stamp>)
    ensures
        r == parse_stamp(text@, '-'),
        r matches Some(s) ==> s.wf(),
{
    parse_stamp_text(text, '-')
}

/// The minute of the day at which something lasting `duration` minutes ends.
pub open spec fn end_minute_of(minute: int, duration: int) -> int {
    (minute + duration) % 1440
}

/// The minute of the day `duration` minutes after `minute`.
pub fn end_minute(minute: u32, duration: i64) -> (r: u32)
    requires
        minute < 1440,
    ensures
        r as int == end_minute_of(minute as int, duration as int),
        r < 1440,
{
    let total: i128 = minute as i128 + duration as i128;
    let m: i128 = total % 1440;
    if m < 0 {
        (m + 1440) as u32
    } else {
        m as u32
    }
}

/// A field of one or two digits at `i`, read greedily: its value and the
/// index after it.
pub open spec fn short_field(t: Seq<char>, i: int) -> Option<(int, int)> {
    if 0 <= i < t.len() && is_digit(t[i]) {
        if i + 1 < t.len() && is_digit(t[i + 1]) {
            Some((num2(t, i), i + 2))
        } else {
            Some((digit_value(t[i]), i + 1))
        }
    } else {
        None
    }
}

pub open spec fn char_at(t: Seq<char>, i: int, c: char) -> bool {
    0 <= i < t.len() && t[i] == c
}

pub open spec fn year_at(t: Seq<char>, i: int) -> bool {
    0 <= i && i + 3 < t.len() && is_digit(t[i]) && is_digit(t[i + 1]) && is_digit(t[i + 2])
        && is_digit(t[i + 3])
}

/// Day, month, year, hour and minute of `d.m.yyyy H:M`, where day, month,
/// hour and minute have one or two digits and the year four.
pub open spec fn input_fields(t: Seq<char>) -> Option<(int, int, int, int, int)> {
    let f1 = short_field(t, 0);
    if f1 is None {
        None
    } else {
        let i = f1.unwrap().1;
        let f2 = short_field(t, i + 1);
        if !char_at(t, i, '.') || f2 is None {
            None
        } else {
            let j = f2.unwrap().1;
            let f3 = short_field(t, j + 6);
            if !char_at(t, j, '.') || !year_at(t, j + 1) || !char_at(t, j + 5, ' ') || f3 is None {
                None
            } else {
                let k = f3.unwrap().1;
                let f4 = short_field(t, k + 1);
                if !char_at(t, k, ':') || f4 is None || f4.unwrap().1 != t.len() {
                    None
                } else {
                    Some((f1.unwrap().0, f2.unwrap().0, num4(t, j + 1), f3.unwrap().0, f4.unwrap().0))
                }
            }
        }
    }
}

/// The instant a typed `d.m.yyyy H:M` names, when the date exists and the
/// time is one of the day.
pub open spec fn parse_input(t: Seq<char>) -> Option<Stamp> {
    match input_fields(t) {
        Some((d, m, y, h, mi)) => if h < 24 && mi < 60 {
            match ce_day_of(y as i32, m as u32, d as u32) {
                Some(n) => if FIRST_DAY <= n <= LAST_DAY {
                    Some(Stamp { day: n, minute: (h * 60 + mi) as u32 })
                } else {
                    None
                },
                None => None,
            }
        } else {
            None
        },
        None => None,
    }
}

fn short_field_at(t: &str, len: usize, i: usize) -> (r: Option<(u32, usize)>)
    requires
        len == t@.len(),
    ensures
        match short_field(t@, i as int) {
            Some((v, j)) => r == Some((v as u32, j as usize)) && v < 100 && j <= len,
            None => r is None,
        },
{
    if i >= len {
        return None;
    }
    match digit_at(t, i) {
        None => None,
        Some(a) => {
            if i + 1 < len {
                match digit_at(t, i + 1) {
                    Some(b) => {
                        return Some((a * 10 + b, i + 2));
                    },
                    None => {},
                }
            }
            Some((a, i + 1))
        },
    }
}

fn char_is(t: &str, len: usize, i: usize, c: char) -> (r: bool)
    requires
        len == t@.len(),
    ensures
        r == char_at(t@, i as int, c),
{
    i < len && t.get_char(i) == c
}

/// Reads a typed instant, `d.m.yyyy H:M`.
pub fn parse_input_text(t: &str) -> (r: Option<Stamp>)
    ensures
        r == parse_input(t@),
        r matches Some(s) ==> s.wf(),
{
    let len = t.unicode_len();
    let (d, i) = match short_field_at(t, len, 0) {
        Some(x) => x,
        None => {
            return None;
        },
    };
    if !char_is(t, len, i, '.') {
        return None;
    }
    let (m, j) = match short_field_at(t, len, i + 1) {
        Some(x) => x,
        None => {
            return None;
        },
    };
    if !char_is(t, len, j, '.') || len < 6 || j > len - 6 || !char_is(t, len, j + 5, ' ') {
        return None;
    }
    let (y_hi, y_lo) = match (num_at(t, j + 1), num_at(t, j + 3)) {
        (Some(a), Some(b)) => (a, b),
        _ => {
            return None;
        },
    };
    assert(year_at(t@, j + 1));
    let (h, k) = match short_field_at(t, len, j + 6) {
        Some(x) => x,
        None => {
            return None;
        },
    };
    if !char_is(t, len, k, ':') {
        return None;
    }
    let (mi, l) = match short_field_at(t, len, k + 1) {
        Some(x) => x,
        None => {
            return None;
        },
    };
    if l != len {
        return None;
    }
    assert(input_fields(t@) == Some((d as int, m as int, num4(t@, j + 1), h as int, mi as int)));
    if h >= 24 || mi >= 60 {
        return None;
    }
    let year = y_hi * 100 + y_lo;
    match day_number(year as i32, m, d) {
        Some(n) => if FIRST_DAY <= n && n <= LAST_DAY {
            Some(Stamp { day: n, minute: h * 60 + mi })
        } else {
            None
        },
        None => None,
    }
}

} // verus!
