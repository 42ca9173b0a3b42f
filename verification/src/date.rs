//! Calendar dates as plain values.
//!
//! Birthdays and the holiday calendar work on a date made of year, month and
//! day. The date is persisted in a sortable `YYYY-MM-DD` text form; the
//! formatter and the parser here are exact inverses of each other.

use vstd::prelude::*;

verus! {

/// Day of the week, supplied by the caller (the clock lives outside the
/// library).
#[derive(Debug, Clone, Copy, PartialEq, Eq, Structural)]
pub enum Weekday {
    Monday,
    Tuesday,
    Wednesday,
    Thursday,
    Friday,
    Saturday,
    Sunday,
}

/// A calendar date. Only dates accepted by [`Date::wf`] are handled:
/// years up to 9999 (four digits in the sortable text form) and a day that
/// exists in the month.
#[derive(Debug, Clone, Copy, PartialEq, Eq, Structural)]
pub struct Date {
    pub year: u32,
    pub month: u32,
    pub day: u32,
}

pub open spec fn is_leap_year(y: int) -> bool {
    (y % 4 == 0 && y % 100 != 0) || y % 400 == 0
}

pub open spec fn days_in_month(y: int, m: int) -> int {
    if m == 2 {
        if is_leap_year(y) {
            29
        } else {
            28
        }
    } else if m == 4 || m == 6 || m == 9 || m == 11 {
        30
    } else {
        31
    }
}

impl Date {
    pub open spec fn wf(self) -> bool {
        &&& self.year <= 9999
        &&& 1 <= self.month <= 12
        &&& 1 <= self.day <= days_in_month(self.year as int, self.month as int)
    }

    /// Build a date, rejecting anything outside the calendar.
    pub fn new(year: u32, month: u32, day: u32) -> (r: Option<Date>)
        ensures
            match r {
                Some(d) => d == (Date { year, month, day }) && d.wf(),
                None => !(Date { year, month, day }).wf(),
            },
    {
        let d = Date { year, month, day };
        if year <= 9999 && 1 <= month && month <= 12 && 1 <= day && day <= days_in_month_exec(
            year,
            month,
        ) {
            Some(d)
        } else {
            None
        }
    }

    /// Decide well-formedness at run time.
    pub fn valid(&self) -> (r: bool)
        ensures
            r == self.wf(),
    {
        self.year <= 9999 && 1 <= self.month && self.month <= 12 && 1 <= self.day && self.day
            <= days_in_month_exec(self.year, self.month)
    }

    /// True when the two dates fall on the same month and day, whatever the
    /// year; this is how a stored birthday is matched against today.
    pub fn same_month_day(self, other: Date) -> (r: bool)
        ensures
            r == (self.month == other.month && self.day == other.day),
    {
        self.month == other.month && self.day == other.day
    }
}

/// The decimal digit character for `d`, for `0 <= d <= 9`.
pub open spec fn digit_char(d: int) -> char {
    if d == 0 {
        '0'
    } else if d == 1 {
        '1'
    } else if d == 2 {
        '2'
    } else if d == 3 {
        '3'
    } else if d == 4 {
        '4'
    } else if d == 5 {
        '5'
    } else if d == 6 {
        '6'
    } else if d == 7 {
        '7'
    } else if d == 8 {
        '8'
    } else {
        '9'
    }
}

/// The ten characters of the sortable `YYYY-MM-DD` form of a date.
pub open spec fn date_chars(d: Date) -> Seq<char> {
    let y = d.year as int;
    let m = d.month as int;
    let dd = d.day as int;
    seq![
        digit_char(y / 1000),
        digit_char((y / 100) % 10),
        digit_char((y / 10) % 10),
        digit_char(y % 10),
        '-',
        digit_char(m / 10),
        digit_char(m % 10),
        '-',
        digit_char(dd / 10),
        digit_char(dd % 10),
    ]
}

fn digit_str(d: u32) -> (r: &'static str)
    requires
        d <= 9,
    ensures
        r@ =~= seq![digit_char(d as int)],
{
    proof {
        reveal_strlit("0");
        reveal_strlit("1");
        reveal_strlit("2");
        reveal_strlit("3");
        reveal_strlit("4");
        reveal_strlit("5");
        reveal_strlit("6");
        reveal_strlit("7");
        reveal_strlit("8");
        reveal_strlit("9");
    }
    match d {
        0 => "0",
        1 => "1",
        2 => "2",
        3 => "3",
        4 => "4",
        5 => "5",
        6 => "6",
        7 => "7",
        8 => "8",
        _ => "9",
    }
}

fn dash_str() -> (r: &'static str)
    ensures
        r@ =~= seq!['-'],
{
    proof {
        reveal_strlit("-");
    }
    "-"
}

impl Date {
    /// Render the date in its sortable `YYYY-MM-DD` text form.
    pub fn to_sortable_string(&self) -> (r: String)
        requires
            self.wf(),
        ensures
            r@ == date_chars(*self),
    {
        let mut s = String::new();
        s.append(digit_str(self.year / 1000));
        s.append(digit_str((self.year / 100) % 10));
        s.append(digit_str((self.year / 10) % 10));
        s.append(digit_str(self.year % 10));
        s.append(dash_str());
        s.append(digit_str(self.month / 10));
        s.append(digit_str(self.month % 10));
        s.append(dash_str());
        s.append(digit_str(self.day / 10));
        s.append(digit_str(self.day % 10));
        proof {
            assert(s@ =~= date_chars(*self));
        }
        s
    }
}

fn char_digit(c: char) -> (r: Option<u32>)
    ensures
        match r {
            Some(v) => v <= 9 && digit_char(v as int) == c,
            None => forall|v: int| 0 <= v <= 9 ==> digit_char(v) != c,
        },
{
    match c {
        '0' => Some(0),
        '1' => Some(1),
        '2' => Some(2),
        '3' => Some(3),
        '4' => Some(4),
        '5' => Some(5),
        '6' => Some(6),
        '7' => Some(7),
        '8' => Some(8),
        '9' => Some(9),
        _ => None,
    }
}

/// The digit of `date_chars(d)` at digit position `i`.
spec fn digit_at(d: Date, i: int) -> int {
    let y = d.year as int;
    let m = d.month as int;
    let dd = d.day as int;
    if i == 0 {
        y / 1000
    } else if i == 1 {
        (y / 100) % 10
    } else if i == 2 {
        (y / 10) % 10
    } else if i == 3 {
        y % 10
    } else if i == 5 {
        m / 10
    } else if i == 6 {
        m % 10
    } else if i == 8 {
        dd / 10
    } else {
        dd % 10
    }
}

spec fn is_digit_position(i: int) -> bool {
    i == 0 || i == 1 || i == 2 || i == 3 || i == 5 || i == 6 || i == 8 || i == 9
}

proof fn lemma_date_chars_shape(d: Date, i: int)
    requires
        d.wf(),
        is_digit_position(i),
    ensures
        0 <= digit_at(d, i) <= 9,
        date_chars(d)[i] == digit_char(digit_at(d, i)),
        date_chars(d)[4] == '-',
        date_chars(d)[7] == '-',
{
    assert(d.year as int / 1000 <= 9);
}

proof fn lemma_digit_char_inj(a: int, b: int)
    requires
        0 <= a <= 9,
        0 <= b <= 9,
        digit_char(a) == digit_char(b),
    ensures
        a == b,
{
}

proof fn lemma_decompose_year(y: int)
    requires
        0 <= y <= 9999,
    ensures
        y == 1000 * (y / 1000) + 100 * ((y / 100) % 10) + 10 * ((y / 10) % 10) + y % 10,
{
    assert(y == 1000 * (y / 1000) + 100 * ((y / 100) % 10) + 10 * ((y / 10) % 10) + y % 10)
        by (nonlinear_arith)
        requires
            0 <= y <= 9999,
    ;
}

proof fn lemma_decompose_two(m: int)
    requires
        0 <= m <= 99,
    ensures
        m == 10 * (m / 10) + m % 10,
{
}

proof fn lemma_compose_year(a: int, b: int, c: int, d: int)
    requires
        0 <= a <= 9,
        0 <= b <= 9,
        0 <= c <= 9,
        0 <= d <= 9,
    ensures
        (1000 * a + 100 * b + 10 * c + d) / 1000 == a,
        ((1000 * a + 100 * b + 10 * c + d) / 100) % 10 == b,
        ((1000 * a + 100 * b + 10 * c + d) / 10) % 10 == c,
        (1000 * a + 100 * b + 10 * c + d) % 10 == d,
{
    let y = 1000 * a + 100 * b + 10 * c + d;
    assert(y / 1000 == a && (y / 100) % 10 == b && (y / 10) % 10 == c && y % 10 == d)
        by (nonlinear_arith)
        requires
            0 <= a <= 9,
            0 <= b <= 9,
            0 <= c <= 9,
            0 <= d <= 9,
            y == 1000 * a + 100 * b + 10 * c + d,
    ;
}

proof fn lemma_compose_two(a: int, b: int)
    requires
        0 <= a <= 9,
        0 <= b <= 9,
    ensures
        (10 * a + b) / 10 == a,
        (10 * a + b) % 10 == b,
{
}

/// Parse the sortable `YYYY-MM-DD` text form. Returns the date exactly when
/// the input is the rendering of a well-formed date, and `None` otherwise.
pub fn parse_date(s: &str) -> (r: Option<Date>)
    ensures
        match r {
            Some(d) => d.wf() && date_chars(d) == s@,
            None => forall|d: Date| d.wf() ==> date_chars(d) != s@,
        },
{
    let n = s.unicode_len();
    if n != 10 {
        proof {
            assert forall|d: Date| d.wf() implies date_chars(d) != s@ by {
                assert(date_chars(d).len() == 10);
            }
        }
        return None;
    }
    if !(s.get_char(4) == '-' && s.get_char(7) == '-') {
        proof {
            assert forall|d: Date| d.wf() implies date_chars(d) != s@ by {
                lemma_date_chars_shape(d, 0);
            }
        }
        return None;
    }
    let y3 = match char_digit(s.get_char(0)) {
        Some(v) => v,
        None => {
            proof {
                lemma_reject_digit(s@, 0);
            }
            return None;
        },
    };
    let y2 = match char_digit(s.get_char(1)) {
        Some(v) => v,
        None => {
            proof {
                lemma_reject_digit(s@, 1);
            }
            return None;
        },
    };
    let y1 = match char_digit(s.get_char(2)) {
        Some(v) => v,
        None => {
            proof {
                lemma_reject_digit(s@, 2);
            }
            return None;
        },
    };
    let y0 = match char_digit(s.get_char(3)) {
        Some(v) => v,
        None => {
            proof {
                lemma_reject_digit(s@, 3);
            }
            return None;
        },
    };
    let m1 = match char_digit(s.get_char(5)) {
        Some(v) => v,
        None => {
            proof {
                lemma_reject_digit(s@, 5);
            }
            return None;
        },
    };
    let m0 = match char_digit(s.get_char(6)) {
        Some(v) => v,
        None => {
            proof {
                lemma_reject_digit(s@, 6);
            }
            return None;
        },
    };
    let d1 = match char_digit(s.get_char(8)) {
        Some(v) => v,
        None => {
            proof {
                lemma_reject_digit(s@, 8);
            }
            return None;
        },
    };
    let d0 = match char_digit(s.get_char(9)) {
        Some(v) => v,
        None => {
            proof {
                lemma_reject_digit(s@, 9);
            }
            return None;
        },
    };
    let year = y3 * 1000 + y2 * 100 + y1 * 10 + y0;
    let month = m1 * 10 + m0;
    let day = d1 * 10 + d0;
    proof {
        lemma_compose_year(y3 as int, y2 as int, y1 as int, y0 as int);
        lemma_compose_two(m1 as int, m0 as int);
        lemma_compose_two(d1 as int, d0 as int);
    }
    if 1 <= month && month <= 12 && 1 <= day && day <= days_in_month_exec(year, month) {
        let d = Date { year, month, day };
        proof {
            assert(date_chars(d) =~= s@);
        }
        Some(d)
    } else {
        proof {
            assert forall|d: Date| d.wf() implies date_chars(d) != s@ by {
                if date_chars(d) == s@ {
                    let y = d.year as int;
                    let m = d.month as int;
                    let dd = d.day as int;
                    lemma_date_chars_shape(d, 0);
                    lemma_digit_char_inj(y / 1000, y3 as int);
                    lemma_digit_char_inj((y / 100) % 10, y2 as int);
                    lemma_digit_char_inj((y / 10) % 10, y1 as int);
                    lemma_digit_char_inj(y % 10, y0 as int);
                    lemma_digit_char_inj(m / 10, m1 as int);
                    lemma_digit_char_inj(m % 10, m0 as int);
                    lemma_digit_char_inj(dd / 10, d1 as int);
                    lemma_digit_char_inj(dd % 10, d0 as int);
                    lemma_decompose_year(y);
                    lemma_decompose_two(m);
                    lemma_decompose_two(dd);
                    assert(y == year as int && m == month as int && dd == day as int);
                }
            }
        }
        None
    }
}

/// If position `i` of `s` holds no digit character, `s` renders no
/// well-formed date.
proof fn lemma_reject_digit(s: Seq<char>, i: int)
    requires
        is_digit_position(i),
        forall|v: int| 0 <= v <= 9 ==> digit_char(v) != s[i],
    ensures
        forall|d: Date| d.wf() ==> date_chars(d) != s,
{
    assert forall|d: Date| d.wf() implies date_chars(d) != s by {
        lemma_date_chars_shape(d, i);
        if date_chars(d) == s {
            assert(digit_char(digit_at(d, i)) == s[i]);
        }
    }
}

/// Rendering is injective on well-formed dates: equal text means equal dates.
pub proof fn lemma_date_chars_injective(d1: Date, d2: Date)
    requires
        d1.wf(),
        d2.wf(),
        date_chars(d1) == date_chars(d2),
    ensures
        d1 == d2,
{
    let y1 = d1.year as int;
    let y2 = d2.year as int;
    let m1 = d1.month as int;
    let m2 = d2.month as int;
    let dd1 = d1.day as int;
    let dd2 = d2.day as int;
    lemma_date_chars_shape(d1, 0);
    lemma_date_chars_shape(d2, 0);
    lemma_digit_char_inj(y1 / 1000, y2 / 1000);
    lemma_digit_char_inj((y1 / 100) % 10, (y2 / 100) % 10);
    lemma_digit_char_inj((y1 / 10) % 10, (y2 / 10) % 10);
    lemma_digit_char_inj(y1 % 10, y2 % 10);
    lemma_digit_char_inj(m1 / 10, m2 / 10);
    lemma_digit_char_inj(m1 % 10, m2 % 10);
    lemma_digit_char_inj(dd1 / 10, dd2 / 10);
    lemma_digit_char_inj(dd1 % 10, dd2 % 10);
    lemma_decompose_year(y1);
    lemma_decompose_year(y2);
    lemma_decompose_two(m1);
    lemma_decompose_two(m2);
    lemma_decompose_two(dd1);
    lemma_decompose_two(dd2);
}

fn is_leap_year_exec(y: u32) -> (r: bool)
    ensures
        r == is_leap_year(y as int),
{
    (y % 4 == 0 && y % 100 != 0) || y % 400 == 0
}

fn days_in_month_exec(y: u32, m: u32) -> (r: u32)
    ensures
        r == days_in_month(y as int, m as int),
{
    if m == 2 {
        if is_leap_year_exec(y) {
            29
        } else {
            28
        }
    } else if m == 4 || m == 6 || m == 9 || m == 11 {
        30
    } else {
        31
    }
}

} // verus!
