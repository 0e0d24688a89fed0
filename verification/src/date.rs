//! Calendar dates, held as plain year, month and day numbers, together
//! with the strict hyphen-separated text form: four year digits, two
//! month digits and two day digits.

use vstd::prelude::*;
use crate::text::{is_digit_char, digit_val, digit_char, push_digit};

verus! {

/// `y` is a leap year of the proleptic Gregorian calendar.
pub open spec fn is_leap_year(y: int) -> bool {
    y % 4 == 0 && (y % 100 != 0 || y % 400 == 0)
}

/// Number of days of month `m` of year `y`.
pub open spec fn days_in_month(y: int, m: int) -> int
    recommends
        1 <= m <= 12,
{
    if m == 2 {
        if is_leap_year(y) {
            29
        } else {
            28
        }
    } else if m == 4 || m == 6 || m == 9 || m == 11 {
        30
    } else {
        31
    }
}

/// `y`, `m` and `d` name a real calendar date that the ten-character
/// text form can carry.
pub open spec fn valid_ymd(y: int, m: int, d: int) -> bool {
    0 <= y <= 9999 && 1 <= m <= 12 && 1 <= d <= days_in_month(y, m)
}

/// A calendar date with no time component.
#[derive(Clone, Copy, PartialEq, Eq, Structural, Debug)]
pub struct Date {
    pub year: u32,
    pub month: u32,
    pub day: u32,
}

/// The text form has exactly ten characters: four digits, a hyphen,
/// two digits, a hyphen, two digits.
pub open spec fn date_text_shaped(s: Seq<char>) -> bool {
    &&& s.len() == 10
    &&& is_digit_char(s[0])
    &&& is_digit_char(s[1])
    &&& is_digit_char(s[2])
    &&& is_digit_char(s[3])
    &&& s[4] == '-'
    &&& is_digit_char(s[5])
    &&& is_digit_char(s[6])
    &&& s[7] == '-'
    &&& is_digit_char(s[8])
    &&& is_digit_char(s[9])
}

/// The year named by the first four characters.
pub open spec fn year_of(s: Seq<char>) -> int {
    digit_val(s[0]) * 1000 + digit_val(s[1]) * 100 + digit_val(s[2]) * 10 + digit_val(s[3])
}

/// The month named by the sixth and seventh characters.
pub open spec fn month_of(s: Seq<char>) -> int {
    digit_val(s[5]) * 10 + digit_val(s[6])
}

/// The day named by the last two characters.
pub open spec fn day_of(s: Seq<char>) -> int {
    digit_val(s[8]) * 10 + digit_val(s[9])
}

/// `s` is a well-shaped date text naming a real calendar date.
pub open spec fn valid_date_text(s: Seq<char>) -> bool {
    date_text_shaped(s) && valid_ymd(year_of(s), month_of(s), day_of(s))
}

/// The date named by `s`, if `s` is a valid date text.
pub open spec fn date_of_text(s: Seq<char>) -> Option<Date> {
    if valid_date_text(s) {
        Some(
            (Date {
                year: year_of(s) as u32,
                month: month_of(s) as u32,
                day: day_of(s) as u32,
            }),
        )
    } else {
        None
    }
}

impl Date {
    /// The fields name a real calendar date.
    pub open spec fn wf(self) -> bool {
        valid_ymd(self.year as int, self.month as int, self.day as int)
    }

    /// The ten-character text form of the date.
    pub open spec fn spec_text(self) -> Seq<char> {
        seq![
            digit_char(self.year as int / 1000),
            digit_char((self.year as int / 100) % 10),
            digit_char((self.year as int / 10) % 10),
            digit_char(self.year as int % 10),
            '-',
            digit_char(self.month as int / 10),
            digit_char(self.month as int % 10),
            '-',
            digit_char(self.day as int / 10),
            digit_char(self.day as int % 10),
        ]
    }

    /// Renders the date in the hyphen-separated text form.
    pub fn render(&self) -> (r: String)
        requires
            self.wf(),
        ensures
            r@ == self.spec_text(),
    {
        let mut r = String::new();
        push_digit(&mut r, self.year / 1000);
        push_digit(&mut r, (self.year / 100) % 10);
        push_digit(&mut r, (self.year / 10) % 10);
        push_digit(&mut r, self.year % 10);
        r.append("-");
        push_digit(&mut r, self.month / 10);
        push_digit(&mut r, self.month % 10);
        r.append("-");
        push_digit(&mut r, self.day / 10);
        push_digit(&mut r, self.day % 10);
        proof {
            reveal_strlit("-");
            assert(r@ =~= self.spec_text());
        }
        r
    }
}

/// The text form is faithful: rendering a well-formed date and
/// reading the text back yields the same date.
pub proof fn lemma_date_text_round_trip(d: Date)
    requires
        d.wf(),
    ensures
        date_of_text(d.spec_text()) == Some(d),
{
    let s = d.spec_text();
    let y = d.year as int;
    assert(y == (y / 1000) * 1000 + ((y / 100) % 10) * 100 + ((y / 10) % 10) * 10 + y % 10) by {
        assert(y / 100 == (y / 1000) * 10 + (y / 100) % 10) by (nonlinear_arith)
            requires 0 <= y <= 9999;
        assert(y / 10 == (y / 100) * 10 + (y / 10) % 10) by (nonlinear_arith)
            requires 0 <= y <= 9999;
        assert(y == (y / 10) * 10 + y % 10) by (nonlinear_arith)
            requires 0 <= y <= 9999;
    }
    assert(year_of(s) == y);
    assert(month_of(s) == d.month as int);
    assert(day_of(s) == d.day as int);
    assert(valid_date_text(s));
}

/// Whether `y` is a leap year.
pub fn leap_year(y: u32) -> (r: bool)
    ensures
        r == is_leap_year(y as int),
{
    y % 4 == 0 && (y % 100 != 0 || y % 400 == 0)
}

/// Number of days of month `m` of year `y`.
pub fn month_length(y: u32, m: u32) -> (r: u32)
    requires
        1 <= m <= 12,
    ensures
        r == days_in_month(y as int, m as int),
{
    if m == 2 {
        if leap_year(y) {
            29
        } else {
            28
        }
    } else if m == 4 || m == 6 || m == 9 || m == 11 {
        30
    } else {
        31
    }
}

/// The digit at position `i` of `s`, if there is one.
fn read_digit(s: &str, i: usize) -> (r: Option<u32>)
    requires
        i < s@.len(),
    ensures
        (r is Some) <==> is_digit_char(s@[i as int]),
        r matches Some(v) ==> v == digit_val(s@[i as int]) && v <= 9,
{
    let code: u32 = s.get_char(i) as u32;
    if 48 <= code && code <= 57 {
        Some(code - 48)
    } else {
        None
    }
}

/// Reads a date in the strict hyphen-separated form. Returns the date
/// exactly when the text is shaped as four digits, hyphen, two digits,
/// hyphen, two digits, and names a real calendar date.
pub fn parse_date(s: &str) -> (r: Option<Date>)
    ensures
        r == date_of_text(s@),
        (r is Some) <==> valid_date_text(s@),
        r matches Some(d) ==> d.wf(),
{
    let n = s.unicode_len();
    if n != 10 {
        return None;
    }
    if s.get_char(4) != '-' || s.get_char(7) != '-' {
        return None;
    }
    let d0 = match read_digit(s, 0) {
        Some(v) => v,
        None => {
            return None;
        },
    };
    let d1 = match read_digit(s, 1) {
        Some(v) => v,
        None => {
            return None;
        },
    };
    let d2 = match read_digit(s, 2) {
        Some(v) => v,
        None => {
            return None;
        },
    };
    let d3 = match read_digit(s, 3) {
        Some(v) => v,
        None => {
            return None;
        },
    };
    let d5 = match read_digit(s, 5) {
        Some(v) => v,
        None => {
            return None;
        },
    };
    let d6 = match read_digit(s, 6) {
        Some(v) => v,
        None => {
            return None;
        },
    };
    let d8 = match read_digit(s, 8) {
        Some(v) => v,
        None => {
            return None;
        },
    };
    let d9 = match read_digit(s, 9) {
        Some(v) => v,
        None => {
            return None;
        },
    };
    let year: u32 = d0 * 1000 + d1 * 100 + d2 * 10 + d3;
    let month: u32 = d5 * 10 + d6;
    let day: u32 = d8 * 10 + d9;
    if month < 1 || month > 12 {
        return None;
    }
    if day < 1 || day > month_length(year, month) {
        return None;
    }
    Some(Date { year, month, day })
}

} // verus!
