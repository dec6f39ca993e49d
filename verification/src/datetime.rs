//! The composite date-time decoder. A six-digit time of day (`HHMMSS`) and a
//! six-digit date (`DDMMYY`) are combined into one UTC timestamp. The
//! two-digit year is widened with the usual receiver-era pivot: `00`-`68`
//! mean 2000-2068, `69`-`99` mean 1969-1999. This decoder is lenient: a
//! missing or malformed date or time yields no timestamp rather than a
//! decode failure.

use vstd::prelude::*;
use crate::digits::{all_digits, digit_of_char, is_digit, is_digit_char, char_digit};

verus! {

/// A calendar UTC instant, second precision.
#[derive(Clone, Copy, Debug, PartialEq, Eq, Structural)]
pub struct Timestamp {
    pub year: u32,
    pub month: u8,
    pub day: u8,
    pub hour: u8,
    pub minute: u8,
    pub second: u8,
}

/// Gregorian leap years.
pub open spec fn is_leap_year(y: int) -> bool {
    y % 4 == 0 && (y % 100 != 0 || y % 400 == 0)
}

/// Days in a month of the Gregorian calendar.
pub open spec fn days_in_month(y: int, m: int) -> int {
    if m == 2 {
        if is_leap_year(y) {
            29
        } else {
            28
        }
    } else if m == 4 || m == 6 || m == 9 || m == 11 {
        30
    } else {
        31
    }
}

/// The full year a two-digit year stands for.
pub open spec fn two_digit_year(yy: int) -> int {
    if yy <= 68 {
        2000 + yy
    } else {
        1900 + yy
    }
}

impl Timestamp {
    /// The parts name a real calendar instant.
    pub open spec fn wf(self) -> bool {
        &&& 1 <= self.month <= 12
        &&& 1 <= self.day <= days_in_month(self.year as int, self.month as int)
        &&& self.hour <= 23
        &&& self.minute <= 59
        &&& self.second <= 59
    }
}

/// The number the two digit characters at `i` and `i + 1` denote.
pub open spec fn two_digits_at(s: Seq<char>, i: int) -> int {
    10 * digit_of_char(s[i]) + digit_of_char(s[i + 1])
}

/// The timestamp a date field and a time field denote: `None` unless both
/// are six digits naming a real calendar instant.
pub open spec fn spec_datetime(date: Seq<char>, time: Seq<char>) -> Option<Timestamp> {
    if date.len() == 6 && time.len() == 6 && all_digits(date) && all_digits(time) {
        let day = two_digits_at(date, 0);
        let month = two_digits_at(date, 2);
        let year = two_digit_year(two_digits_at(date, 4));
        let hour = two_digits_at(time, 0);
        let minute = two_digits_at(time, 2);
        let second = two_digits_at(time, 4);
        if 1 <= month <= 12 && 1 <= day <= days_in_month(year, month) && hour <= 23 && minute <= 59
            && second <= 59 {
            Some(
                Timestamp {
                    year: year as u32,
                    month: month as u8,
                    day: day as u8,
                    hour: hour as u8,
                    minute: minute as u8,
                    second: second as u8,
                },
            )
        } else {
            None
        }
    } else {
        None
    }
}

/// Days in a month, executable.
fn days_in_month_of(year: u32, month: u8) -> (d: u8)
    requires
        1 <= month <= 12,
    ensures
        d as int == days_in_month(year as int, month as int),
{
    if month == 2 {
        if year % 4 == 0 && (year % 100 != 0 || year % 400 == 0) {
            29
        } else {
            28
        }
    } else if month == 4 || month == 6 || month == 9 || month == 11 {
        30
    } else {
        31
    }
}

/// Read the two digit characters at `i` as a number below one hundred.
fn two_digits_of(s: &str, i: usize) -> (v: u8)
    requires
        s@.len() == 6,
        i + 1 < 6,
        is_digit_char(s@[i as int]),
        is_digit_char(s@[i as int + 1]),
    ensures
        v as int == two_digits_at(s@, i as int),
        v <= 99,
{
    let hi = char_digit(s.get_char(i));
    let lo = char_digit(s.get_char(i + 1));
    10 * hi + lo
}

/// Check that `s` is exactly six digit characters.
fn six_digits(s: &str) -> (b: bool)
    ensures
        b == (s@.len() == 6 && all_digits(s@)),
{
    if s.unicode_len() != 6 {
        return false;
    }
    let mut i: usize = 0;
    while i < 6
        invariant
            i <= 6,
            s@.len() == 6,
            forall|j: int| 0 <= j < i ==> is_digit_char(s@[j]),
        decreases 6 - i,
    {
        if !is_digit(s.get_char(i)) {
            return false;
        }
        i += 1;
    }
    true
}

/// Decode date (`DDMMYY`) and time (`HHMMSS`) fields into one UTC
/// timestamp; `None` when either is not six digits or the parts name no
/// real calendar instant.
pub fn parse_yymmdd_hhmmss(date: &str, time: &str) -> (r: Option<Timestamp>)
    ensures
        r == spec_datetime(date@, time@),
        r matches Some(t) ==> t.wf(),
{
    if !six_digits(date) || !six_digits(time) {
        return None;
    }
    let day = two_digits_of(date, 0);
    let month = two_digits_of(date, 2);
    let yy = two_digits_of(date, 4);
    let hour = two_digits_of(time, 0);
    let minute = two_digits_of(time, 2);
    let second = two_digits_of(time, 4);
    let year: u32 = if yy <= 68 {
        2000 + yy as u32
    } else {
        1900 + yy as u32
    };
    if 1 <= month && month <= 12 && 1 <= day && day <= days_in_month_of(year, month) && hour <= 23
        && minute <= 59 && second <= 59 {
        Some(Timestamp { year, month, day, hour, minute, second })
    } else {
        None
    }
}

} // verus!
