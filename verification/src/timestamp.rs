//! Calendar datetimes parsed from the fixed pattern `YYYY-MM-DD HH:MM:SS`
//! and interpreted as UTC.

use vstd::prelude::*;
use crate::numeric::{digit_value, is_ascii_digit};

verus! {

/// A calendar datetime in UTC, held as plain component values.
#[derive(Clone, Copy, Debug, PartialEq, Eq, Structural)]
pub struct DateTimeUtc {
    pub year: u16,
    pub month: u8,
    pub day: u8,
    pub hour: u8,
    pub minute: u8,
    pub second: u8,
}

pub open spec fn is_leap_year(y: int) -> bool {
    y % 4 == 0 && (y % 100 != 0 || y % 400 == 0)
}

pub open spec fn days_in_month(y: int, m: int) -> int {
    if m == 2 {
        if is_leap_year(y) {
            29
        } else {
            28
        }
    } else if m == 4 || m == 6 || m == 9 || m == 11 {
        30
    } else {
        31
    }
}

/// The components name a real calendar date and time of day.
pub open spec fn dt_well_formed(dt: DateTimeUtc) -> bool {
    &&& dt.year <= 9999
    &&& 1 <= dt.month <= 12
    &&& 1 <= dt.day <= days_in_month(dt.year as int, dt.month as int)
    &&& dt.hour <= 23
    &&& dt.minute <= 59
    &&& dt.second <= 59
}

/// Nineteen characters shaped `YYYY-MM-DD HH:MM:SS`: digits in the component
/// positions, with the literal separators between them.
pub open spec fn ts_shape_ok(s: Seq<char>) -> bool {
    &&& s.len() == 19
    &&& is_ascii_digit(s[0]) && is_ascii_digit(s[1]) && is_ascii_digit(s[2]) && is_ascii_digit(
        s[3],
    )
    &&& s[4] == '-'
    &&& is_ascii_digit(s[5]) && is_ascii_digit(s[6])
    &&& s[7] == '-'
    &&& is_ascii_digit(s[8]) && is_ascii_digit(s[9])
    &&& s[10] == ' '
    &&& is_ascii_digit(s[11]) && is_ascii_digit(s[12])
    &&& s[13] == ':'
    &&& is_ascii_digit(s[14]) && is_ascii_digit(s[15])
    &&& s[16] == ':'
    &&& is_ascii_digit(s[17]) && is_ascii_digit(s[18])
}

pub open spec fn ts_year(s: Seq<char>) -> int {
    digit_value(s[0]) * 1000 + digit_value(s[1]) * 100 + digit_value(s[2]) * 10 + digit_value(s[3])
}

pub open spec fn ts_month(s: Seq<char>) -> int {
    digit_value(s[5]) * 10 + digit_value(s[6])
}

pub open spec fn ts_day(s: Seq<char>) -> int {
    digit_value(s[8]) * 10 + digit_value(s[9])
}

pub open spec fn ts_hour(s: Seq<char>) -> int {
    digit_value(s[11]) * 10 + digit_value(s[12])
}

pub open spec fn ts_minute(s: Seq<char>) -> int {
    digit_value(s[14]) * 10 + digit_value(s[15])
}

pub open spec fn ts_second(s: Seq<char>) -> int {
    digit_value(s[17]) * 10 + digit_value(s[18])
}

/// The texts the converter accepts: the fixed pattern, with every component
/// in range for the calendar.
pub open spec fn valid_timestamp(s: Seq<char>) -> bool {
    &&& ts_shape_ok(s)
    &&& 1 <= ts_month(s) <= 12
    &&& 1 <= ts_day(s) <= days_in_month(ts_year(s), ts_month(s))
    &&& ts_hour(s) <= 23
    &&& ts_minute(s) <= 59
    &&& ts_second(s) <= 59
}

/// The datetime a valid timestamp text denotes.
pub open spec fn datetime_of(s: Seq<char>) -> DateTimeUtc {
    DateTimeUtc {
        year: ts_year(s) as u16,
        month: ts_month(s) as u8,
        day: ts_day(s) as u8,
        hour: ts_hour(s) as u8,
        minute: ts_minute(s) as u8,
        second: ts_second(s) as u8,
    }
}

/// The numeric value of a decimal digit character, or nothing for any other
/// character.
fn digit_of(c: char) -> (r: Option<u8>)
    ensures
        r is Some <==> is_ascii_digit(c),
        r is Some ==> r->0 == digit_value(c) && r->0 <= 9,
{
    if '0' <= c && c <= '9' {
        Some(((c as u32) - 48) as u8)
    } else {
        None
    }
}

fn days_in_month_exec(year: u16, month: u8) -> (r: u8)
    ensures
        r as int == days_in_month(year as int, month as int),
{
    if month == 2 {
        if year % 4 == 0 && (year % 100 != 0 || year % 400 == 0) {
            29
        } else {
            28
        }
    } else if month == 4 || month == 6 || month == 9 || month == 11 {
        30
    } else {
        31
    }
}

/// Parses the fixed pattern `YYYY-MM-DD HH:MM:SS`, rejecting any deviation:
/// extra or missing characters, a wrong separator, or a component out of
/// range for the calendar.
pub fn parse_timestamp(s: &str) -> (r: Option<DateTimeUtc>)
    ensures
        r is Some <==> valid_timestamp(s@),
        r is Some ==> r->0 == datetime_of(s@) && dt_well_formed(r->0),
{
    if s.unicode_len() != 19 {
        return None;
    }
    if s.get_char(4) != '-' || s.get_char(7) != '-' || s.get_char(10) != ' ' || s.get_char(13)
        != ':' || s.get_char(16) != ':' {
        return None;
    }
    let y0 = match digit_of(s.get_char(0)) {
        Some(d) => d,
        None => { return None },
    };
    let y1 = match digit_of(s.get_char(1)) {
        Some(d) => d,
        None => { return None },
    };
    let y2 = match digit_of(s.get_char(2)) {
        Some(d) => d,
        None => { return None },
    };
    let y3 = match digit_of(s.get_char(3)) {
        Some(d) => d,
        None => { return None },
    };
    let mo0 = match digit_of(s.get_char(5)) {
        Some(d) => d,
        None => { return None },
    };
    let mo1 = match digit_of(s.get_char(6)) {
        Some(d) => d,
        None => { return None },
    };
    let d0 = match digit_of(s.get_char(8)) {
        Some(d) => d,
        None => { return None },
    };
    let d1 = match digit_of(s.get_char(9)) {
        Some(d) => d,
        None => { return None },
    };
    let h0 = match digit_of(s.get_char(11)) {
        Some(d) => d,
        None => { return None },
    };
    let h1 = match digit_of(s.get_char(12)) {
        Some(d) => d,
        None => { return None },
    };
    let mi0 = match digit_of(s.get_char(14)) {
        Some(d) => d,
        None => { return None },
    };
    let mi1 = match digit_of(s.get_char(15)) {
        Some(d) => d,
        None => { return None },
    };
    let s0 = match digit_of(s.get_char(17)) {
        Some(d) => d,
        None => { return None },
    };
    let s1 = match digit_of(s.get_char(18)) {
        Some(d) => d,
        None => { return None },
    };
    let year: u16 = (y0 as u16) * 1000 + (y1 as u16) * 100 + (y2 as u16) * 10 + (y3 as u16);
    let month: u8 = mo0 * 10 + mo1;
    let day: u8 = d0 * 10 + d1;
    let hour: u8 = h0 * 10 + h1;
    let minute: u8 = mi0 * 10 + mi1;
    let second: u8 = s0 * 10 + s1;
    if month < 1 || month > 12 {
        return None;
    }
    if day < 1 || day > days_in_month_exec(year, month) {
        return None;
    }
    if hour > 23 || minute > 59 || second > 59 {
        return None;
    }
    Some(DateTimeUtc { year, month, day, hour, minute, second })
}

} // verus!
