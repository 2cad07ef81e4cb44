//! Calendar dates: strict `YYYY-MM-DD` parsing with real calendar
//! validity, day numbers for week arithmetic, weekdays, and the short
//! month-and-day rendering used by the calendar.
//!
//! Day numbers count days from an anchor 400 Gregorian years before
//! the civil year zero. A Gregorian 400-year cycle is exactly 146097
//! days, a multiple of seven, so weekdays are unaffected by the shift
//! and every supported date gets a nonnegative day number.

use vstd::prelude::*;
use vstd::string::StrSliceExecFns;
use vstd::string::StringExecFns;
use crate::text::spec_dec;
use crate::text::u32_to_string;

verus! {

/// A calendar date.
#[derive(Clone, Copy, Debug, PartialEq, Eq, Structural)]
pub struct Date {
    pub year: u32,
    pub month: u32,
    pub day: u32,
}

/// The value of an ASCII decimal digit character, or `None`.
pub open spec fn spec_ascii_digit(c: char) -> Option<u32> {
    if 48 <= c as u32 <= 57 {
        Some((c as u32 - 48) as u32)
    } else {
        None
    }
}

/// A leap year of the Gregorian calendar.
pub open spec fn spec_is_leap(y: int) -> bool {
    y % 4 == 0 && (y % 100 != 0 || y % 400 == 0)
}

/// The number of days in a month.
pub open spec fn spec_days_in_month(y: int, m: int) -> int {
    if m == 2 {
        if spec_is_leap(y) {
            29
        } else {
            28
        }
    } else if m == 4 || m == 6 || m == 9 || m == 11 {
        30
    } else {
        31
    }
}

/// A real date of the calendar, within the four-digit years.
pub open spec fn spec_valid_date(y: int, m: int, d: int) -> bool {
    &&& 0 <= y <= 9999
    &&& 1 <= m <= 12
    &&& 1 <= d <= spec_days_in_month(y, m)
}

/// The parse of a strict `YYYY-MM-DD` date string: exactly ten
/// characters, two hyphens, eight digits, and a date that exists in
/// the calendar.
pub open spec fn spec_parse_date(s: Seq<char>) -> Option<Date> {
    if s.len() == 10 && s[4] == '-' && s[7] == '-' && (forall|i: int|
        0 <= i < 10 && i != 4 && i != 7 ==> spec_ascii_digit(#[trigger] s[i]) is Some) {
        let y = spec_ascii_digit(s[0]).unwrap() * 1000 + spec_ascii_digit(s[1]).unwrap() * 100
            + spec_ascii_digit(s[2]).unwrap() * 10 + spec_ascii_digit(s[3]).unwrap();
        let m = spec_ascii_digit(s[5]).unwrap() * 10 + spec_ascii_digit(s[6]).unwrap();
        let d = spec_ascii_digit(s[8]).unwrap() * 10 + spec_ascii_digit(s[9]).unwrap();
        if spec_valid_date(y as int, m as int, d as int) {
            Some(Date { year: y as u32, month: m as u32, day: d as u32 })
        } else {
            None
        }
    } else {
        None
    }
}

/// The day number of a date: days since the anchor, 400 Gregorian
/// years before the civil year zero.
pub open spec fn spec_day_number(date: Date) -> int {
    let y = date.year + 400;
    let m = date.month as int;
    let y1 = if m <= 2 {
        y - 1
    } else {
        y as int
    };
    let era = y1 / 400;
    let yoe = y1 - era * 400;
    let mp = if m >= 3 {
        m - 3
    } else {
        m + 9
    };
    let doy = (153 * mp + 2) / 5 + date.day - 1;
    let doe = yoe * 365 + yoe / 4 - yoe / 100 + doy;
    era * 146097 + doe
}

/// The weekday of a day number, Monday as zero through Sunday as six.
pub open spec fn spec_weekday_from_monday(dn: int) -> int {
    (dn + 2) % 7
}

/// The month and day of a day number, by the inverse of the civil
/// day-number computation. The two interior clamps never bind for day
/// numbers of real dates; they keep every intermediate value in range
/// so the result is always a month between 1 and 12 and a day of at
/// least 1.
pub open spec fn spec_month_day_of_day(dn: int) -> (int, int)
    recommends
        0 <= dn,
{
    let doe = dn % 146097;
    let lows = doe / 1460 + doe / 146096;
    let highs = doe + doe / 36524;
    let t = if highs >= lows {
        highs - lows
    } else {
        0
    };
    let yoe = t / 365;
    let sub = 365 * yoe + yoe / 4 - yoe / 100;
    let doy = if doe >= sub {
        doe - sub
    } else {
        0
    };
    let mp0 = (5 * doy + 2) / 153;
    let mp = if mp0 > 11 {
        11
    } else {
        mp0
    };
    let d = doy - (153 * mp + 2) / 5 + 1;
    let m = if mp < 10 {
        mp + 3
    } else {
        mp - 9
    };
    (m, d)
}

/// Parse a strict `YYYY-MM-DD` date string.
pub fn parse_iso_date(s: &str) -> (r: Option<Date>)
    ensures
        r == spec_parse_date(s@),
{
    let n = s.unicode_len();
    if n != 10 {
        return None;
    }
    if s.get_char(4) != '-' || s.get_char(7) != '-' {
        return None;
    }
    let mut digits: [u32; 8] = [0, 0, 0, 0, 0, 0, 0, 0];
    let positions: [usize; 8] = [0, 1, 2, 3, 5, 6, 8, 9];
    for k in 0..8
        invariant
            n == s@.len(),
            n == 10,
            positions == [0usize, 1, 2, 3, 5, 6, 8, 9],
            forall|j: int|
                0 <= j < k ==> spec_ascii_digit(s@[positions[j] as int]) == Some(digits[j]),
    {
        let c = s.get_char(positions[k]);
        let v = c as u32;
        if v < 48 || v > 57 {
            return None;
        }
        digits[k] = v - 48;
    }
    let y = digits[0] * 1000 + digits[1] * 100 + digits[2] * 10 + digits[3];
    let m = digits[4] * 10 + digits[5];
    let d = digits[6] * 10 + digits[7];
    if !valid_date(y, m, d) {
        return None;
    }
    Some(Date { year: y, month: m, day: d })
}

/// Whether a year is a leap year.
fn is_leap(y: u32) -> (r: bool)
    ensures
        r == spec_is_leap(y as int),
{
    y % 4 == 0 && (y % 100 != 0 || y % 400 == 0)
}

/// Whether the numbers name a real date of the calendar.
pub fn valid_date(y: u32, m: u32, d: u32) -> (r: bool)
    ensures
        r == spec_valid_date(y as int, m as int, d as int),
{
    if y > 9999 || m < 1 || m > 12 || d < 1 {
        return false;
    }
    let dim: u32 = if m == 2 {
        if is_leap(y) {
            29
        } else {
            28
        }
    } else if m == 4 || m == 6 || m == 9 || m == 11 {
        30
    } else {
        31
    };
    d <= dim
}

/// The day number of a date.
pub fn day_number(date: Date) -> (r: u32)
    requires
        spec_valid_date(date.year as int, date.month as int, date.day as int),
    ensures
        r == spec_day_number(date),
        7 <= r < 4000000,
{
    let y: u32 = date.year + 400;
    let y1: u32 = if date.month <= 2 {
        y - 1
    } else {
        y
    };
    let era: u32 = y1 / 400;
    let yoe: u32 = y1 - era * 400;
    let mp: u32 = if date.month >= 3 {
        date.month - 3
    } else {
        date.month + 9
    };
    let doy: u32 = (153 * mp + 2) / 5 + date.day - 1;
    let doe: u32 = yoe * 365 + yoe / 4 - yoe / 100 + doy;
    era * 146097 + doe
}

/// The weekday of a day number, Monday as zero.
pub fn weekday_from_monday(dn: u32) -> (r: u32)
    requires
        dn < 4000000,
    ensures
        r == spec_weekday_from_monday(dn as int),
        r < 7,
{
    (dn + 2) % 7
}

/// The month and day of a day number.
pub fn month_day_of_day(dn: u32) -> (r: (u32, u32))
    ensures
        (r.0 as int, r.1 as int) == spec_month_day_of_day(dn as int),
        1 <= r.0 <= 12,
        1 <= r.1,
{
    let doe: u32 = dn % 146097;
    let lows: u32 = doe / 1460 + doe / 146096;
    let highs: u32 = doe + doe / 36524;
    let t: u32 = if highs >= lows {
        highs - lows
    } else {
        0
    };
    let yoe: u32 = t / 365;
    let sub: u32 = 365 * yoe + yoe / 4 - yoe / 100;
    let doy: u32 = if doe >= sub {
        doe - sub
    } else {
        0
    };
    let mp0: u32 = (5 * doy + 2) / 153;
    let mp: u32 = if mp0 > 11 {
        11
    } else {
        mp0
    };
    let d: u32 = doy - (153 * mp + 2) / 5 + 1;
    let m: u32 = if mp < 10 {
        mp + 3
    } else {
        mp - 9
    };
    (m, d)
}

/// The three-letter month name.
pub open spec fn spec_month_name(m: int) -> Seq<char> {
    if m == 1 {
        "Jan"@
    } else if m == 2 {
        "Feb"@
    } else if m == 3 {
        "Mar"@
    } else if m == 4 {
        "Apr"@
    } else if m == 5 {
        "May"@
    } else if m == 6 {
        "Jun"@
    } else if m == 7 {
        "Jul"@
    } else if m == 8 {
        "Aug"@
    } else if m == 9 {
        "Sep"@
    } else if m == 10 {
        "Oct"@
    } else if m == 11 {
        "Nov"@
    } else {
        "Dec"@
    }
}

/// The short rendering of a day number: month name, a space, and the
/// day of the month.
pub open spec fn spec_format_month_day(dn: int) -> Seq<char> {
    let md = spec_month_day_of_day(dn);
    spec_month_name(md.0) + seq![' '] + spec_dec(md.1 as u32)
}

/// The three-letter month name.
fn month_name(m: u32) -> (r: &'static str)
    requires
        1 <= m <= 12,
    ensures
        r@ == spec_month_name(m as int),
{
    match m {
        1 => "Jan",
        2 => "Feb",
        3 => "Mar",
        4 => "Apr",
        5 => "May",
        6 => "Jun",
        7 => "Jul",
        8 => "Aug",
        9 => "Sep",
        10 => "Oct",
        11 => "Nov",
        _ => "Dec",
    }
}

/// Render a day number as its short month-and-day form.
pub fn format_month_day(dn: u32) -> (r: String)
    ensures
        r@ == spec_format_month_day(dn as int),
{
    let (m, d) = month_day_of_day(dn);
    let mut s = String::from_str(month_name(m));
    proof {
        reveal_strlit(" ");
    }
    s.append(" ");
    let digits = u32_to_string(d);
    s.append(digits.as_str());
    proof {
        assert(s@ =~= spec_format_month_day(dn as int));
    }
    s
}

} // verus!
