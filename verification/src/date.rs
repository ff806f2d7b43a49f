use vstd::prelude::*;

verus! {

/// A calendar date, kept as plain year/month/day numbers.
///
/// The store never interprets a date; it only carries them. The validator
/// produces dates through `parse_date_or_default`, which yields either the
/// date written in the input or the sentinel `1970-01-01`.
#[derive(Clone, Copy, PartialEq, Eq, Structural, Debug)]
pub struct Date {
    pub year: u32,
    pub month: u32,
    pub day: u32,
}

/// The fixed fallback substituted for unparsable date input.
pub open spec fn spec_sentinel() -> Date {
    Date { year: 1970, month: 1, day: 1 }
}

pub open spec fn spec_is_leap_year(y: u32) -> bool {
    y % 4 == 0 && (y % 100 != 0 || y % 400 == 0)
}

pub open spec fn spec_days_in_month(y: u32, m: u32) -> u32 {
    if m == 1 || m == 3 || m == 5 || m == 7 || m == 8 || m == 10 || m == 12 {
        31
    } else if m == 4 || m == 6 || m == 9 || m == 11 {
        30
    } else if spec_is_leap_year(y) {
        29
    } else {
        28
    }
}

/// A date is valid when it names a day that exists in the proleptic
/// Gregorian calendar.
pub open spec fn spec_valid_date(d: Date) -> bool {
    1 <= d.month <= 12 && 1 <= d.day <= spec_days_in_month(d.year, d.month)
}

/// Lexicographic order on (year, month, day).
pub open spec fn spec_date_le(a: Date, b: Date) -> bool {
    if a.year != b.year {
        a.year < b.year
    } else if a.month != b.month {
        a.month < b.month
    } else {
        a.day <= b.day
    }
}

pub open spec fn spec_is_digit(c: char) -> bool {
    '0' <= c && c <= '9'
}

pub open spec fn spec_digit(c: char) -> int {
    c as int - '0' as int
}

/// The input has the shape `YYYY-MM-DD`: ten characters, digits in the
/// number positions, dashes between the groups.
pub open spec fn spec_date_text_wf(s: Seq<char>) -> bool {
    &&& s.len() == 10
    &&& spec_is_digit(s[0])
    &&& spec_is_digit(s[1])
    &&& spec_is_digit(s[2])
    &&& spec_is_digit(s[3])
    &&& s[4] == '-'
    &&& spec_is_digit(s[5])
    &&& spec_is_digit(s[6])
    &&& s[7] == '-'
    &&& spec_is_digit(s[8])
    &&& spec_is_digit(s[9])
}

/// The date the digit groups spell (meaningful when `spec_date_text_wf`
/// holds).
pub open spec fn spec_date_of(s: Seq<char>) -> Date {
    Date {
        year: (spec_digit(s[0]) * 1000 + spec_digit(s[1]) * 100 + spec_digit(s[2]) * 10
            + spec_digit(s[3])) as u32,
        month: (spec_digit(s[5]) * 10 + spec_digit(s[6])) as u32,
        day: (spec_digit(s[8]) * 10 + spec_digit(s[9])) as u32,
    }
}

/// The date-coercion policy: input of the shape `YYYY-MM-DD` naming a day
/// that exists yields that day; everything else yields the sentinel
/// `1970-01-01`. Malformed dates are never an error.
pub open spec fn spec_parse_date_or_default(s: Seq<char>) -> Date {
    if spec_date_text_wf(s) && spec_valid_date(spec_date_of(s)) {
        spec_date_of(s)
    } else {
        spec_sentinel()
    }
}

fn is_digit(c: char) -> (b: bool)
    ensures
        b == spec_is_digit(c),
{
    '0' <= c && c <= '9'
}

fn digit(c: char) -> (v: u32)
    requires
        spec_is_digit(c),
    ensures
        v == spec_digit(c),
        v <= 9,
{
    c as u32 - 48
}

impl Date {
    /// The fallback date stored when date input cannot be parsed.
    pub fn sentinel() -> (d: Date)
        ensures
            d == spec_sentinel(),
    {
        Date { year: 1970, month: 1, day: 1 }
    }

    pub fn valid(&self) -> (b: bool)
        ensures
            b == spec_valid_date(*self),
    {
        let days = if self.month == 1 || self.month == 3 || self.month == 5 || self.month == 7
            || self.month == 8 || self.month == 10 || self.month == 12 {
            31
        } else if self.month == 4 || self.month == 6 || self.month == 9 || self.month == 11 {
            30
        } else if self.year % 4 == 0 && (self.year % 100 != 0 || self.year % 400 == 0) {
            29
        } else {
            28
        };
        1 <= self.month && self.month <= 12 && 1 <= self.day && self.day <= days
    }

    /// Reads a date written as `YYYY-MM-DD`. Anything else — wrong shape,
    /// or a day that does not exist in the calendar — falls back to the
    /// sentinel date instead of failing.
    pub fn parse_or_default(s: &str) -> (d: Date)
        ensures
            d == spec_parse_date_or_default(s@),
    {
        let n = s.unicode_len();
        if n != 10 {
            return Date::sentinel();
        }
        let c0 = s.get_char(0);
        let c1 = s.get_char(1);
        let c2 = s.get_char(2);
        let c3 = s.get_char(3);
        let c4 = s.get_char(4);
        let c5 = s.get_char(5);
        let c6 = s.get_char(6);
        let c7 = s.get_char(7);
        let c8 = s.get_char(8);
        let c9 = s.get_char(9);
        let shape_ok = c4 == '-' && c7 == '-' && is_digit(c0) && is_digit(c1) && is_digit(c2)
            && is_digit(c3) && is_digit(c5) && is_digit(c6) && is_digit(c8) && is_digit(c9);
        if !shape_ok {
            return Date::sentinel();
        }
        let d = Date {
            year: digit(c0) * 1000 + digit(c1) * 100 + digit(c2) * 10 + digit(c3),
            month: digit(c5) * 10 + digit(c6),
            day: digit(c8) * 10 + digit(c9),
        };
        if d.valid() {
            d
        } else {
            Date::sentinel()
        }
    }

    /// `self` is on or before `other`.
    pub fn le(&self, other: &Date) -> (b: bool)
        ensures
            b == spec_date_le(*self, *other),
    {
        if self.year != other.year {
            self.year < other.year
        } else if self.month != other.month {
            self.month < other.month
        } else {
            self.day <= other.day
        }
    }
}

} // verus!
