//! The data model: plain-field calendar values, the normalized result type,
//! the caller-supplied local clock, and the terminal parse failure.

use crate::chars_util::pad2;
use crate::chars_util::pad3;
use crate::chars_util::pad4;
use crate::chars_util::push_pad2;
use crate::chars_util::push_pad3;
use crate::chars_util::push_pad4;
use crate::chars_util::string_from_chars;
use vstd::prelude::*;

verus! {

/// A calendar date broken into plain fields.
#[derive(Clone, Copy, Debug, PartialEq, Eq, Structural)]
pub struct DateParts {
    pub year: i32,
    pub month: u32,
    pub day: u32,
}

/// A time of day broken into plain fields, with sub-second precision.
#[derive(Clone, Copy, Debug, PartialEq, Eq, Structural)]
pub struct TimeParts {
    pub hour: u32,
    pub minute: u32,
    pub second: u32,
    pub nanosecond: u32,
}

/// A wall-clock date and time as read from the text, not yet paired with an
/// offset.
#[derive(Clone, Copy, Debug, PartialEq, Eq, Structural)]
pub struct NaiveFields {
    pub date: DateParts,
    pub time: TimeParts,
}

/// The normalized result: a calendar instant together with a fixed, signed
/// UTC offset in seconds.
#[derive(Clone, Copy, Debug, PartialEq, Eq, Structural)]
pub struct DateTimeFixedOffset {
    pub date: DateParts,
    pub time: TimeParts,
    pub offset_seconds: i32,
}

/// The caller's current local date, time and UTC offset.  It is consumed,
/// never mutated, by the strategies that must fill in a missing field.
#[derive(Clone, Copy, Debug, PartialEq, Eq, Structural)]
pub struct LocalClockContext {
    pub date: DateParts,
    pub time: TimeParts,
    pub offset_seconds: i32,
}

/// The single terminal failure of the cascade, carrying a human-readable
/// diagnostic.
#[derive(Clone, Debug)]
pub struct ParseFailure {
    pub message: String,
}

/// Gregorian leap-year rule.
pub open spec fn is_leap_year(y: int) -> bool {
    y % 4 == 0 && (y % 100 != 0 || y % 400 == 0)
}

/// Number of days in month `m` of year `y` (months counted from 1).
pub open spec fn days_in_month(y: int, m: int) -> int {
    if m == 2 {
        if is_leap_year(y) {
            29
        } else {
            28
        }
    } else if m == 4 || m == 6 || m == 9 || m == 11 {
        30
    } else {
        31
    }
}

/// A real calendar date: month in range and day within the month.
pub open spec fn valid_date(d: DateParts) -> bool {
    &&& 1 <= d.month <= 12
    &&& 1 <= d.day <= days_in_month(d.year as int, d.month as int)
}

/// A real time of day.  Nanoseconds up to (but excluding) two billion leave
/// room for the leap-second representation of the calendar primitives.
pub open spec fn valid_time(t: TimeParts) -> bool {
    &&& t.hour <= 23
    &&& t.minute <= 59
    &&& t.second <= 59
    &&& t.nanosecond <= 1_999_999_999
}

impl DateTimeFixedOffset {
    /// The invariant of every parse result: a real calendar instant in the
    /// four-digit-year era, and a finite whole-minute offset within a day.
    pub open spec fn wf(self) -> bool {
        &&& valid_date(self.date)
        &&& 0 <= self.date.year <= 9999
        &&& valid_time(self.time)
        &&& -86399 <= self.offset_seconds <= 86399
        &&& self.offset_seconds % 60 == 0
    }
}

/// The canonical fraction: empty for a whole second, else a dot and three,
/// six or nine digits, using the shortest of those that loses nothing.
pub open spec fn frac_part(n: int) -> Seq<char> {
    if n == 0 {
        Seq::<char>::empty()
    } else if n % 1_000_000 == 0 {
        seq!['.'] + pad3(n / 1_000_000)
    } else if n % 1_000 == 0 {
        seq!['.'] + pad3(n / 1_000_000) + pad3((n / 1_000) % 1_000)
    } else {
        seq!['.'] + pad3(n / 1_000_000) + pad3((n / 1_000) % 1_000) + pad3(n % 1_000)
    }
}

/// The canonical offset tail: a sign and `HH:MM`.
pub open spec fn offset_part(off: int) -> Seq<char> {
    let a = if off < 0 {
        -off
    } else {
        off
    };
    let sign = if off < 0 {
        '-'
    } else {
        '+'
    };
    seq![sign] + pad2(a / 3600) + seq![':'] + pad2((a % 3600) / 60)
}

impl DateTimeFixedOffset {
    /// The canonical RFC 3339 text of this instant.  A leap second, carried
    /// as a nanosecond overflow by the calendar primitives, is written back
    /// as second sixty.
    pub open spec fn canonical_seq(self) -> Seq<char> {
        let sec_eff = if self.time.nanosecond >= 1_000_000_000 {
            self.time.second + 1
        } else {
            self.time.second as int
        };
        let nano_eff = if self.time.nanosecond >= 1_000_000_000 {
            self.time.nanosecond - 1_000_000_000
        } else {
            self.time.nanosecond as int
        };
        pad4(self.date.year as int) + seq!['-'] + pad2(self.date.month as int) + seq!['-'] + pad2(
            self.date.day as int,
        ) + seq!['T'] + pad2(self.time.hour as int) + seq![':'] + pad2(self.time.minute as int)
            + seq![':'] + pad2(sec_eff) + frac_part(nano_eff) + offset_part(
            self.offset_seconds as int,
        )
    }

    /// Serializes this instant in its canonical RFC 3339 form.
    #[verifier::rlimit(100)]
    pub fn to_rfc3339(&self) -> (r: String)
        requires
            self.wf(),
        ensures
            r@ == self.canonical_seq(),
    {
        let mut v: Vec<char> = Vec::new();
        push_pad4(&mut v, self.date.year as u32);
        v.push('-');
        push_pad2(&mut v, self.date.month);
        v.push('-');
        push_pad2(&mut v, self.date.day);
        v.push('T');
        push_pad2(&mut v, self.time.hour);
        v.push(':');
        push_pad2(&mut v, self.time.minute);
        v.push(':');
        let (se, ne): (u32, u32) = if self.time.nanosecond >= 1_000_000_000 {
            (self.time.second + 1, self.time.nanosecond - 1_000_000_000)
        } else {
            (self.time.second, self.time.nanosecond)
        };
        push_pad2(&mut v, se);
        if ne != 0 {
            v.push('.');
            if ne % 1_000_000 == 0 {
                push_pad3(&mut v, ne / 1_000_000);
            } else if ne % 1_000 == 0 {
                push_pad3(&mut v, ne / 1_000_000);
                push_pad3(&mut v, (ne / 1_000) % 1_000);
            } else {
                push_pad3(&mut v, ne / 1_000_000);
                push_pad3(&mut v, (ne / 1_000) % 1_000);
                push_pad3(&mut v, ne % 1_000);
            }
        }
        let off = self.offset_seconds;
        let (sign, a): (char, u32) = if off < 0 {
            ('-', (-off) as u32)
        } else {
            ('+', off as u32)
        };
        v.push(sign);
        push_pad2(&mut v, a / 3600);
        v.push(':');
        push_pad2(&mut v, (a % 3600) / 60);
        assert(v@ =~= self.canonical_seq());
        string_from_chars(&v)
    }
}

impl LocalClockContext {
    /// What the cascade assumes of the caller's clock: a real date and time
    /// in the four-digit-year era and a whole-minute, day-scale offset.
    pub open spec fn wf(self) -> bool {
        &&& valid_date(self.date)
        &&& 0 <= self.date.year <= 9999
        &&& valid_time(self.time)
        &&& -86399 <= self.offset_seconds <= 86399
        &&& self.offset_seconds % 60 == 0
    }
}

} // verus!
