//! The trusted boundary to the calendar primitive (the `chrono` crate).
//!
//! Each wrapper makes exactly one call and converts the outcome to plain
//! fields.  A parse is a pure function of its text (and format), so each
//! result is given a name that the contracts of the cascade speak through;
//! nothing else is assumed of it beyond the field ranges that the crate
//! documents, and — for the strict RFC 3339 entry point alone — that texts
//! accepted by the strict grammar of `crate::rfc3339` parse to exactly the
//! fields written in them.

use crate::model::valid_date;
use crate::model::valid_time;
use crate::model::DateParts;
use crate::model::DateTimeFixedOffset;
use crate::model::NaiveFields;
use crate::model::TimeParts;
use crate::rfc3339::is_valid_rfc3339;
use crate::rfc3339::rfc3339_value;
use chrono::Datelike;
use chrono::Timelike;
use vstd::prelude::*;

verus! {

/// Field ranges that the calendar primitive documents for a date value.
pub open spec fn fields_date_ok(d: DateParts) -> bool {
    valid_date(d)
}

/// Field ranges that the calendar primitive documents for a date-and-time
/// value.
pub open spec fn fields_naive_ok(f: NaiveFields) -> bool {
    valid_date(f.date) && valid_time(f.time)
}

/// Field ranges documented for an offset-carrying value: a real instant and
/// a sub-day offset.
pub open spec fn fields_fixed_ok(v: DateTimeFixedOffset) -> bool {
    valid_date(v.date) && valid_time(v.time) && -86399 <= v.offset_seconds <= 86399
}

/// What the strict RFC 3339 parse returns on a given text.
pub uninterp spec fn rfc3339_parsed(s: Seq<char>) -> Option<DateTimeFixedOffset>;

/// What the RFC 2822 parse returns on a given text.
pub uninterp spec fn rfc2822_parsed(s: Seq<char>) -> Option<DateTimeFixedOffset>;

/// What the offset-carrying format-template parse returns on a given text
/// and format.
pub uninterp spec fn format_parsed(s: Seq<char>, fmt: Seq<char>) -> Option<DateTimeFixedOffset>;

/// What the naive date-and-time format-template parse returns.
pub uninterp spec fn naive_datetime_parsed(s: Seq<char>, fmt: Seq<char>) -> Option<NaiveFields>;

/// What the date-only format-template parse returns.
pub uninterp spec fn naive_date_parsed(s: Seq<char>, fmt: Seq<char>) -> Option<DateParts>;

/// What the time-only format-template parse returns.
pub uninterp spec fn naive_time_parsed(s: Seq<char>, fmt: Seq<char>) -> Option<TimeParts>;

/// The civil UTC date and time of an epoch-second count.
pub uninterp spec fn epoch_civil(secs: int) -> Option<NaiveFields>;

/// Relies on chrono's `DateTime::parse_from_rfc3339`: a pure parse whose
/// accessors yield documented field ranges, and which accepts every text of
/// the strict grammar in `crate::rfc3339`, returning the fields written
/// there.
#[verifier::external_body]
pub fn parse_rfc3339_text(s: &Vec<char>) -> (r: Option<DateTimeFixedOffset>)
    ensures
        r == rfc3339_parsed(s@),
        r is Some ==> fields_fixed_ok(r->Some_0),
        is_valid_rfc3339(s@) ==> r == Some(rfc3339_value(s@)),
{
    let text: String = s.iter().collect();
    match chrono::DateTime::parse_from_rfc3339(&text) {
        Ok(d) => Some(DateTimeFixedOffset {
            date: DateParts { year: d.year(), month: d.month(), day: d.day() },
            time: TimeParts {
                hour: d.hour(), minute: d.minute(), second: d.second(), nanosecond: d.nanosecond(),
            },
            offset_seconds: d.offset().local_minus_utc(),
        }),
        Err(_) => None,
    }
}

/// Relies on chrono's `DateTime::parse_from_rfc2822`: a pure parse (its
/// alphabetic-zone table is fixed) whose accessors yield documented field
/// ranges.
#[verifier::external_body]
pub fn parse_rfc2822_text(s: &Vec<char>) -> (r: Option<DateTimeFixedOffset>)
    ensures
        r == rfc2822_parsed(s@),
        r is Some ==> fields_fixed_ok(r->Some_0),
{
    let text: String = s.iter().collect();
    match chrono::DateTime::parse_from_rfc2822(&text) {
        Ok(d) => Some(DateTimeFixedOffset {
            date: DateParts { year: d.year(), month: d.month(), day: d.day() },
            time: TimeParts {
                hour: d.hour(), minute: d.minute(), second: d.second(), nanosecond: d.nanosecond(),
            },
            offset_seconds: d.offset().local_minus_utc(),
        }),
        Err(_) => None,
    }
}

/// Relies on chrono's `DateTime::parse_from_str`: a pure parse of text
/// against a format template that must pin down an instant and an offset;
/// accessors yield documented field ranges.
#[verifier::external_body]
pub fn parse_fixed_format(s: &Vec<char>, fmt: &str) -> (r: Option<DateTimeFixedOffset>)
    ensures
        r == format_parsed(s@, fmt@),
        r is Some ==> fields_fixed_ok(r->Some_0),
{
    let text: String = s.iter().collect();
    match chrono::DateTime::parse_from_str(&text, fmt) {
        Ok(d) => Some(DateTimeFixedOffset {
            date: DateParts { year: d.year(), month: d.month(), day: d.day() },
            time: TimeParts {
                hour: d.hour(), minute: d.minute(), second: d.second(), nanosecond: d.nanosecond(),
            },
            offset_seconds: d.offset().local_minus_utc(),
        }),
        Err(_) => None,
    }
}

/// Relies on chrono's `NaiveDateTime::parse_from_str`: a pure parse of text
/// against a format template; accessors yield documented field ranges.
#[verifier::external_body]
pub fn parse_naive_datetime(s: &Vec<char>, fmt: &str) -> (r: Option<NaiveFields>)
    ensures
        r == naive_datetime_parsed(s@, fmt@),
        r is Some ==> fields_naive_ok(r->Some_0),
{
    let text: String = s.iter().collect();
    match chrono::NaiveDateTime::parse_from_str(&text, fmt) {
        Ok(d) => Some(NaiveFields {
            date: DateParts { year: d.year(), month: d.month(), day: d.day() },
            time: TimeParts {
                hour: d.hour(), minute: d.minute(), second: d.second(), nanosecond: d.nanosecond(),
            },
        }),
        Err(_) => None,
    }
}

/// Relies on chrono's `NaiveDate::parse_from_str`: a pure parse of text
/// against a format template; the result is a real calendar date.
#[verifier::external_body]
pub fn parse_naive_date(s: &Vec<char>, fmt: &str) -> (r: Option<DateParts>)
    ensures
        r == naive_date_parsed(s@, fmt@),
        r is Some ==> fields_date_ok(r->Some_0),
{
    let text: String = s.iter().collect();
    match chrono::NaiveDate::parse_from_str(&text, fmt) {
        Ok(d) => Some(DateParts { year: d.year(), month: d.month(), day: d.day() }),
        Err(_) => None,
    }
}

/// Relies on chrono's `NaiveTime::parse_from_str`: a pure parse of text
/// against a format template; accessors yield documented field ranges.
#[verifier::external_body]
pub fn parse_naive_time(s: &Vec<char>, fmt: &str) -> (r: Option<TimeParts>)
    ensures
        r == naive_time_parsed(s@, fmt@),
        r is Some ==> valid_time(r->Some_0),
{
    let text: String = s.iter().collect();
    match chrono::NaiveTime::parse_from_str(&text, fmt) {
        Ok(t) => Some(TimeParts {
            hour: t.hour(), minute: t.minute(), second: t.second(), nanosecond: t.nanosecond(),
        }),
        Err(_) => None,
    }
}

/// Relies on chrono's `DateTime::from_timestamp` with zero sub-seconds: the
/// civil UTC fields of an epoch-second count, `None` outside the primitive's
/// representable range; no sub-second and no leap second can come back.
#[verifier::external_body]
pub fn civil_from_epoch(secs: i64) -> (r: Option<NaiveFields>)
    ensures
        r == epoch_civil(secs as int),
        r is Some ==> fields_naive_ok(r->Some_0) && r->Some_0.time.nanosecond == 0,
{
    match chrono::DateTime::from_timestamp(secs, 0) {
        Some(d) => Some(NaiveFields {
            date: DateParts { year: d.year(), month: d.month(), day: d.day() },
            time: TimeParts {
                hour: d.hour(), minute: d.minute(), second: d.second(), nanosecond: d.nanosecond(),
            },
        }),
        None => None,
    }
}

} // verus!
