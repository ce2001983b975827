use datetime_parse::parse;
use datetime_parse::DateParts;
use datetime_parse::LocalClockContext;
use datetime_parse::TimeParts;

/// A fixed clock: 2023-06-15 12:00:00 at UTC+02:00.
fn ctx() -> LocalClockContext {
    LocalClockContext {
        date: DateParts { year: 2023, month: 6, day: 15 },
        time: TimeParts { hour: 12, minute: 0, second: 0, nanosecond: 0 },
        offset_seconds: 7200,
    }
}

#[test]
fn test_dotted_date() {
    let date = "1970.12.31";
    let test = parse(date, &ctx());
    assert!(test.is_ok());
    assert!(test.unwrap().to_rfc3339().starts_with("1970-12-31T00:00:00"));
}

#[test]
fn test_slash_date() {
    let date = "1970/12/31";
    let test = parse(date, &ctx());
    assert!(test.is_ok());
    assert!(test.unwrap().to_rfc3339().starts_with("1970-12-31T00:00:00"));
}

#[test]
fn test_epoch_seconds() {
    let date = "1672903639";
    let test = parse(date, &ctx());
    assert!(test.is_ok());
    assert!(test.unwrap().to_rfc3339().starts_with("2023-01-05T07:27:19"));
}

#[test]
fn test_epoch_milliseconds() {
    let date = "1672903639123";
    let test = parse(date, &ctx());
    assert!(test.is_ok());
    assert!(test.unwrap().to_rfc3339().starts_with("2023-01-05T07:27:19.123"));
}

#[test]
fn test_epoch_microseconds() {
    let date = "1672903639123123";
    let test = parse(date, &ctx());
    assert!(test.is_ok());
    assert!(test.unwrap().to_rfc3339().starts_with("2023-01-05T07:27:19.123123"));
}

#[test]
fn test_epoch_nanoseconds() {
    let date = "1672903639123123123";
    let test = parse(date, &ctx());
    assert!(test.is_ok());
    assert!(test.unwrap().to_rfc3339().starts_with("2023-01-05T07:27:19.123123123"));
}

#[test]
fn test_m_d_yyyy_h_m_s_tt() {
    let date = "8/7/2023 8:23:50 AM";
    let test = parse(date, &ctx());
    assert!(test.is_ok());
    assert!(test.unwrap().to_rfc3339().starts_with("2023-08-07T08:23:50+02:00"));
}

#[test]
fn test_dotted_equals_slash() {
    let a = parse("1970.12.31", &ctx()).unwrap();
    let b = parse("1970/12/31", &ctx()).unwrap();
    assert_eq!(a, b);
}

#[test]
fn test_dotted_date_uses_clock_offset() {
    let r = parse("1970.12.31", &ctx()).unwrap();
    assert_eq!(r.offset_seconds, 7200);
    assert_eq!(r.to_rfc3339(), "1970-12-31T00:00:00+02:00");
}

#[test]
fn test_rfc3339_round_trip() {
    let s = "2021-03-04T05:06:07.123456789+05:30";
    let r = parse(s, &ctx()).unwrap();
    assert_eq!(r.to_rfc3339(), s);
    assert_eq!(r.date.year, 2021);
    assert_eq!(r.time.nanosecond, 123_456_789);
    assert_eq!(r.offset_seconds, 5 * 3600 + 30 * 60);
}

#[test]
fn test_rfc3339_zulu() {
    let r = parse("1999-12-31T23:59:59Z", &ctx()).unwrap();
    assert_eq!(r.to_rfc3339(), "1999-12-31T23:59:59+00:00");
    assert_eq!(r.offset_seconds, 0);
}

#[test]
fn test_rfc2822_strict() {
    let r = parse("Tue, 1 Jul 2003 10:52:37 +0200", &ctx()).unwrap();
    assert_eq!(r.to_rfc3339(), "2003-07-01T10:52:37+02:00");
}

#[test]
fn test_alpha_timezone_rfc2822_named_zone() {
    let r = parse("Mon, 6 Jul 1970 15:30:00 PDT", &ctx()).unwrap();
    assert_eq!(r.to_rfc3339(), "1970-07-06T15:30:00-07:00");
}

#[test]
fn test_alpha_timezone_ymd_hms() {
    let r = parse("1970-12-25 16:16:16 PST", &ctx()).unwrap();
    assert_eq!(r.to_rfc3339(), "1970-12-25T16:16:16-08:00");
}

#[test]
fn test_alpha_timezone_time_only() {
    let r = parse("15:30:00 PST", &ctx()).unwrap();
    assert_eq!(r.to_rfc3339(), "2023-06-15T15:30:00-08:00");
}

#[test]
fn test_alpha_timezone_lowercase_utc_alias() {
    let r = parse("15:30:00 utc", &ctx()).unwrap();
    assert_eq!(r.to_rfc3339(), "2023-06-15T15:30:00+00:00");
}

#[test]
fn test_unknown_timezone_fails_closed() {
    let r = parse("1970-12-25 16:16:16 XYZ", &ctx());
    assert!(r.is_err());
}

#[test]
fn test_day_month_year_date_only() {
    let r = parse("12 February 2021", &ctx()).unwrap();
    assert_eq!(r.to_rfc3339(), "2021-02-12T00:00:00+02:00");
}

#[test]
fn test_time_only_hms() {
    let r = parse("08:09:10", &ctx()).unwrap();
    assert_eq!(r.to_rfc3339(), "2023-06-15T08:09:10+02:00");
}

#[test]
fn test_time_only_twelve_hour() {
    let r = parse("8:09 pm", &ctx()).unwrap();
    assert_eq!(r.to_rfc3339(), "2023-06-15T20:09:00+02:00");
}

#[test]
fn test_brute_force_month_day() {
    let r = parse("Feb 12", &ctx()).unwrap();
    assert_eq!(r.to_rfc3339(), "2023-02-12T00:00:00+02:00");
}

#[test]
fn test_brute_force_day_month() {
    let r = parse("12 Feb", &ctx()).unwrap();
    assert_eq!(r.to_rfc3339(), "2023-02-12T00:00:00+02:00");
}

#[test]
fn test_brute_force_month_day_time() {
    let r = parse("Feb 12 14:00:01", &ctx()).unwrap();
    assert_eq!(r.to_rfc3339(), "2023-02-12T14:00:01+02:00");
}

#[test]
fn test_brute_force_month_day_meridiem() {
    let r = parse("Feb 12 3:33 pm", &ctx()).unwrap();
    assert_eq!(r.to_rfc3339(), "2023-02-12T15:33:00+02:00");
}

#[test]
fn test_failure_has_diagnostic() {
    let r = parse("not a date", &ctx());
    match r {
        Ok(_) => panic!("expected a failure"),
        Err(e) => assert!(!e.message.is_empty()),
    }
}

#[test]
fn test_strict_template_beats_token_heuristic() {
    // Four whitespace tokens with an alphabetic first token: the layout the
    // brute-force stage would claim.  The explicit offset makes it a strict
    // match, which must win: the year stays 2022, not the clock's 2023.
    let r = parse("Jul 4 2022 10:00:00.5+0000", &ctx()).unwrap();
    assert_eq!(r.to_rfc3339(), "2022-07-04T10:00:00.000000005+00:00");
}

#[test]
fn test_serialize_reparse_identity() {
    // The round-trip law on concrete values: the canonical text of a parse
    // result re-parses to the identical instant and offset.
    let inputs = ["Mon, 6 Jul 1970 15:30:00 PDT", "8/7/2023 8:23:50 AM", "1672903639123", "Feb 12"];
    for input in inputs {
        let first = parse(input, &ctx()).unwrap();
        let again = parse(&first.to_rfc3339(), &ctx()).unwrap();
        assert_eq!(first, again);
    }
}

#[test]
fn test_leap_day_valid() {
    let r = parse("2020-02-29", &ctx()).unwrap();
    assert_eq!(r.to_rfc3339(), "2020-02-29T00:00:00+02:00");
}

#[test]
fn test_non_leap_day_rejected() {
    assert!(parse("2021-02-29", &ctx()).is_err());
}

#[test]
fn test_empty_input_fails() {
    assert!(parse("", &ctx()).is_err());
}
