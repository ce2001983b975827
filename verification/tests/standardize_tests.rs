use datetime_parse::is_tz_alpha;
use datetime_parse::standardize_date;

#[test]
fn test_standardize_separator_insensitivity() {
    let a = standardize_date("1970.12.31");
    let b = standardize_date("1970/12/31");
    let c = standardize_date("1970-12-31");
    assert_eq!(a, b);
    assert_eq!(b, c);
    assert_eq!(c, "1970-12-31");
}

#[test]
fn test_standardize_only_first_eight_characters() {
    assert_eq!(standardize_date("2020-01-01.extra"), "2020-01-01.extra");
    assert_eq!(standardize_date("12/13/2000 12:12:12.14"), "12-13-2000 12:12:12.14");
}

#[test]
fn test_standardize_utc_aliases() {
    assert_eq!(standardize_date("2020-01-01 12:00:00 UTC"), "2020-01-01 12:00:00 GMT");
    assert_eq!(standardize_date("2020-01-01 12:00:00 UT"), "2020-01-01 12:00:00 GMT");
    assert_eq!(standardize_date("2020-01-01 12:00:00 GMT"), "2020-01-01 12:00:00 GMT");
}

#[test]
fn test_tz_split_alphabetic_token() {
    let r = is_tz_alpha("1970-12-25 16:16 PST");
    let (dt, tz) = r.expect("split expected");
    assert_eq!(dt, "1970-12-25 16:16");
    assert_eq!(tz, "PST");
}

#[test]
fn test_tz_split_rejects_numeric_offset() {
    assert!(is_tz_alpha("1970-12-25 16:16 +0500").is_none());
}

#[test]
fn test_tz_split_single_token() {
    let r = is_tz_alpha("PDT");
    let (dt, tz) = r.expect("split expected");
    assert_eq!(dt, "");
    assert_eq!(tz, "PDT");
}
