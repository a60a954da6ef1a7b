use pam_aws_sts::logging::{parse_facility, parse_level, LogLevel, SyslogFacility};
use pam_aws_sts::text::{push_decimal, push_signed_decimal, same_text, split_char, strip_prefix};

#[test]
fn split_matches_std() {
    for (s, sep) in [("a:b::c", ':'), ("", ':'), (":", ':'), ("abc", '/'), ("/x/", '/')] {
        let expected: Vec<String> = s.split(sep).map(|p| p.to_string()).collect();
        assert_eq!(split_char(s, sep), expected);
    }
}

#[test]
fn prefixes() {
    assert_eq!(strip_prefix("role/Admin", "role/"), Some("Admin"));
    assert_eq!(strip_prefix("rol", "role/"), None);
    assert_eq!(strip_prefix("user/x", "role/"), None);
    assert!(same_text("é", "é"));
    assert!(!same_text("a", "ab"));
}

#[test]
fn decimals() {
    let mut s = String::from("n=");
    push_decimal(&mut s, 0);
    assert_eq!(s, "n=0");
    let mut s = String::new();
    push_decimal(&mut s, u128::MAX);
    assert_eq!(s, u128::MAX.to_string());
    let mut s = String::new();
    push_signed_decimal(&mut s, i128::MIN);
    assert_eq!(s, i128::MIN.to_string());
    let mut s = String::new();
    push_signed_decimal(&mut s, -42);
    assert_eq!(s, "-42");
}

#[test]
fn levels_and_facilities() {
    assert_eq!(parse_level("ERROR"), LogLevel::Error);
    assert_eq!(parse_level("Warning"), LogLevel::Warn);
    assert_eq!(parse_level("warn"), LogLevel::Warn);
    assert_eq!(parse_level("debug"), LogLevel::Debug);
    assert_eq!(parse_level("TRACE"), LogLevel::Trace);
    assert_eq!(parse_level("loud"), LogLevel::Info);
    assert_eq!(parse_facility("AuthPriv"), SyslogFacility::Auth);
    assert_eq!(parse_facility("local7"), SyslogFacility::Local7);
    assert_eq!(parse_facility("DAEMON"), SyslogFacility::Daemon);
    assert_eq!(parse_facility("mail"), SyslogFacility::Auth);
}
