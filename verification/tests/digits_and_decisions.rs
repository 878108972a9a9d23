use wren_session::digits::check_digits;
use wren_session::digits::format_usize;
use wren_session::limit::decide_limit;
use wren_session::limit::digits_exceed;
use wren_session::limit::LimitClause;

#[test]
fn formatting_exact_values() {
    assert_eq!(format_usize(0), "0");
    assert_eq!(format_usize(7), "7");
    assert_eq!(format_usize(10), "10");
    assert_eq!(format_usize(100), "100");
    assert_eq!(format_usize(65535), "65535");
}

#[test]
fn digit_checking() {
    assert!(check_digits("0"));
    assert!(check_digits("00500"));
    assert!(!check_digits(""));
    assert!(!check_digits("12a"));
    assert!(!check_digits("1.5"));
    assert!(!check_digits("-1"));
}

#[test]
fn exceeding_the_ceiling() {
    assert!(digits_exceed("500", 100));
    assert!(!digits_exceed("50", 100));
    assert!(!digits_exceed("100", 100));
    assert!(digits_exceed("99999999999999999999999999999999", 100));
    assert!(!digits_exceed("1.5", 0));
    assert!(!digits_exceed("", 0));
}

#[test]
fn decision_injects_ceiling_when_absent() {
    let r = decide_limit(&LimitClause::Absent, 100);
    assert_eq!(r, Some(("100".to_string(), false)));
}

#[test]
fn decision_replaces_large_literal() {
    let cur = LimitClause::Number { digits: "500".to_string(), long: true };
    let r = decide_limit(&cur, 100);
    assert_eq!(r, Some(("100".to_string(), true)));
}

#[test]
fn decision_keeps_small_literal() {
    let cur = LimitClause::Number { digits: "50".to_string(), long: false };
    assert_eq!(decide_limit(&cur, 100), None);
}

#[test]
fn decision_keeps_non_literal() {
    assert_eq!(decide_limit(&LimitClause::Other, 0), None);
}
