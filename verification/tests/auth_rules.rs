use cues::auth::{jwt_expired, login_id_is_email, trim_quote_marks};
use cues::cli::Priority;
use cues::types::{Config, PriorityType};

#[test]
fn expiry_before_now_is_expired() {
    let expiry = "2025-06-10T12:00:00+00:00";
    let ts = chrono::DateTime::parse_from_rfc3339(expiry).unwrap().timestamp();
    assert!(jwt_expired(expiry, ts + 1, 0));
    assert!(!jwt_expired(expiry, ts - 1, 0));
    // The very instant of expiry does not yet count as expired.
    assert!(!jwt_expired(expiry, ts, 0));
    assert!(jwt_expired(expiry, ts, 1));
}

#[test]
fn unreadable_expiry_counts_as_expired() {
    assert!(jwt_expired("", 0, 0));
    assert!(jwt_expired("soon", 0, 0));
    assert!(jwt_expired("2025-06-10 12:00:00", 0, 0));
}

#[test]
fn expiry_with_offset_compares_as_an_instant() {
    // The same instant written in two zones expires at the same time.
    let utc = "2025-06-10T12:00:00+00:00";
    let east = "2025-06-10T17:30:00+05:30";
    let ts = chrono::DateTime::parse_from_rfc3339(utc).unwrap().timestamp();
    assert_eq!(jwt_expired(utc, ts + 1, 0), jwt_expired(east, ts + 1, 0));
    assert_eq!(jwt_expired(utc, ts - 1, 0), jwt_expired(east, ts - 1, 0));
}

#[test]
fn quote_marks_are_trimmed_from_both_ends() {
    assert_eq!(trim_quote_marks("\"abc\""), "abc");
    assert_eq!(trim_quote_marks("abc"), "abc");
    assert_eq!(trim_quote_marks("\"\""), "");
    assert_eq!(trim_quote_marks(""), "");
    assert_eq!(trim_quote_marks("\"\"\"x\""), "x");
    assert_eq!(trim_quote_marks("a\"b"), "a\"b");
    assert_eq!(trim_quote_marks("\"inner \" quote\""), "inner \" quote");
}

#[test]
fn login_id_kind_follows_the_at_sign() {
    assert!(login_id_is_email("user@example.com"));
    assert!(login_id_is_email("@"));
    assert!(!login_id_is_email("username"));
    assert!(!login_id_is_email(""));
}

#[test]
fn active_project_means_nonzero_id() {
    let unset = Config {
        current_project: String::new(),
        current_project_id: 0,
        expires_at: String::new(),
    };
    assert!(!unset.has_active_project());
    let set = Config {
        current_project: String::from("inbox"),
        current_project_id: 5,
        expires_at: String::new(),
    };
    assert!(set.has_active_project());
}

#[test]
fn cli_priority_maps_onto_service_priority() {
    assert_eq!(Priority::High.to_priority_type(), PriorityType::High);
    assert_eq!(Priority::Medium.to_priority_type(), PriorityType::Medium);
    assert_eq!(Priority::Low.to_priority_type(), PriorityType::Low);
}
