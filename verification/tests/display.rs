use chrono::{Datelike, TimeZone, Timelike};
use cues::date::Date;
use cues::pretty::{format_pretty_date, month_name, ordinal_suffix};
use cues::rfc3339::{format_rfc3339_utc, CivilStamp};

#[test]
fn rfc3339_rendering_is_exact() {
    let u = CivilStamp {
        date: Date { year: 2025, month: 6, day: 13 },
        hour: 2,
        minute: 0,
        second: 0,
    };
    assert_eq!(format_rfc3339_utc(&u), "2025-06-13T02:00:00+00:00");
    let v = CivilStamp {
        date: Date { year: 987, month: 11, day: 3 },
        hour: 23,
        minute: 59,
        second: 7,
    };
    assert_eq!(format_rfc3339_utc(&v), "0987-11-03T23:59:07+00:00");
    // chrono renders the same reading identically.
    let dt = chrono::Utc.with_ymd_and_hms(2025, 6, 13, 2, 0, 0).single().unwrap();
    assert_eq!(format_rfc3339_utc(&u), dt.to_rfc3339());
}

#[test]
fn ordinal_suffixes() {
    assert_eq!(ordinal_suffix(1), "st");
    assert_eq!(ordinal_suffix(2), "nd");
    assert_eq!(ordinal_suffix(3), "rd");
    assert_eq!(ordinal_suffix(4), "th");
    assert_eq!(ordinal_suffix(11), "th");
    assert_eq!(ordinal_suffix(12), "th");
    assert_eq!(ordinal_suffix(13), "th");
    assert_eq!(ordinal_suffix(21), "st");
    assert_eq!(ordinal_suffix(22), "nd");
    assert_eq!(ordinal_suffix(23), "rd");
    assert_eq!(ordinal_suffix(30), "th");
    assert_eq!(ordinal_suffix(31), "st");
}

#[test]
fn month_names() {
    assert_eq!(month_name(1), "January");
    assert_eq!(month_name(6), "June");
    assert_eq!(month_name(9), "September");
    assert_eq!(month_name(12), "December");
}

#[test]
fn blank_input_reads_no_due_date() {
    assert_eq!(format_pretty_date("").unwrap(), "No due date");
    assert_eq!(format_pretty_date("   \t ").unwrap(), "No due date");
}

#[test]
fn unparseable_input_is_rejected() {
    assert!(format_pretty_date("not a date").is_err());
    assert!(format_pretty_date("2025-06-13").is_err());
}

#[test]
fn pretty_date_matches_local_reading() {
    let input = "2025-06-13T02:00:00+00:00";
    let got = format_pretty_date(input).expect("input parses");
    // Build the expected rendering the same way, from chrono's local view.
    let local = input
        .parse::<chrono::DateTime<chrono::FixedOffset>>()
        .unwrap()
        .with_timezone(&chrono::Local);
    let expected = format!(
        "{}{} {}, {}    {:02}:{:02}",
        local.day(),
        ordinal_suffix(local.day()),
        month_name(local.month() as u8),
        local.year(),
        local.hour(),
        local.minute()
    );
    assert_eq!(got, expected);
}
