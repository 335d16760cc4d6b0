use chrono::{Datelike, TimeZone, Timelike};
use cues::date::{Date, Weekday};
use cues::resolve::{natural_to_datetime, parse_time_token, resolve_local, split_whitespace_tokens, DateTimeContext, ResolveError, WallClock};

fn anchor_tue() -> DateTimeContext {
    // Tuesday, June 10, 2025.
    DateTimeContext {
        date: Date { year: 2025, month: 6, day: 10 },
        weekday: Weekday::Tuesday,
    }
}

fn expected_utc_string(y: i32, mo: u32, d: u32, h: u32, mi: u32) -> Option<String> {
    chrono::Local
        .with_ymd_and_hms(y, mo, d, h, mi, 0)
        .single()
        .map(|dt| dt.with_timezone(&chrono::Utc).to_rfc3339())
}

fn check_phrase(phrase: &str, y: i32, mo: u8, d: u8, h: u8, mi: u8) {
    let now = anchor_tue();
    let w = resolve_local(phrase, &now).expect("phrase should resolve");
    assert_eq!(
        w,
        WallClock { date: Date { year: y, month: mo, day: d }, hour: h, minute: mi }
    );
    let got = natural_to_datetime(phrase, &now);
    let expected = expected_utc_string(y, mo as u32, d as u32, h as u32, mi as u32);
    match (got, expected) {
        (Ok(s), Some(e)) => assert_eq!(s, e),
        (Err(_), None) => {}
        (Ok(s), None) => panic!("resolved {s} where the zone has no such reading"),
        (Err(e), Some(_)) => panic!("rejected a resolvable phrase: {e:?}"),
    }
}

#[test]
fn wrong_token_count_rejected() {
    let now = anchor_tue();
    for phrase in ["", "   ", "today", "16:00", "today 16:00 extra", "a b c d"] {
        assert_eq!(resolve_local(phrase, &now), Err(ResolveError::InvalidFormat));
        assert!(natural_to_datetime(phrase, &now).is_err());
    }
}

#[test]
fn today_resolves_to_anchor_date() {
    check_phrase("today 16:00", 2025, 6, 10, 16, 0);
}

#[test]
fn tomorrow_resolves_to_next_date() {
    check_phrase("tomorrow 09:30", 2025, 6, 11, 9, 30);
}

#[test]
fn friday_resolves_to_next_friday() {
    check_phrase("friday 04:00", 2025, 6, 13, 4, 0);
}

#[test]
fn same_weekday_resolves_a_full_week_ahead() {
    check_phrase("tuesday 08:00", 2025, 6, 17, 8, 0);
}

#[test]
fn every_weekday_resolves_strictly_ahead() {
    check_phrase("wednesday 12:00", 2025, 6, 11, 12, 0);
    check_phrase("thursday 12:00", 2025, 6, 12, 12, 0);
    check_phrase("saturday 12:00", 2025, 6, 14, 12, 0);
    check_phrase("sunday 12:00", 2025, 6, 15, 12, 0);
    check_phrase("monday 12:00", 2025, 6, 16, 12, 0);
}

#[test]
fn numeric_date_template_is_rejected() {
    // The day-day-year template has no month position, so no numeric token
    // completes into a date; such phrases fail like any unknown word.
    let now = anchor_tue();
    assert_eq!(
        resolve_local("15-06-2025 12:00", &now),
        Err(ResolveError::InvalidFormat)
    );
    assert_eq!(
        resolve_local("15-15-2025 12:00", &now),
        Err(ResolveError::InvalidFormat)
    );
}

#[test]
fn unknown_day_word_and_bad_time_are_rejected() {
    let now = anchor_tue();
    assert_eq!(resolve_local("whenever 12:00", &now), Err(ResolveError::InvalidFormat));
    assert_eq!(resolve_local("today 25:99", &now), Err(ResolveError::InvalidFormat));
}

#[test]
fn day_tokens_match_case_insensitively() {
    check_phrase("FRIDAY 04:00", 2025, 6, 13, 4, 0);
    check_phrase("ToDaY 16:00", 2025, 6, 10, 16, 0);
    check_phrase("Tomorrow 09:30", 2025, 6, 11, 9, 30);
}

#[test]
fn time_token_grammar_edges() {
    let now = anchor_tue();
    // One or two digits on either side of the colon, read greedily.
    check_phrase("friday 4:5", 2025, 6, 13, 4, 5);
    check_phrase("friday 23:59", 2025, 6, 13, 23, 59);
    check_phrase("friday 0:00", 2025, 6, 13, 0, 0);
    for bad in [
        "friday 004:00",
        "friday 24:00",
        "friday 12:60",
        "friday 12:",
        "friday 12:345",
        "friday :30",
        "friday 12.30",
        "friday 1200",
    ] {
        assert_eq!(resolve_local(bad, &now), Err(ResolveError::InvalidFormat), "{bad}");
    }
}

#[test]
fn extra_whitespace_is_ignored() {
    check_phrase("  friday \t 04:00  \n", 2025, 6, 13, 4, 0);
    // A no-break space separates tokens just as ASCII whitespace does.
    check_phrase("friday\u{a0}04:00", 2025, 6, 13, 4, 0);
}

#[test]
fn month_and_year_roll_over() {
    // Tuesday, December 30, 2025: Friday lands in the next year.
    let now = DateTimeContext {
        date: Date { year: 2025, month: 12, day: 30 },
        weekday: Weekday::Tuesday,
    };
    let w = resolve_local("friday 08:15", &now).expect("should resolve");
    assert_eq!(w.date, Date { year: 2026, month: 1, day: 2 });

    // Saturday, February 28, 2004: a leap year keeps February a day longer.
    let leap = DateTimeContext {
        date: Date { year: 2004, month: 2, day: 28 },
        weekday: Weekday::Saturday,
    };
    let w = resolve_local("tomorrow 10:00", &leap).expect("should resolve");
    assert_eq!(w.date, Date { year: 2004, month: 2, day: 29 });
}

#[test]
fn utc_output_round_trips_to_local_reading() {
    let now = anchor_tue();
    for phrase in ["today 16:00", "tomorrow 09:30", "friday 04:00", "tuesday 08:00"] {
        let w = resolve_local(phrase, &now).expect("phrase should resolve");
        let s = natural_to_datetime(phrase, &now).expect("zone should map the reading");
        let parsed = chrono::DateTime::parse_from_rfc3339(&s).expect("output is RFC 3339");
        let local = parsed.with_timezone(&chrono::Local);
        assert_eq!(local.year(), w.date.year);
        assert_eq!(local.month(), w.date.month as u32);
        assert_eq!(local.day(), w.date.day as u32);
        assert_eq!(local.hour(), w.hour as u32);
        assert_eq!(local.minute(), w.minute as u32);
        assert_eq!(local.second(), 0);
    }
}

#[test]
fn anchor_well_formedness_is_checked() {
    let good = anchor_tue();
    assert!(good.is_wf());
    let feb_30 = DateTimeContext {
        date: Date { year: 2025, month: 2, day: 30 },
        weekday: Weekday::Sunday,
    };
    assert!(!feb_30.is_wf());
    let month_13 = DateTimeContext {
        date: Date { year: 2025, month: 13, day: 1 },
        weekday: Weekday::Sunday,
    };
    assert!(!month_13.is_wf());
}

#[test]
fn date_stepping_follows_the_calendar() {
    assert_eq!(
        Date { year: 2024, month: 2, day: 28 }.next(),
        Date { year: 2024, month: 2, day: 29 }
    );
    assert_eq!(
        Date { year: 2025, month: 2, day: 28 }.next(),
        Date { year: 2025, month: 3, day: 1 }
    );
    assert_eq!(
        Date { year: 2025, month: 12, day: 31 }.next(),
        Date { year: 2026, month: 1, day: 1 }
    );
    assert_eq!(
        Date { year: 2100, month: 2, day: 28 }.next(),
        Date { year: 2100, month: 3, day: 1 }
    );
    assert_eq!(
        Date { year: 2000, month: 2, day: 28 }.next(),
        Date { year: 2000, month: 2, day: 29 }
    );
    assert_eq!(
        Date { year: 2025, month: 6, day: 10 }.plus_days(7),
        Date { year: 2025, month: 6, day: 17 }
    );
}

#[test]
fn day_count_and_weekday_agree_with_chrono() {
    let samples = [
        (1970, 1, 1),
        (2000, 2, 29),
        (2000, 3, 1),
        (2024, 2, 29),
        (2025, 6, 10),
        (2025, 12, 31),
        (2100, 2, 28),
        (2100, 3, 1),
        (1, 1, 1),
        (0, 1, 1),
        (9999, 12, 31),
        (1600, 2, 29),
        (1999, 12, 31),
    ];
    for (y, m, d) in samples {
        let date = Date { year: y, month: m as u8, day: d as u8 };
        let naive = chrono::NaiveDate::from_ymd_opt(y, m, d).unwrap();
        // chrono counts from January 1 of year 1 CE as day one; the
        // library's count starts a year earlier, at January 1 of year 0.
        assert_eq!(date.day_number(), naive.num_days_from_ce() as i64 + 365, "{y}-{m}-{d}");
        let expected = match naive.weekday() {
            chrono::Weekday::Mon => Weekday::Monday,
            chrono::Weekday::Tue => Weekday::Tuesday,
            chrono::Weekday::Wed => Weekday::Wednesday,
            chrono::Weekday::Thu => Weekday::Thursday,
            chrono::Weekday::Fri => Weekday::Friday,
            chrono::Weekday::Sat => Weekday::Saturday,
            chrono::Weekday::Sun => Weekday::Sunday,
        };
        assert_eq!(date.weekday(), expected, "{y}-{m}-{d}");
    }
}

#[test]
fn tokenizer_splits_on_unicode_whitespace() {
    assert_eq!(split_whitespace_tokens("friday 16:00"), vec!["friday", "16:00"]);
    assert_eq!(
        split_whitespace_tokens("  a\tb\nc\u{2003}d  "),
        vec!["a", "b", "c", "d"]
    );
    assert_eq!(split_whitespace_tokens(""), Vec::<&str>::new());
    assert_eq!(split_whitespace_tokens(" \u{a0}\u{3000} "), Vec::<&str>::new());
}

#[test]
fn time_token_parses_hours_and_minutes() {
    assert_eq!(parse_time_token("16:00"), Some((16, 0)));
    assert_eq!(parse_time_token("4:5"), Some((4, 5)));
    assert_eq!(parse_time_token("04:05"), Some((4, 5)));
    assert_eq!(parse_time_token("23:59"), Some((23, 59)));
    assert_eq!(parse_time_token("24:00"), None);
    assert_eq!(parse_time_token("1200"), None);
    assert_eq!(parse_time_token("12:00x"), None);
    assert_eq!(parse_time_token("٤:00"), None);
}
