//! Display formatting for stored date-time strings: a service timestamp such
//! as "2025-06-13T02:00:00+00:00" becomes "13th June, 2025    04:00" in the
//! reader's local time.

use vstd::prelude::*;
use crate::date::{Date, date_fields_ok, unix_secs};
use crate::resolve::{ResolveError, is_space_char, shifted_by_zone_offset};
use crate::rfc3339::{CivilStamp, digit_char, digit_str, push_two_digits, two_digits};
use chrono::{Datelike, TimeZone, Timelike};

verus! {

/// A nonnegative value in decimal, no padding.
pub open spec fn dec_digits(n: int) -> Seq<char>
    decreases n,
{
    if n < 10 {
        seq![digit_char(n)]
    } else {
        dec_digits(n / 10).push(digit_char(n % 10))
    }
}

/// A value in decimal, a leading minus sign when negative.
pub open spec fn dec_int(n: int) -> Seq<char> {
    if n < 0 {
        seq!['-'] + dec_digits(-n)
    } else {
        dec_digits(n)
    }
}

/// Appends a nonnegative value in decimal.
fn push_udecimal(out: &mut String, n: u64)
    ensures
        final(out)@ == old(out)@ + dec_digits(n as int),
    decreases n,
{
    if n < 10 {
        out.append(digit_str(n as u8));
    } else {
        push_udecimal(out, n / 10);
        out.append(digit_str((n % 10) as u8));
    }
}

/// Appends a value in decimal, minus sign first when negative.
fn push_decimal(out: &mut String, n: i64)
    requires
        n > i64::MIN,
    ensures
        final(out)@ == old(out)@ + dec_int(n as int),
{
    proof {
        reveal_strlit("-");
        assert("-"@ =~= seq!['-']);
    }
    if n < 0 {
        out.append("-");
        push_udecimal(out, (-n) as u64);
    } else {
        push_udecimal(out, n as u64);
    }
}

/// The English ordinal suffix for a day number: "st", "nd", "rd" or "th",
/// with the teens eleven through thirteen taking "th".
pub open spec fn ordinal_suffix_chars(n: int) -> Seq<char> {
    if n == 11 || n == 12 || n == 13 {
        seq!['t', 'h']
    } else if n % 10 == 1 {
        seq!['s', 't']
    } else if n % 10 == 2 {
        seq!['n', 'd']
    } else if n % 10 == 3 {
        seq!['r', 'd']
    } else {
        seq!['t', 'h']
    }
}

/// The suffix that turns a day number into an English ordinal.
pub fn ordinal_suffix(n: u32) -> (r: &'static str)
    ensures
        r@ == ordinal_suffix_chars(n as int),
{
    proof {
        reveal_strlit("st");
        reveal_strlit("nd");
        reveal_strlit("rd");
        reveal_strlit("th");
        assert("st"@ =~= seq!['s', 't']);
        assert("nd"@ =~= seq!['n', 'd']);
        assert("rd"@ =~= seq!['r', 'd']);
        assert("th"@ =~= seq!['t', 'h']);
    }
    match n {
        11 | 12 | 13 => "th",
        _ => match n % 10 {
            1 => "st",
            2 => "nd",
            3 => "rd",
            _ => "th",
        },
    }
}

/// The full English name of a month, January through December.
pub open spec fn month_name_chars(m: int) -> Seq<char> {
    if m == 1 {
        seq!['J', 'a', 'n', 'u', 'a', 'r', 'y']
    } else if m == 2 {
        seq!['F', 'e', 'b', 'r', 'u', 'a', 'r', 'y']
    } else if m == 3 {
        seq!['M', 'a', 'r', 'c', 'h']
    } else if m == 4 {
        seq!['A', 'p', 'r', 'i', 'l']
    } else if m == 5 {
        seq!['M', 'a', 'y']
    } else if m == 6 {
        seq!['J', 'u', 'n', 'e']
    } else if m == 7 {
        seq!['J', 'u', 'l', 'y']
    } else if m == 8 {
        seq!['A', 'u', 'g', 'u', 's', 't']
    } else if m == 9 {
        seq!['S', 'e', 'p', 't', 'e', 'm', 'b', 'e', 'r']
    } else if m == 10 {
        seq!['O', 'c', 't', 'o', 'b', 'e', 'r']
    } else if m == 11 {
        seq!['N', 'o', 'v', 'e', 'm', 'b', 'e', 'r']
    } else {
        seq!['D', 'e', 'c', 'e', 'm', 'b', 'e', 'r']
    }
}

/// The month's English name.
pub fn month_name(m: u8) -> (r: &'static str)
    requires
        1 <= m <= 12,
    ensures
        r@ == month_name_chars(m as int),
{
    proof {
        reveal_strlit("January");
        reveal_strlit("February");
        reveal_strlit("March");
        reveal_strlit("April");
        reveal_strlit("May");
        reveal_strlit("June");
        reveal_strlit("July");
        reveal_strlit("August");
        reveal_strlit("September");
        reveal_strlit("October");
        reveal_strlit("November");
        reveal_strlit("December");
        assert("January"@ =~= month_name_chars(1));
        assert("February"@ =~= month_name_chars(2));
        assert("March"@ =~= month_name_chars(3));
        assert("April"@ =~= month_name_chars(4));
        assert("May"@ =~= month_name_chars(5));
        assert("June"@ =~= month_name_chars(6));
        assert("July"@ =~= month_name_chars(7));
        assert("August"@ =~= month_name_chars(8));
        assert("September"@ =~= month_name_chars(9));
        assert("October"@ =~= month_name_chars(10));
        assert("November"@ =~= month_name_chars(11));
        assert("December"@ =~= month_name_chars(12));
    }
    match m {
        1 => "January",
        2 => "February",
        3 => "March",
        4 => "April",
        5 => "May",
        6 => "June",
        7 => "July",
        8 => "August",
        9 => "September",
        10 => "October",
        11 => "November",
        _ => "December",
    }
}

/// The pretty rendering of a local reading: day with its ordinal suffix,
/// month name, year, four spaces, then the zero-padded 24-hour time.
pub open spec fn pretty_chars(l: CivilStamp) -> Seq<char> {
    dec_digits(l.date.day as int) + ordinal_suffix_chars(l.date.day as int) + seq![' ']
        + month_name_chars(l.date.month as int) + seq![',', ' '] + dec_int(l.date.year as int)
        + seq![' ', ' ', ' ', ' '] + two_digits(l.hour as int) + seq![':'] + two_digits(
        l.minute as int,
    )
}

/// What the reader sees in place of a missing date.
pub open spec fn no_due_chars() -> Seq<char> {
    seq!['N', 'o', ' ', 'd', 'u', 'e', ' ', 'd', 'a', 't', 'e']
}

/// Every character is whitespace (so also: the string is empty).
pub open spec fn all_space(s: Seq<char>) -> bool {
    forall|i: int| 0 <= i < s.len() ==> is_space_char(s[i])
}

/// Whether the string is empty or whitespace only.
fn is_blank(s: &str) -> (b: bool)
    ensures
        b == all_space(s@),
{
    let n: usize = s.unicode_len();
    let mut i: usize = 0;
    while i < n
        invariant
            i <= n,
            n == s@.len(),
            forall|k: int| 0 <= k < i ==> is_space_char(s@[k]),
        decreases n - i,
    {
        if !crate::resolve::is_space(s.get_char(i)) {
            return false;
        }
        i = i + 1;
    }
    true
}

/// The instant a date-time string denotes, as Unix seconds, or nothing when
/// the string is rejected; a function of the characters alone.
pub uninterp spec fn datetime_str_instant(s: Seq<char>) -> Option<int>;

/// Relies on chrono's `FromStr` for `DateTime<FixedOffset>` (the parser
/// behind `str::parse`) and `timestamp`: acceptance and the denoted instant
/// are functions of the characters alone.
#[verifier::external_body]
fn parse_datetime_instant(s: &str) -> (r: Option<i64>)
    ensures
        match r {
            Some(ts) => datetime_str_instant(s@) == Some(ts as int),
            None => datetime_str_instant(s@) is None,
        },
{
    match s.parse::<chrono::DateTime<chrono::FixedOffset>>() {
        Ok(dt) => Some(dt.timestamp()),
        Err(_) => None,
    }
}

/// The local reading `l` shows the instant `ts` on the system zone's wall
/// clock: its second count differs from `ts` by the zone offset.
pub open spec fn local_counterpart(ts: int, l: CivilStamp) -> bool {
    &&& date_fields_ok(l.date)
    &&& l.hour < 24
    &&& l.minute < 60
    &&& l.second < 60
    &&& exists|off: int|
        shifted_by_zone_offset(
            unix_secs(l.date, l.hour as int, l.minute as int, l.second as int),
            ts,
            off,
        )
}

/// Relies on chrono: `Local.timestamp_opt(ts, 0).single()` gives the one
/// local representation of the instant, and the `Datelike`/`Timelike`
/// getters its local calendar fields, whose Unix second count differs from
/// `ts` exactly by the zone offset, itself under a day in size.
#[verifier::external_body]
fn local_fields_of_instant(ts: i64) -> (r: Option<CivilStamp>)
    ensures
        r matches Some(l) ==> local_counterpart(ts as int, l),
{
    let dt = chrono::Local.timestamp_opt(ts, 0).single()?;
    let date = Date { year: dt.year(), month: dt.month() as u8, day: dt.day() as u8 };
    Some(CivilStamp { date, hour: dt.hour() as u8, minute: dt.minute() as u8, second: dt.second() as u8 })
}

/// Renders a stored date-time string for display: a blank input reads "No
/// due date"; otherwise the string must parse as a date-time with offset,
/// whose instant is shown on the local wall clock as day with ordinal
/// suffix, month name, year and 24-hour time.
pub fn format_pretty_date(input: &str) -> (r: Result<String, ResolveError>)
    ensures
        all_space(input@) ==> r is Ok,
        !all_space(input@) && datetime_str_instant(input@) is None ==> r is Err,
        match r {
            Ok(s) => {
                if all_space(input@) {
                    s@ == no_due_chars()
                } else {
                    &&& datetime_str_instant(input@) is Some
                    &&& exists|l: CivilStamp|
                        {
                            &&& (datetime_str_instant(input@) matches Some(ts)
                                && local_counterpart(ts, l))
                            &&& s@ == #[trigger] pretty_chars(l)
                        }
                }
            },
            Err(e) => {
                &&& e == ResolveError::InvalidFormat
                &&& !all_space(input@)
            },
        },
{
    if is_blank(input) {
        proof {
            reveal_strlit("No due date");
            assert("No due date"@ =~= no_due_chars());
        }
        return Ok(String::from_str("No due date"));
    }
    let ts: i64 = match parse_datetime_instant(input) {
        Some(ts) => ts,
        None => {
            return Err(ResolveError::InvalidFormat);
        },
    };
    let l: CivilStamp = match local_fields_of_instant(ts) {
        Some(l) => l,
        None => {
            return Err(ResolveError::InvalidFormat);
        },
    };
    proof {
        reveal_strlit(" ");
        reveal_strlit(", ");
        reveal_strlit("    ");
        reveal_strlit(":");
        assert(" "@ =~= seq![' ']);
        assert(", "@ =~= seq![',', ' ']);
        assert("    "@ =~= seq![' ', ' ', ' ', ' ']);
        assert(":"@ =~= seq![':']);
    }
    let mut out: String = String::new();
    push_udecimal(&mut out, l.date.day as u64);
    out.append(ordinal_suffix(l.date.day as u32));
    out.append(" ");
    out.append(month_name(l.date.month));
    out.append(", ");
    push_decimal(&mut out, l.date.year as i64);
    out.append("    ");
    push_two_digits(&mut out, l.hour);
    out.append(":");
    push_two_digits(&mut out, l.minute);
    proof {
        assert(out@ =~= pretty_chars(l));
    }
    Ok(out)
}

} // verus!
