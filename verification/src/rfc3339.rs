//! Rendering a UTC wall-clock reading as an RFC 3339 date-time string, with a
//! character-exact specification of the output.

use vstd::prelude::*;
use crate::date::{Date, date_fields_ok};

verus! {

/// A wall-clock reading in UTC, ready to be serialized.
#[derive(Clone, Copy, PartialEq, Eq, Structural, Debug)]
pub struct CivilStamp {
    pub date: Date,
    pub hour: u8,
    pub minute: u8,
    pub second: u8,
}

impl CivilStamp {
    /// The reading exists on the clock and its date fits a four-digit year.
    pub open spec fn wf(self) -> bool {
        &&& date_fields_ok(self.date)
        &&& 0 <= self.date.year <= 9999
        &&& self.hour < 24
        &&& self.minute < 60
        &&& self.second < 60
    }
}

/// The decimal digit character for a value from 0 to 9.
pub open spec fn digit_char(v: int) -> char {
    if v == 0 {
        '0'
    } else if v == 1 {
        '1'
    } else if v == 2 {
        '2'
    } else if v == 3 {
        '3'
    } else if v == 4 {
        '4'
    } else if v == 5 {
        '5'
    } else if v == 6 {
        '6'
    } else if v == 7 {
        '7'
    } else if v == 8 {
        '8'
    } else {
        '9'
    }
}

/// A value from 0 to 99 as two digits, zero-padded.
pub open spec fn two_digits(v: int) -> Seq<char> {
    seq![digit_char(v / 10), digit_char(v % 10)]
}

/// A value from 0 to 9999 as four digits, zero-padded.
pub open spec fn four_digits(v: int) -> Seq<char> {
    seq![
        digit_char(v / 1000),
        digit_char((v / 100) % 10),
        digit_char((v / 10) % 10),
        digit_char(v % 10),
    ]
}

/// The RFC 3339 rendering of a UTC reading: date, 'T', time, and the
/// zero offset written out as "+00:00".
pub open spec fn rfc3339_chars(u: CivilStamp) -> Seq<char> {
    four_digits(u.date.year as int) + seq!['-'] + two_digits(u.date.month as int) + seq!['-']
        + two_digits(u.date.day as int) + seq!['T'] + two_digits(u.hour as int) + seq![':']
        + two_digits(u.minute as int) + seq![':'] + two_digits(u.second as int) + seq![
        '+',
        '0',
        '0',
        ':',
        '0',
        '0',
    ]
}

/// The single-character string for a decimal digit.
pub(crate) fn digit_str(v: u8) -> (s: &'static str)
    requires
        v <= 9,
    ensures
        s@ == seq![digit_char(v as int)],
{
    proof {
        reveal_strlit("0");
        reveal_strlit("1");
        reveal_strlit("2");
        reveal_strlit("3");
        reveal_strlit("4");
        reveal_strlit("5");
        reveal_strlit("6");
        reveal_strlit("7");
        reveal_strlit("8");
        reveal_strlit("9");
    }
    match v {
        0 => "0",
        1 => "1",
        2 => "2",
        3 => "3",
        4 => "4",
        5 => "5",
        6 => "6",
        7 => "7",
        8 => "8",
        _ => "9",
    }
}

/// Appends a value from 0 to 99 as two zero-padded digits.
pub(crate) fn push_two_digits(out: &mut String, v: u8)
    requires
        v <= 99,
    ensures
        final(out)@ == old(out)@ + two_digits(v as int),
{
    out.append(digit_str(v / 10));
    out.append(digit_str(v % 10));
}

/// Appends a value from 0 to 9999 as four zero-padded digits.
fn push_four_digits(out: &mut String, v: i32)
    requires
        0 <= v <= 9999,
    ensures
        final(out)@ == old(out)@ + four_digits(v as int),
{
    out.append(digit_str((v / 1000) as u8));
    out.append(digit_str(((v / 100) % 10) as u8));
    out.append(digit_str(((v / 10) % 10) as u8));
    out.append(digit_str((v % 10) as u8));
}

/// Serializes a UTC reading as an RFC 3339 date-time string, such as
/// "2025-06-13T02:00:00+00:00".
pub fn format_rfc3339_utc(u: &CivilStamp) -> (s: String)
    requires
        u.wf(),
    ensures
        s@ == rfc3339_chars(*u),
{
    proof {
        reveal_strlit("-");
        reveal_strlit("T");
        reveal_strlit(":");
        reveal_strlit("+00:00");
    }
    let mut out: String = String::new();
    push_four_digits(&mut out, u.date.year);
    out.append("-");
    push_two_digits(&mut out, u.date.month);
    out.append("-");
    push_two_digits(&mut out, u.date.day);
    out.append("T");
    push_two_digits(&mut out, u.hour);
    out.append(":");
    push_two_digits(&mut out, u.minute);
    out.append(":");
    push_two_digits(&mut out, u.second);
    out.append("+00:00");
    proof {
        assert("-"@ =~= seq!['-']);
        assert("T"@ =~= seq!['T']);
        assert(":"@ =~= seq![':']);
        assert("+00:00"@ =~= seq!['+', '0', '0', ':', '0', '0']);
        assert(out@ =~= rfc3339_chars(*u));
    }
    out
}

} // verus!
