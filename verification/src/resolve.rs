//! The due-date resolver: turns a two-token phrase such as "friday 16:00"
//! into a concrete local wall-clock reading against a caller-supplied anchor,
//! and from there into an RFC 3339 UTC string.

use vstd::prelude::*;
use crate::date::{Date, Weekday, date_fields_ok, date_index, date_plus_days, weekday_index_of};
use crate::rfc3339::{CivilStamp, format_rfc3339_utc, rfc3339_chars};
use crate::date::unix_secs;
use chrono::{Datelike, TimeZone, Timelike};

verus! {

/// Characters with the Unicode `White_Space` property, the separators the
/// phrase is split on.
pub open spec fn is_space_char(c: char) -> bool {
    let u = c as u32;
    ||| u == 0x09
    ||| u == 0x0A
    ||| u == 0x0B
    ||| u == 0x0C
    ||| u == 0x0D
    ||| u == 0x20
    ||| u == 0x85
    ||| u == 0xA0
    ||| u == 0x1680
    ||| (0x2000 <= u && u <= 0x200A)
    ||| u == 0x2028
    ||| u == 0x2029
    ||| u == 0x202F
    ||| u == 0x205F
    ||| u == 0x3000
}

/// Whether `c` separates tokens of the phrase.
pub fn is_space(c: char) -> (b: bool)
    ensures
        b == is_space_char(c),
{
    let u: u32 = c as u32;
    u == 0x09 || u == 0x0A || u == 0x0B || u == 0x0C || u == 0x0D || u == 0x20 || u == 0x85 || u
        == 0xA0 || u == 0x1680 || (0x2000 <= u && u <= 0x200A) || u == 0x2028 || u == 0x2029 || u
        == 0x202F || u == 0x205F || u == 0x3000
}

/// The whitespace-separated tokens of `s`, with `cur` the partial token read
/// so far.
pub open spec fn tokens_from(s: Seq<char>, cur: Seq<char>) -> Seq<Seq<char>>
    decreases s.len(),
{
    if s.len() == 0 {
        if cur.len() == 0 {
            Seq::<Seq<char>>::empty()
        } else {
            seq![cur]
        }
    } else if is_space_char(s[0]) {
        if cur.len() == 0 {
            tokens_from(s.drop_first(), Seq::<char>::empty())
        } else {
            seq![cur] + tokens_from(s.drop_first(), Seq::<char>::empty())
        }
    } else {
        tokens_from(s.drop_first(), cur.push(s[0]))
    }
}

/// The whitespace-separated tokens of `s`, leading and trailing separators
/// ignored, as `str::split_whitespace` yields them.
pub open spec fn tokens_of(s: Seq<char>) -> Seq<Seq<char>> {
    tokens_from(s, Seq::<char>::empty())
}

/// The views of a sequence of string slices.
pub open spec fn token_views(ts: Seq<&str>) -> Seq<Seq<char>> {
    ts.map_values(|t: &str| t@)
}

/// Splits the phrase on Unicode whitespace into its tokens.
pub fn split_whitespace_tokens<'a>(s: &'a str) -> (toks: Vec<&'a str>)
    ensures
        token_views(toks@) == tokens_of(s@),
{
    let n: usize = s.unicode_len();
    let mut toks: Vec<&'a str> = Vec::new();
    let mut i: usize = 0;
    proof {
        assert(s@.skip(0) =~= s@);
        assert(token_views(toks@) + tokens_from(s@, Seq::<char>::empty()) =~= tokens_of(s@));
    }
    while i < n
        invariant
            i <= n,
            n == s@.len(),
            tokens_of(s@) == token_views(toks@) + tokens_from(
                s@.skip(i as int),
                Seq::<char>::empty(),
            ),
        decreases n - i,
    {
        let c = s.get_char(i);
        if is_space(c) {
            proof {
                assert(s@.skip(i as int).drop_first() =~= s@.skip(i + 1));
            }
            i = i + 1;
        } else {
            let start: usize = i;
            proof {
                assert(s@.subrange(start as int, start as int) =~= Seq::<char>::empty());
            }
            while i < n && !is_space(s.get_char(i))
                invariant
                    start < n,
                    start <= i <= n,
                    n == s@.len(),
                    !is_space_char(s@[start as int]),
                    tokens_of(s@) == token_views(toks@) + tokens_from(
                        s@.skip(i as int),
                        s@.subrange(start as int, i as int),
                    ),
                decreases n - i,
            {
                proof {
                    assert(s@.skip(i as int).drop_first() =~= s@.skip(i + 1));
                    assert(s@.subrange(start as int, i as int).push(s@[i as int]) =~= s@.subrange(
                        start as int,
                        i + 1,
                    ));
                }
                i = i + 1;
            }
            let tok: &'a str = s.substring_char(start, i);
            proof {
                let cur = s@.subrange(start as int, i as int);
                assert(i > start);
                if i < n {
                    assert(s@.skip(i as int).drop_first() =~= s@.skip(i + 1));
                } else {
                    assert(s@.skip(i as int) =~= Seq::<char>::empty());
                }
                assert(token_views(toks@.push(tok)) =~= token_views(toks@) + seq![cur]);
            }
            toks.push(tok);
        }
    }
    proof {
        assert(s@.skip(n as int) =~= Seq::<char>::empty());
    }
    toks
}

/// An ASCII decimal digit.
pub open spec fn is_digit_char(c: char) -> bool {
    48 <= c as u32 <= 57
}

/// The value of an ASCII decimal digit.
pub open spec fn digit_val(c: char) -> int {
    c as u32 - 48
}

/// The hour and minute a time token denotes, if it fits the clock grammar:
/// one or two digits for the hour (at most 23), a colon, one or two digits
/// for the minute (at most 59), and nothing after. Both digit groups are
/// read greedily, two digits when two are there.
pub open spec fn time_of_token(t: Seq<char>) -> Option<(int, int)> {
    if t.len() < 1 || !is_digit_char(t[0]) {
        None
    } else {
        let hlen: int = if t.len() >= 2 && is_digit_char(t[1]) {
            2
        } else {
            1
        };
        let h: int = if hlen == 2 {
            10 * digit_val(t[0]) + digit_val(t[1])
        } else {
            digit_val(t[0])
        };
        if h > 23 || t.len() <= hlen || t[hlen] != ':' {
            None
        } else {
            let m0: int = hlen + 1;
            if t.len() <= m0 || !is_digit_char(t[m0]) {
                None
            } else {
                let mlen: int = if t.len() >= m0 + 2 && is_digit_char(t[m0 + 1]) {
                    2
                } else {
                    1
                };
                let m: int = if mlen == 2 {
                    10 * digit_val(t[m0]) + digit_val(t[m0 + 1])
                } else {
                    digit_val(t[m0])
                };
                if m > 59 || t.len() != m0 + mlen {
                    None
                } else {
                    Some((h, m))
                }
            }
        }
    }
}

/// Reads a time token as a 24-hour clock reading.
pub fn parse_time_token(t: &str) -> (r: Option<(u8, u8)>)
    ensures
        match r {
            Some(hm) => time_of_token(t@) == Some((hm.0 as int, hm.1 as int)),
            None => time_of_token(t@) is None,
        },
{
    let n: usize = t.unicode_len();
    if n < 1 {
        return None;
    }
    let c0: u32 = t.get_char(0) as u32;
    if !(48 <= c0 && c0 <= 57) {
        return None;
    }
    let mut hlen: usize = 1;
    let mut h: u32 = c0 - 48;
    if n >= 2 {
        let c1: u32 = t.get_char(1) as u32;
        if 48 <= c1 && c1 <= 57 {
            hlen = 2;
            h = 10 * h + (c1 - 48);
        }
    }
    if h > 23 || n <= hlen || t.get_char(hlen) != ':' {
        return None;
    }
    let m0: usize = hlen + 1;
    if n <= m0 {
        return None;
    }
    let cm: u32 = t.get_char(m0) as u32;
    if !(48 <= cm && cm <= 57) {
        return None;
    }
    let mut mlen: usize = 1;
    let mut m: u32 = cm - 48;
    if n >= m0 + 2 {
        let cm1: u32 = t.get_char(m0 + 1) as u32;
        if 48 <= cm1 && cm1 <= 57 {
            mlen = 2;
            m = 10 * m + (cm1 - 48);
        }
    }
    if m > 59 || n != m0 + mlen {
        return None;
    }
    Some((h as u8, m as u8))
}

/// A character of the phrase matches a keyword character once lowercased:
/// either it is the keyword character itself, or its ASCII uppercase form.
pub open spec fn lower_eq_char(c: char, k: char) -> bool {
    c == k || (65 <= c as u32 <= 90 && c as u32 + 32 == k as u32)
}

/// The token spells the keyword, ASCII-case-insensitively. The keywords the
/// resolver knows are plain lowercase English words, so this is the same
/// normalization as lowercasing the phrase before matching.
pub open spec fn matches_keyword(t: Seq<char>, kw: Seq<char>) -> bool {
    t.len() == kw.len() && (forall|j: int| 0 <= j < t.len() ==> lower_eq_char(t[j], kw[j]))
}

/// Compares a token against a lowercase keyword, ignoring ASCII case.
fn eq_keyword(t: &str, kw: &str) -> (b: bool)
    ensures
        b == matches_keyword(t@, kw@),
{
    let n: usize = t.unicode_len();
    if n != kw.unicode_len() {
        return false;
    }
    let mut j: usize = 0;
    while j < n
        invariant
            j <= n,
            n == t@.len(),
            n == kw@.len(),
            forall|x: int| 0 <= x < j ==> lower_eq_char(t@[x], kw@[x]),
        decreases n - j,
    {
        let c: char = t.get_char(j);
        let k: char = kw.get_char(j);
        let cu: u32 = c as u32;
        let ku: u32 = k as u32;
        if !(cu == ku || (65 <= cu && cu <= 90 && cu + 32 == ku)) {
            return false;
        }
        j = j + 1;
    }
    true
}

/// What a recognized day token stands for. A numeric day token shaped like
/// "15-06-2025" is not recognized: the day-day-year template it is read
/// against repeats the day position and has no month position, so no such
/// token can name a complete calendar date, and it is rejected like any
/// other unknown word.
#[derive(Clone, Copy, PartialEq, Eq, Structural, Debug)]
pub enum DayToken {
    Today,
    Tomorrow,
    OnWeekday(Weekday),
}

pub open spec fn kw_today() -> Seq<char> {
    seq!['t', 'o', 'd', 'a', 'y']
}

pub open spec fn kw_tomorrow() -> Seq<char> {
    seq!['t', 'o', 'm', 'o', 'r', 'r', 'o', 'w']
}

/// The full lowercase English name of a weekday.
pub open spec fn weekday_name(w: Weekday) -> Seq<char> {
    match w {
        Weekday::Monday => seq!['m', 'o', 'n', 'd', 'a', 'y'],
        Weekday::Tuesday => seq!['t', 'u', 'e', 's', 'd', 'a', 'y'],
        Weekday::Wednesday => seq!['w', 'e', 'd', 'n', 'e', 's', 'd', 'a', 'y'],
        Weekday::Thursday => seq!['t', 'h', 'u', 'r', 's', 'd', 'a', 'y'],
        Weekday::Friday => seq!['f', 'r', 'i', 'd', 'a', 'y'],
        Weekday::Saturday => seq!['s', 'a', 't', 'u', 'r', 'd', 'a', 'y'],
        Weekday::Sunday => seq!['s', 'u', 'n', 'd', 'a', 'y'],
    }
}

/// What the day token stands for, tried in the resolver's fixed order:
/// "today", "tomorrow", then the full weekday names; anything else is
/// unrecognized.
pub open spec fn day_token_of(t: Seq<char>) -> Option<DayToken> {
    if matches_keyword(t, kw_today()) {
        Some(DayToken::Today)
    } else if matches_keyword(t, kw_tomorrow()) {
        Some(DayToken::Tomorrow)
    } else if matches_keyword(t, weekday_name(Weekday::Monday)) {
        Some(DayToken::OnWeekday(Weekday::Monday))
    } else if matches_keyword(t, weekday_name(Weekday::Tuesday)) {
        Some(DayToken::OnWeekday(Weekday::Tuesday))
    } else if matches_keyword(t, weekday_name(Weekday::Wednesday)) {
        Some(DayToken::OnWeekday(Weekday::Wednesday))
    } else if matches_keyword(t, weekday_name(Weekday::Thursday)) {
        Some(DayToken::OnWeekday(Weekday::Thursday))
    } else if matches_keyword(t, weekday_name(Weekday::Friday)) {
        Some(DayToken::OnWeekday(Weekday::Friday))
    } else if matches_keyword(t, weekday_name(Weekday::Saturday)) {
        Some(DayToken::OnWeekday(Weekday::Saturday))
    } else if matches_keyword(t, weekday_name(Weekday::Sunday)) {
        Some(DayToken::OnWeekday(Weekday::Sunday))
    } else {
        None
    }
}

/// Classifies the day token of a phrase.
pub fn classify_day_token(t: &str) -> (r: Option<DayToken>)
    ensures
        r == day_token_of(t@),
{
    proof {
        reveal_strlit("today");
        reveal_strlit("tomorrow");
        reveal_strlit("monday");
        reveal_strlit("tuesday");
        reveal_strlit("wednesday");
        reveal_strlit("thursday");
        reveal_strlit("friday");
        reveal_strlit("saturday");
        reveal_strlit("sunday");
        assert("today"@ =~= kw_today());
        assert("tomorrow"@ =~= kw_tomorrow());
        assert("monday"@ =~= weekday_name(Weekday::Monday));
        assert("tuesday"@ =~= weekday_name(Weekday::Tuesday));
        assert("wednesday"@ =~= weekday_name(Weekday::Wednesday));
        assert("thursday"@ =~= weekday_name(Weekday::Thursday));
        assert("friday"@ =~= weekday_name(Weekday::Friday));
        assert("saturday"@ =~= weekday_name(Weekday::Saturday));
        assert("sunday"@ =~= weekday_name(Weekday::Sunday));
    }
    if eq_keyword(t, "today") {
        Some(DayToken::Today)
    } else if eq_keyword(t, "tomorrow") {
        Some(DayToken::Tomorrow)
    } else if eq_keyword(t, "monday") {
        Some(DayToken::OnWeekday(Weekday::Monday))
    } else if eq_keyword(t, "tuesday") {
        Some(DayToken::OnWeekday(Weekday::Tuesday))
    } else if eq_keyword(t, "wednesday") {
        Some(DayToken::OnWeekday(Weekday::Wednesday))
    } else if eq_keyword(t, "thursday") {
        Some(DayToken::OnWeekday(Weekday::Thursday))
    } else if eq_keyword(t, "friday") {
        Some(DayToken::OnWeekday(Weekday::Friday))
    } else if eq_keyword(t, "saturday") {
        Some(DayToken::OnWeekday(Weekday::Saturday))
    } else if eq_keyword(t, "sunday") {
        Some(DayToken::OnWeekday(Weekday::Sunday))
    } else {
        None
    }
}

/// The resolution anchor: the local calendar date of "now" and its weekday,
/// supplied by the caller so resolution stays deterministic and testable.
#[derive(Clone, Copy, PartialEq, Eq, Structural, Debug)]
pub struct DateTimeContext {
    pub date: Date,
    pub weekday: Weekday,
}

impl DateTimeContext {
    /// The anchor is an existing calendar day, with a year leaving room for
    /// a week ahead and a day of offset shift inside four-digit years.
    pub open spec fn wf(self) -> bool {
        &&& date_fields_ok(self.date)
        &&& 1 <= self.date.year <= 9998
    }

    /// Runtime check of the same well-formedness the contracts assume.
    pub fn is_wf(&self) -> (b: bool)
        ensures
            b == self.wf(),
    {
        let d: Date = self.date;
        1 <= d.month && d.month <= 12 && 1 <= d.day && d.day <= d.length_of_month() && 1 <= d.year
            && d.year <= 9998
    }
}

/// A resolved local wall-clock reading: the concrete calendar date the day
/// token named, and the time token's hour and minute (seconds are zero).
#[derive(Clone, Copy, PartialEq, Eq, Structural, Debug)]
pub struct WallClock {
    pub date: Date,
    pub hour: u8,
    pub minute: u8,
}

impl WallClock {
    pub open spec fn wf(self) -> bool {
        &&& date_fields_ok(self.date)
        &&& 1 <= self.date.year <= 9999
        &&& self.hour < 24
        &&& self.minute < 60
    }
}

/// The one way resolution fails: the phrase does not fit the grammar.
#[derive(Clone, Copy, PartialEq, Eq, Structural, Debug)]
pub enum ResolveError {
    InvalidFormat,
}

/// How many days ahead of `cur` the next `target` weekday lies: one through
/// seven, a full week when the two coincide, never zero.
pub open spec fn weekday_days_ahead(target: Weekday, cur: Weekday) -> int {
    let d = (target.index() - cur.index()) % 7;
    if d == 0 {
        7
    } else {
        d
    }
}

/// Days ahead of the anchor the day token names.
pub open spec fn token_days_ahead(day: DayToken, cur: Weekday) -> int {
    match day {
        DayToken::Today => 0,
        DayToken::Tomorrow => 1,
        DayToken::OnWeekday(w) => weekday_days_ahead(w, cur),
    }
}

/// What a phrase resolves to against an anchor: the concrete local calendar
/// date together with the hour and minute, or nothing when the phrase does
/// not consist of exactly one recognized day token and one clock reading.
pub open spec fn resolution_of(s: Seq<char>, now: DateTimeContext) -> Option<(Date, int, int)> {
    let toks = tokens_of(s);
    if toks.len() != 2 {
        None
    } else {
        match (day_token_of(toks[0]), time_of_token(toks[1])) {
            (Some(day), Some(hm)) => Some(
                (date_plus_days(now.date, token_days_ahead(day, now.weekday) as nat), hm.0, hm.1),
            ),
            _ => None,
        }
    }
}

/// Resolves a phrase such as "friday 16:00" to the local wall-clock reading
/// it names, against the supplied anchor. The phrase is split on whitespace
/// and must hold exactly a day token and a time token; the day tokens
/// "today", "tomorrow" and full English weekday names are matched
/// case-insensitively, and a weekday resolves to its next occurrence
/// strictly after the anchor day, a full week ahead when the names coincide.
pub fn resolve_local(phrase: &str, now: &DateTimeContext) -> (r: Result<WallClock, ResolveError>)
    requires
        now.wf(),
    ensures
        match r {
            Ok(w) => {
                &&& resolution_of(phrase@, *now) == Some((w.date, w.hour as int, w.minute as int))
                &&& w.wf()
                &&& date_index(now.date) <= date_index(w.date) <= date_index(now.date) + 7
            },
            Err(e) => {
                &&& resolution_of(phrase@, *now) is None
                &&& e == ResolveError::InvalidFormat
            },
        },
{
    let toks: Vec<&str> = split_whitespace_tokens(phrase);
    if toks.len() != 2 {
        return Err(ResolveError::InvalidFormat);
    }
    let day_tok: Option<DayToken> = classify_day_token(toks[0]);
    let time_tok: Option<(u8, u8)> = parse_time_token(toks[1]);
    match (day_tok, time_tok) {
        (Some(day), Some(hm)) => {
            let ahead: u8 = match day {
                DayToken::Today => 0,
                DayToken::Tomorrow => 1,
                DayToken::OnWeekday(w) => {
                    let a: u8 = (w.days_from_monday() + 7 - now.weekday.days_from_monday()) % 7;
                    if a == 0 {
                        7
                    } else {
                        a
                    }
                },
            };
            proof {
                assert(ahead == token_days_ahead(day, now.weekday));
            }
            let due: Date = now.date.plus_days(ahead);
            Ok(WallClock { date: due, hour: hm.0, minute: hm.1 })
        },
        _ => Err(ResolveError::InvalidFormat),
    }
}

/// Two second counts differ by a time-zone offset: strictly less than a day
/// in either direction, as every zone offset is.
pub open spec fn shifted_by_zone_offset(local_secs: int, utc_secs: int, off: int) -> bool {
    -86400 < off < 86400 && utc_secs == local_secs - off
}

/// The UTC reading `u` denotes the same instant as the local reading `l`,
/// the two wall clocks differing by some time-zone offset.
pub open spec fn utc_counterpart(l: (Date, int, int), u: CivilStamp) -> bool {
    &&& date_fields_ok(u.date)
    &&& u.hour < 24
    &&& u.minute < 60
    &&& u.second < 60
    &&& exists|off: int|
        shifted_by_zone_offset(
            unix_secs(l.0, l.1, l.2, 0),
            unix_secs(u.date, u.hour as int, u.minute as int, u.second as int),
            off,
        )
}

/// Relies on chrono: `Local.with_ymd_and_hms(..).single()` maps a local
/// wall-clock reading to the one instant the system zone gives it (`None`
/// when the zone skips or repeats that reading), `with_timezone(&Utc)` keeps
/// the instant, and the `Datelike`/`Timelike` getters return the instant's
/// UTC calendar fields, whose Unix second count differs from the local
/// reading's exactly by the zone offset, itself under a day in size.
#[verifier::external_body]
fn local_wall_clock_to_utc(w: &WallClock) -> (r: Option<CivilStamp>)
    ensures
        r matches Some(u) ==> utc_counterpart((w.date, w.hour as int, w.minute as int), u),
{
    let (y, mo, d) = (w.date.year, w.date.month as u32, w.date.day as u32);
    let mapped = chrono::Local.with_ymd_and_hms(y, mo, d, w.hour as u32, w.minute as u32, 0);
    let u = mapped.single()?.with_timezone(&chrono::Utc);
    let date = Date { year: u.year(), month: u.month() as u8, day: u.day() as u8 };
    Some(CivilStamp { date, hour: u.hour() as u8, minute: u.minute() as u8, second: u.second() as u8 })
}

/// Resolves a due-date phrase to an RFC 3339 UTC string, such as
/// "2025-06-13T02:00:00+00:00". The phrase is resolved to a local wall-clock
/// reading by `resolve_local`, then mapped to UTC through the system's local
/// time zone. A phrase outside the grammar is rejected; so is a resolved
/// reading the zone skips or repeats, or one whose UTC date leaves
/// four-digit years.
pub fn natural_to_datetime(phrase: &str, now: &DateTimeContext) -> (r: Result<String, ResolveError>)
    requires
        now.wf(),
    ensures
        resolution_of(phrase@, *now) is None ==> r is Err,
        match r {
            Ok(s) => {
                &&& resolution_of(phrase@, *now) is Some
                &&& exists|u: CivilStamp|
                    {
                        &&& u.wf()
                        &&& (resolution_of(phrase@, *now) matches Some(res) && utc_counterpart(
                            res,
                            u,
                        ))
                        &&& s@ == #[trigger] rfc3339_chars(u)
                    }
            },
            Err(e) => e == ResolveError::InvalidFormat,
        },
{
    match resolve_local(phrase, now) {
        Err(e) => Err(e),
        Ok(w) => match local_wall_clock_to_utc(&w) {
            None => Err(ResolveError::InvalidFormat),
            Some(u) => {
                if 0 <= u.date.year && u.date.year <= 9999 {
                    let s: String = format_rfc3339_utc(&u);
                    Ok(s)
                } else {
                    Err(ResolveError::InvalidFormat)
                }
            },
        },
    }
}

/// A phrase that does not split into exactly two tokens never resolves.
pub proof fn lemma_wrong_token_count_rejected(s: Seq<char>, now: DateTimeContext)
    requires
        tokens_of(s).len() != 2,
    ensures
        resolution_of(s, now) is None,
{
}

/// A weekday token resolves to a day strictly after the anchor day and at
/// most a week ahead — a full week when the names coincide, so never to the
/// anchor day itself — and, when the anchor's weekday agrees with its date,
/// to a date that falls on the named weekday.
pub proof fn lemma_weekday_resolution(s: Seq<char>, now: DateTimeContext, w: Weekday)
    requires
        now.wf(),
        tokens_of(s).len() == 2,
        day_token_of(tokens_of(s)[0]) == Some(DayToken::OnWeekday(w)),
        time_of_token(tokens_of(s)[1]) is Some,
    ensures
        resolution_of(s, now) matches Some(r) && {
            &&& 1 <= date_index(r.0) - date_index(now.date) <= 7
            &&& w == now.weekday ==> date_index(r.0) - date_index(now.date) == 7
            &&& (weekday_index_of(now.date) == now.weekday.index() ==> weekday_index_of(r.0)
                == w.index())
        },
{
    let ahead = weekday_days_ahead(w, now.weekday);
    let c = now.weekday.index();
    let t = w.index();
    assert(0 <= (t - c) % 7 < 7);
    assert(1 <= ahead <= 7);
    crate::date::lemma_date_plus_days_index(now.date, ahead as nat);
    let r0 = date_plus_days(now.date, ahead as nat);
    let idx = date_index(now.date);
    if weekday_index_of(now.date) == c {
        assert(weekday_index_of(r0) == (idx + ahead + 5) % 7);
        assert((idx + ahead + 5) % 7 == t) by {
            vstd::arithmetic::div_mod::lemma_add_mod_noop(idx + 5, ahead, 7);
            assert((idx + 5) % 7 == c);
            assert(ahead % 7 == (t - c) % 7);
            assert(((idx + 5) % 7 + ahead % 7) % 7 == (c + (t - c) % 7) % 7);
            vstd::arithmetic::div_mod::lemma_add_mod_noop(c, t - c, 7);
            assert((c % 7 + (t - c) % 7) % 7 == (c + (t - c)) % 7);
            assert(c % 7 == c);
            assert((c + (t - c)) % 7 == t % 7);
            assert(t % 7 == t);
        };
    }
}

/// Round trip: a UTC counterpart of a resolved local reading, shifted back
/// by its zone offset, shows exactly the resolved local wall-clock second
/// count again — the conversion to UTC loses nothing.
pub proof fn lemma_resolution_round_trip(res: (Date, int, int), u: CivilStamp)
    requires
        utc_counterpart(res, u),
    ensures
        exists|off: int|
            {
                &&& #[trigger] shifted_by_zone_offset(
                    unix_secs(res.0, res.1, res.2, 0),
                    unix_secs(u.date, u.hour as int, u.minute as int, u.second as int),
                    off,
                )
                &&& unix_secs(u.date, u.hour as int, u.minute as int, u.second as int) + off
                    == unix_secs(res.0, res.1, res.2, 0)
            },
{
    let off = choose|off: int|
        shifted_by_zone_offset(
            unix_secs(res.0, res.1, res.2, 0),
            unix_secs(u.date, u.hour as int, u.minute as int, u.second as int),
            off,
        );
    assert(shifted_by_zone_offset(
        unix_secs(res.0, res.1, res.2, 0),
        unix_secs(u.date, u.hour as int, u.minute as int, u.second as int),
        off,
    ));
}

} // verus!

