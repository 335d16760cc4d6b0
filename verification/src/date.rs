//! Dates of the proleptic Gregorian calendar, modelled as plain year, month
//! and day fields, with the day-count arithmetic the due-date resolver needs.

use vstd::prelude::*;

verus! {

/// A calendar date in the proleptic Gregorian calendar (year 0 is 1 BCE).
#[derive(Clone, Copy, PartialEq, Eq, Structural, Debug)]
pub struct Date {
    pub year: i32,
    pub month: u8,
    pub day: u8,
}

/// Leap years of the proleptic Gregorian calendar.
pub open spec fn leap_year(y: int) -> bool {
    y % 4 == 0 && (y % 100 != 0 || y % 400 == 0)
}

pub open spec fn year_length(y: int) -> int {
    if leap_year(y) {
        366
    } else {
        365
    }
}

pub open spec fn month_length(y: int, m: int) -> int {
    if m == 2 {
        if leap_year(y) {
            29
        } else {
            28
        }
    } else if m == 4 || m == 6 || m == 9 || m == 11 {
        30
    } else {
        31
    }
}

/// The month and day fields form an existing calendar day of the year.
pub open spec fn date_fields_ok(d: Date) -> bool {
    &&& 1 <= d.month <= 12
    &&& 1 <= d.day <= month_length(d.year as int, d.month as int)
}

/// Days in all years before year `y`, counted from year 0; negative years
/// extend the count downward, so the difference of two values is always the
/// number of calendar days between two New Year's days.
pub open spec fn days_before_year(y: int) -> int
    decreases
            (if y >= 0 {
                y
            } else {
                -y
            }),
{
    if y == 0 {
        0
    } else if y > 0 {
        days_before_year(y - 1) + year_length(y - 1)
    } else {
        days_before_year(y + 1) - year_length(y)
    }
}

/// Days in the months of year `y` before month `m`.
pub open spec fn days_before_month(y: int, m: int) -> int
    decreases m,
{
    if m <= 1 {
        0
    } else {
        days_before_month(y, m - 1) + month_length(y, m - 1)
    }
}

/// The date's position in a linear day count: day 0 is January 1 of year 0,
/// and consecutive calendar days map to consecutive integers.
pub open spec fn date_index(d: Date) -> int {
    days_before_year(d.year as int) + days_before_month(d.year as int, d.month as int) + d.day - 1
}

/// The day count of the Unix epoch, January 1 of 1970.
pub open spec fn unix_epoch_index() -> int {
    date_index(Date { year: 1970, month: 1, day: 1 })
}

/// Seconds since the Unix epoch of the wall-clock reading `d h:mi:s`,
/// counted without leap seconds, as Unix timestamps are.
pub open spec fn unix_secs(d: Date, h: int, mi: int, s: int) -> int {
    (date_index(d) - unix_epoch_index()) * 86400 + h * 3600 + mi * 60 + s
}

/// The calendar day after `d`.
pub open spec fn next_date(d: Date) -> Date {
    if d.day < month_length(d.year as int, d.month as int) {
        Date { year: d.year, month: d.month, day: (d.day + 1) as u8 }
    } else if d.month < 12 {
        Date { year: d.year, month: (d.month + 1) as u8, day: 1 }
    } else {
        Date { year: (d.year + 1) as i32, month: 1, day: 1 }
    }
}

/// The date `n` calendar days after `d`.
pub open spec fn date_plus_days(d: Date, n: nat) -> Date
    decreases n,
{
    if n == 0 {
        d
    } else {
        next_date(date_plus_days(d, (n - 1) as nat))
    }
}

/// The whole months of a year sum to its length.
proof fn lemma_months_sum_to_year(y: int)
    ensures
        days_before_month(y, 13) == year_length(y),
{
    reveal_with_fuel(days_before_month, 13);
}

/// Stepping to the next calendar day advances the day count by exactly one.
pub proof fn lemma_next_date_index(d: Date)
    requires
        date_fields_ok(d),
        d.year < i32::MAX,
    ensures
        date_fields_ok(next_date(d)),
        date_index(next_date(d)) == date_index(d) + 1,
{
    if d.day < month_length(d.year as int, d.month as int) {
    } else if d.month < 12 {
    } else {
        lemma_months_sum_to_year(d.year as int);
    }
}

/// Adding `n` days (a week at most) advances the day count by exactly `n`
/// and stays within the calendar.
pub proof fn lemma_date_plus_days_index(d: Date, n: nat)
    requires
        date_fields_ok(d),
        n <= 7,
        d.year <= 9998,
    ensures
        date_fields_ok(date_plus_days(d, n)),
        date_index(date_plus_days(d, n)) == date_index(d) + n,
        d.year <= date_plus_days(d, n).year <= d.year + n,
    decreases n,
{
    if n > 0 {
        lemma_date_plus_days_index(d, (n - 1) as nat);
        lemma_next_date_index(date_plus_days(d, (n - 1) as nat));
    }
}

impl Date {
    /// Whether the fields form an existing calendar day; year limited to four
    /// digits so the date can appear in an RFC 3339 string.
    pub open spec fn wf(self) -> bool {
        &&& date_fields_ok(self)
        &&& 0 <= self.year <= 9999
    }

    /// The number of days in this date's month.
    pub fn length_of_month(&self) -> (n: u8)
        ensures
            n == month_length(self.year as int, self.month as int),
    {
        if self.month == 2 {
            let y: i32 = self.year;
            if y % 4 == 0 && (y % 100 != 0 || y % 400 == 0) {
                29
            } else {
                28
            }
        } else if self.month == 4 || self.month == 6 || self.month == 9 || self.month == 11 {
            30
        } else {
            31
        }
    }

    /// The date's position in the linear day count, executable form: day 0
    /// is January 1 of year 0.
    pub fn day_number(&self) -> (n: i64)
        requires
            date_fields_ok(*self),
            0 <= self.year <= 9999,
        ensures
            n == date_index(*self),
            0 <= n <= 3_700_000,
    {
        let mut before_years: i64 = 0;
        let mut y: i32 = 0;
        while y < self.year
            invariant
                0 <= y <= self.year <= 9999,
                before_years == days_before_year(y as int),
                0 <= before_years <= 366 * (y as int),
            decreases self.year - y,
        {
            let len: i64 = if y % 4 == 0 && (y % 100 != 0 || y % 400 == 0) {
                366
            } else {
                365
            };
            before_years = before_years + len;
            y = y + 1;
        }
        let mut before_months: i64 = 0;
        let mut m: u8 = 1;
        while m < self.month
            invariant
                1 <= m <= self.month <= 12,
                before_months == days_before_month(self.year as int, m as int),
                0 <= before_months <= 31 * (m as int),
                date_fields_ok(*self),
            decreases self.month - m,
        {
            let len: i64 = if m == 2 {
                let yr: i32 = self.year;
                if yr % 4 == 0 && (yr % 100 != 0 || yr % 400 == 0) {
                    29
                } else {
                    28
                }
            } else if m == 4 || m == 6 || m == 9 || m == 11 {
                30
            } else {
                31
            };
            before_months = before_months + len;
            m = m + 1;
        }
        before_years + before_months + (self.day as i64) - 1
    }

    /// The weekday this date falls on.
    pub fn weekday(&self) -> (w: Weekday)
        requires
            date_fields_ok(*self),
            0 <= self.year <= 9999,
        ensures
            w.index() == weekday_index_of(*self),
    {
        let n: i64 = self.day_number();
        let r: i64 = (n + 5) % 7;
        match r {
            0 => Weekday::Monday,
            1 => Weekday::Tuesday,
            2 => Weekday::Wednesday,
            3 => Weekday::Thursday,
            4 => Weekday::Friday,
            5 => Weekday::Saturday,
            _ => Weekday::Sunday,
        }
    }

    /// The calendar day after this one.
    pub fn next(&self) -> (r: Date)
        requires
            date_fields_ok(*self),
            self.year < i32::MAX,
        ensures
            r == next_date(*self),
            date_fields_ok(r),
            date_index(r) == date_index(*self) + 1,
            self.year <= r.year <= self.year + 1,
    {
        proof {
            lemma_next_date_index(*self);
        }
        if self.day < self.length_of_month() {
            Date { year: self.year, month: self.month, day: self.day + 1 }
        } else if self.month < 12 {
            Date { year: self.year, month: self.month + 1, day: 1 }
        } else {
            Date { year: self.year + 1, month: 1, day: 1 }
        }
    }

    /// The date `n` days after this one, for the short hops the resolver
    /// makes (tomorrow, or up to a week ahead).
    pub fn plus_days(&self, n: u8) -> (r: Date)
        requires
            date_fields_ok(*self),
            n <= 7,
            self.year <= 9998,
        ensures
            r == date_plus_days(*self, n as nat),
            date_fields_ok(r),
            date_index(r) == date_index(*self) + n,
            self.year <= r.year <= self.year + 1,
    {
        let mut r: Date = *self;
        let mut i: u8 = 0;
        while i < n
            invariant
                i <= n <= 7,
                date_fields_ok(r),
                r == date_plus_days(*self, i as nat),
                date_index(r) == date_index(*self) + i,
                r.year == self.year || (r.year == self.year + 1 && r.month == 1 && r.day <= i),
                date_fields_ok(*self),
                self.year <= 9998,
            decreases n - i,
        {
            r = r.next();
            i = i + 1;
        }
        r
    }
}

/// Days of the week, ordered as the resolver counts them: Monday first.
#[derive(Clone, Copy, PartialEq, Eq, Structural, Debug)]
pub enum Weekday {
    Monday,
    Tuesday,
    Wednesday,
    Thursday,
    Friday,
    Saturday,
    Sunday,
}

impl Weekday {
    /// Days from Monday: 0 for Monday through 6 for Sunday.
    pub open spec fn index(self) -> int {
        match self {
            Weekday::Monday => 0,
            Weekday::Tuesday => 1,
            Weekday::Wednesday => 2,
            Weekday::Thursday => 3,
            Weekday::Friday => 4,
            Weekday::Saturday => 5,
            Weekday::Sunday => 6,
        }
    }

    /// Days from Monday, as the resolver's offset arithmetic needs it.
    pub fn days_from_monday(&self) -> (n: u8)
        ensures
            n == self.index(),
    {
        match self {
            Weekday::Monday => 0,
            Weekday::Tuesday => 1,
            Weekday::Wednesday => 2,
            Weekday::Thursday => 3,
            Weekday::Friday => 4,
            Weekday::Saturday => 5,
            Weekday::Sunday => 6,
        }
    }
}

/// The weekday of a date, as days from Monday; day 0 of the day count
/// (January 1 of year 0) fell on a Saturday.
pub open spec fn weekday_index_of(d: Date) -> int {
    (date_index(d) + 5) % 7
}

} // verus!
