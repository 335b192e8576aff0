//! Calendar values of the journal: dates, times of day and local date-times,
//! in the proleptic Gregorian calendar that chrono implements.

use chrono::{Datelike, Timelike};
use vstd::prelude::*;

verus! {

/// The first year a date can have.
pub const MIN_YEAR: i32 = -262143;

/// The last year a date can have.
pub const MAX_YEAR: i32 = 262142;

/// Whether `y` is a leap year of the Gregorian calendar.
pub open spec fn is_leap_year(y: int) -> bool {
    y % 4 == 0 && (y % 100 != 0 || y % 400 == 0)
}

/// The number of days of month `m` of year `y`.
pub open spec fn days_in_month(y: int, m: int) -> int {
    if m == 2 {
        if is_leap_year(y) {
            29
        } else {
            28
        }
    } else if m == 4 || m == 6 || m == 9 || m == 11 {
        30
    } else {
        31
    }
}

/// A calendar day that exists and lies in the supported range of years.
pub open spec fn valid_ymd(y: int, m: int, d: int) -> bool {
    &&& MIN_YEAR <= y <= MAX_YEAR
    &&& 1 <= m <= 12
    &&& 1 <= d <= days_in_month(y, m)
}

/// Days of the year `y` that lie before the first of month `m`.
pub open spec fn days_before_month(y: int, m: int) -> int {
    let common: int = if m <= 1 {
        0
    } else if m == 2 {
        31
    } else if m == 3 {
        59
    } else if m == 4 {
        90
    } else if m == 5 {
        120
    } else if m == 6 {
        151
    } else if m == 7 {
        181
    } else if m == 8 {
        212
    } else if m == 9 {
        243
    } else if m == 10 {
        273
    } else if m == 11 {
        304
    } else {
        334
    };
    common + if m > 2 && is_leap_year(y) {
        1int
    } else {
        0int
    }
}

/// The day number of a calendar day: 1 for January 1 of year 1, counting
/// every day of the proleptic Gregorian calendar.
pub open spec fn days_from_ce(y: int, m: int, d: int) -> int {
    let p: int = y - 1;
    365 * p + p / 4 - p / 100 + p / 400 + days_before_month(y, m) + d
}

/// What adding `k` calendar months to a day gives: the same day of the
/// month, or the last day of the target month where that one is shorter;
/// `None` where the target year is out of range.
pub open spec fn add_months_ymd(y: int, m: int, d: int, k: int) -> Option<(int, int, int)> {
    let total: int = y * 12 + (m - 1) + k;
    let ny: int = total / 12;
    let nm: int = total % 12 + 1;
    let nd: int = if d > days_in_month(ny, nm) {
        days_in_month(ny, nm)
    } else {
        d
    };
    if MIN_YEAR <= ny <= MAX_YEAR {
        Some((ny, nm, nd))
    } else {
        None
    }
}

/// The day number of the last supported day.
pub open spec fn max_day_number() -> int {
    days_from_ce(MAX_YEAR as int, 12, 31)
}

/// The English name of the weekday of a calendar day; day number 1 (January
/// 1 of year 1) is a Monday.
pub open spec fn weekday_name(y: int, m: int, d: int) -> Seq<char> {
    let k = (days_from_ce(y, m, d) - 1) % 7;
    if k == 0 {
        "Monday"@
    } else if k == 1 {
        "Tuesday"@
    } else if k == 2 {
        "Wednesday"@
    } else if k == 3 {
        "Thursday"@
    } else if k == 4 {
        "Friday"@
    } else if k == 5 {
        "Saturday"@
    } else {
        "Sunday"@
    }
}

/// The English name of month `m`.
pub open spec fn month_name(m: int) -> Seq<char> {
    if m == 1 {
        "January"@
    } else if m == 2 {
        "February"@
    } else if m == 3 {
        "March"@
    } else if m == 4 {
        "April"@
    } else if m == 5 {
        "May"@
    } else if m == 6 {
        "June"@
    } else if m == 7 {
        "July"@
    } else if m == 8 {
        "August"@
    } else if m == 9 {
        "September"@
    } else if m == 10 {
        "October"@
    } else if m == 11 {
        "November"@
    } else {
        "December"@
    }
}

/// The first three letters of the English name of month `m`.
pub open spec fn short_month_name(m: int) -> Seq<char> {
    month_name(m).take(3)
}

/// A calendar date.
#[derive(Clone, Copy, PartialEq, Eq, Debug, Hash)]
pub struct Date {
    year: i32,
    month: u32,
    day: u32,
}

impl View for Date {
    type V = (int, int, int);

    closed spec fn view(&self) -> (int, int, int) {
        (self.year as int, self.month as int, self.day as int)
    }
}

impl Date {
    /// A date is a valid day of a supported year.
    #[verifier::type_invariant]
    pub open spec fn inv(self) -> bool {
        valid_ymd(self@.0, self@.1, self@.2)
    }

    /// The day number of this date (see `days_from_ce`).
    pub open spec fn day_number(self) -> int {
        days_from_ce(self@.0, self@.1, self@.2)
    }

    /// Chronological order on dates.
    pub open spec fn precedes(self, other: Date) -> bool {
        ||| self@.0 < other@.0
        ||| self@.0 == other@.0 && self@.1 < other@.1
        ||| self@.0 == other@.0 && self@.1 == other@.1 && self@.2 < other@.2
    }

    /// Two dates with the same year, month and day are the same date.
    pub proof fn lemma_view_injective(a: Date, b: Date)
        ensures
            (a@ == b@) <==> a == b,
    {
    }

    /// Makes the date `year`-`month`-`day`, or `None` where that day does not exist
    /// or the year is out of range.
    pub fn from_ymd_opt(year: i32, month: u32, day: u32) -> (r: Option<Date>)
        ensures
            r is Some <==> valid_ymd(year as int, month as int, day as int),
            r matches Some(d) ==> d@ == (year as int, month as int, day as int),
    {
        if year < MIN_YEAR || year > MAX_YEAR || month < 1 || month > 12 || day < 1 {
            return None;
        }
        let leap: bool = is_leap(year);
        let dim: u32 = if month == 2 {
            if leap {
                29
            } else {
                28
            }
        } else if month == 4 || month == 6 || month == 9 || month == 11 {
            30
        } else {
            31
        };
        if day > dim {
            None
        } else {
            Some(Date { year, month, day })
        }
    }

    /// The year.
    pub fn year(&self) -> (r: i32)
        ensures
            r == self@.0,
            MIN_YEAR <= r <= MAX_YEAR,
    {
        proof {
            use_type_invariant(self);
        }
        self.year
    }

    /// The month, from 1.
    pub fn month(&self) -> (r: u32)
        ensures
            r == self@.1,
            1 <= r <= 12,
    {
        proof {
            use_type_invariant(self);
        }
        self.month
    }

    /// The day of the month, from 1.
    pub fn day(&self) -> (r: u32)
        ensures
            r == self@.2,
            1 <= r <= 31,
    {
        proof {
            use_type_invariant(self);
        }
        self.day
    }

    /// The day number of this date: 1 for January 1 of year 1.
    pub fn num_days_from_ce(&self) -> (r: i64)
        ensures
            r == self.day_number(),
    {
        proof {
            use_type_invariant(self);
        }
        // Years before year 1 are moved forward by whole 400-year cycles,
        // each of which has 146097 days, so that every division is on a
        // non-negative number.
        let p: i64 = self.year as i64 - 1 + 262400;
        let before: i64 = days_before_month_of(self.year, self.month);
        proof {
            lemma_cycle_shift(self@.0 - 1);
        }
        let q4: i64 = p / 4;
        let q100: i64 = p / 100;
        let q400: i64 = p / 400;
        365 * p + q4 - q100 + q400 - 146097 * 656 + before + self.day as i64
    }

    /// Whether this date comes before `other`.
    pub fn is_before(&self, other: &Date) -> (r: bool)
        ensures
            r == self.precedes(*other),
    {
        self.year < other.year || (self.year == other.year && self.month < other.month) || (
        self.year == other.year && self.month == other.month && self.day < other.day)
    }

    /// The date `days` days later, or `None` where it would be out of range.
    pub fn checked_add_days(&self, days: u32) -> (r: Option<Date>)
        ensures
            r is Some <==> self.day_number() + days <= max_day_number(),
            r matches Some(d) ==> d.day_number() == self.day_number() + days,
    {
        proof {
            use_type_invariant(self);
        }
        match chrono_add_days(self.year, self.month, self.day, days) {
            Some((y, m, d)) => Some(Date { year: y, month: m, day: d }),
            None => None,
        }
    }

    /// The same day `months` calendar months later, clamped to the last day of a
    /// shorter month; `None` where it would be out of range.
    pub fn checked_add_months(&self, months: u32) -> (r: Option<Date>)
        ensures
            r is Some <==> add_months_ymd(self@.0, self@.1, self@.2, months as int) is Some,
            r matches Some(d) ==> add_months_ymd(self@.0, self@.1, self@.2, months as int) == Some(
                d@,
            ),
    {
        proof {
            use_type_invariant(self);
        }
        match chrono_add_months(self.year, self.month, self.day, months) {
            Some((y, m, d)) => Some(Date { year: y, month: m, day: d }),
            None => None,
        }
    }
}

proof fn lemma_cycle_shift(p: int)
    requires
        MIN_YEAR - 1 <= p <= MAX_YEAR,
    ensures
        ({
            let q: int = p + 262400;
            &&& q >= 0
            &&& 365 * q + q / 4 - q / 100 + q / 400 - 146097 * 656 == 365 * p + p / 4 - p / 100 + p
                / 400
        }),
{
    let q: int = p + 262400;
    assert(q / 4 == p / 4 + 65600);
    assert(q / 100 == p / 100 + 2624);
    assert(q / 400 == p / 400 + 656);
}

fn is_leap(year: i32) -> (r: bool)
    ensures
        r == is_leap_year(year as int),
{
    year % 4 == 0 && (year % 100 != 0 || year % 400 == 0)
}

fn days_before_month_of(year: i32, month: u32) -> (r: i64)
    requires
        1 <= month <= 12,
    ensures
        r == days_before_month(year as int, month as int),
{
    let common: i64 = if month <= 1 {
        0
    } else if month == 2 {
        31
    } else if month == 3 {
        59
    } else if month == 4 {
        90
    } else if month == 5 {
        120
    } else if month == 6 {
        151
    } else if month == 7 {
        181
    } else if month == 8 {
        212
    } else if month == 9 {
        243
    } else if month == 10 {
        273
    } else if month == 11 {
        304
    } else {
        334
    };
    if month > 2 && is_leap(year) {
        common + 1
    } else {
        common
    }
}

/// A time of day: seconds since midnight and a fraction in nanoseconds, which
/// may pass one second during a leap second.
#[derive(Clone, Copy, PartialEq, Eq, Debug, Hash)]
pub struct Time {
    secs: u32,
    nanos: u32,
}

impl View for Time {
    type V = (int, int);

    closed spec fn view(&self) -> (int, int) {
        (self.secs as int, self.nanos as int)
    }
}

impl Time {
    /// A time lies within a day; its fraction passes one second only in the
    /// last second of a minute (a leap second).
    #[verifier::type_invariant]
    pub open spec fn inv(self) -> bool {
        &&& 0 <= self@.0 < 86400
        &&& 0 <= self@.1 < 1_000_000_000 || (self@.1 < 2_000_000_000 && self@.0 % 60 == 59)
    }

    /// Makes the time `hour`:`min`:`sec`, or `None` where a part is out of range.
    pub fn from_hms_opt(hour: u32, min: u32, sec: u32) -> (r: Option<Time>)
        ensures
            r is Some <==> hour < 24 && min < 60 && sec < 60,
            r matches Some(t) ==> t@ == (hour * 3600 + min * 60 + sec, 0int),
    {
        if hour >= 24 || min >= 60 || sec >= 60 {
            None
        } else {
            Some(Time { secs: hour * 3600 + min * 60 + sec, nanos: 0 })
        }
    }

    /// Makes the time `secs` seconds after midnight plus `nanos` nanoseconds
    /// (past one second only in a leap second), or `None` where out of range.
    pub fn from_parts(secs: u32, nanos: u32) -> (r: Option<Time>)
        ensures
            r is Some <==> (secs < 86400 && (nanos < 1_000_000_000 || (nanos < 2_000_000_000
                && secs % 60 == 59))),
            r matches Some(t) ==> t@ == (secs as int, nanos as int),
    {
        if secs < 86400 && (nanos < 1_000_000_000 || (nanos < 2_000_000_000 && secs % 60 == 59)) {
            Some(Time { secs, nanos })
        } else {
            None
        }
    }

    /// Midnight, the start of a day.
    pub fn midnight() -> (r: Time)
        ensures
            r@ == (0int, 0int),
    {
        Time { secs: 0, nanos: 0 }
    }

    /// Seconds since midnight.
    pub fn num_seconds_from_midnight(&self) -> (r: u32)
        ensures
            r == self@.0,
            r < 86400,
    {
        proof {
            use_type_invariant(self);
        }
        self.secs
    }

    /// The fraction of the second, in nanoseconds.
    pub fn nanosecond(&self) -> (r: u32)
        ensures
            r == self@.1,
            r < 2_000_000_000,
    {
        proof {
            use_type_invariant(self);
        }
        self.nanos
    }

    /// The hour, from 0 to 23.
    pub fn hour(&self) -> (r: u32)
        ensures
            r == self@.0 / 3600,
    {
        proof {
            use_type_invariant(self);
        }
        self.secs / 3600
    }

    /// The minute of the hour.
    pub fn minute(&self) -> (r: u32)
        ensures
            r == (self@.0 % 3600) / 60,
    {
        proof {
            use_type_invariant(self);
        }
        (self.secs % 3600) / 60
    }

    /// The second of the minute.
    pub fn second(&self) -> (r: u32)
        ensures
            r == self@.0 % 60,
    {
        proof {
            use_type_invariant(self);
        }
        self.secs % 60
    }
}

/// A moment as seen on a local clock: the local date and time of day, and the
/// offset of that clock from UTC in seconds.
#[derive(Clone, Copy, PartialEq, Eq, Debug, Hash)]
pub struct LocalDateTime {
    pub date: Date,
    pub time: Time,
    pub offset_secs: i32,
}

impl LocalDateTime {
    /// Seconds from the start of day 0 in UTC to this moment.
    pub open spec fn utc_secs(self) -> int {
        self.date.day_number() * 86400 + self.time@.0 - self.offset_secs
    }

    /// The order of moments in time, whatever clock they are read on.
    pub open spec fn earlier_than(self, other: LocalDateTime) -> bool {
        ||| self.utc_secs() < other.utc_secs()
        ||| self.utc_secs() == other.utc_secs() && self.time@.1 < other.time@.1
    }

    /// Whether two values denote the same moment in time.
    pub open spec fn same_moment(self, other: LocalDateTime) -> bool {
        self.utc_secs() == other.utc_secs() && self.time@.1 == other.time@.1
    }

    /// The present moment on the local clock.
    pub fn now() -> (r: LocalDateTime)
        ensures
            -86400 < r.offset_secs < 86400,
    {
        let (y, m, d, secs, nanos, offset) = chrono_local_now();
        LocalDateTime {
            date: Date { year: y, month: m, day: d },
            time: Time { secs, nanos },
            offset_secs: offset,
        }
    }

    /// The local calendar date of this moment.
    pub fn date_naive(&self) -> (r: Date)
        ensures
            r == self.date,
    {
        self.date
    }

    /// Seconds from the start of day 0 in UTC to this moment.
    pub fn utc_seconds(&self) -> (r: i64)
        ensures
            r == self.utc_secs(),
    {
        let days: i64 = self.date.num_days_from_ce();
        proof {
            use_type_invariant(&self.date);
            use_type_invariant(&self.time);
            lemma_day_number_bounds(self.date);
        }
        days * 86400 + self.time.num_seconds_from_midnight() as i64 - self.offset_secs as i64
    }

    /// Whether this moment comes before `other`.
    pub fn is_before(&self, other: &LocalDateTime) -> (r: bool)
        ensures
            r == self.earlier_than(*other),
    {
        let a: i64 = self.utc_seconds();
        let b: i64 = other.utc_seconds();
        a < b || (a == b && self.time.nanosecond() < other.time.nanosecond())
    }

    /// Whether both values denote the same moment.
    pub fn is_same_moment(&self, other: &LocalDateTime) -> (r: bool)
        ensures
            r == self.same_moment(*other),
    {
        self.utc_seconds() == other.utc_seconds() && self.time.nanosecond()
            == other.time.nanosecond()
    }
}

/// Earlier dates have smaller day numbers.
pub proof fn lemma_precedes_day_number(a: Date, b: Date)
    requires
        a.inv(),
        b.inv(),
        a.precedes(b),
    ensures
        a.day_number() < b.day_number(),
{
    if a@.0 < b@.0 {
        lemma_year_start_increasing(a@.0, b@.0);
        lemma_day_within_year(a@.0, a@.1, a@.2);
    } else if a@.1 < b@.1 {
        lemma_month_start_increasing(a@.0, a@.1, b@.1);
    }
}

/// The first day of a later year has a larger day number than the last day of
/// an earlier one.
proof fn lemma_year_start_increasing(y1: int, y2: int)
    requires
        y1 < y2,
    ensures
        days_from_ce(y1, 12, 31) < days_from_ce(y2, 1, 1),
{
    let p: int = y1 - 1;
    let q: int = y2 - 1;
    assert(q / 4 >= p / 4);
    assert(q / 400 >= p / 400);
    assert(q / 100 - p / 100 <= (q - p) / 100 + 1);
    assert(days_before_month(y1, 12) <= 335);
}

/// A day lies no later than the last day of its year.
proof fn lemma_day_within_year(y: int, m: int, d: int)
    requires
        1 <= m <= 12,
        1 <= d <= days_in_month(y, m),
    ensures
        days_from_ce(y, m, d) <= days_from_ce(y, 12, 31),
{
}

/// The months of a year start in order.
proof fn lemma_month_start_increasing(y: int, m1: int, m2: int)
    requires
        1 <= m1 < m2 <= 12,
    ensures
        forall|d1: int, d2: int|
            1 <= d1 <= days_in_month(y, m1) && 1 <= d2 ==> #[trigger] days_from_ce(y, m1, d1)
                < #[trigger] days_from_ce(y, m2, d2),
{
}

/// Day numbers of valid dates are small enough for seconds to fit in an `i64`.
pub proof fn lemma_day_number_bounds(d: Date)
    requires
        d.inv(),
    ensures
        -100_000_000 <= d.day_number() <= 100_000_000,
{
    let p: int = d@.0 - 1;
    assert(-262144 <= p <= 262141);
    assert(-65536 <= p / 4 <= 65536);
    assert(-2622 <= p / 100 <= 2622);
    assert(-656 <= p / 400 <= 656);
}

/// The date `days` days after `year`-`month`-`day`, computed by chrono's
/// `NaiveDate::checked_add_days`. Claimed: the result is a valid date whose day
/// number is `days` more, and `None` comes exactly when that passes the last
/// supported day.
#[verifier::external_body]
fn chrono_add_days(year: i32, month: u32, day: u32, days: u32) -> (r: Option<(i32, u32, u32)>)
    requires
        valid_ymd(year as int, month as int, day as int),
    ensures
        r is Some <==> days_from_ce(year as int, month as int, day as int) + days
            <= max_day_number(),
        r matches Some(t) ==> valid_ymd(t.0 as int, t.1 as int, t.2 as int) && days_from_ce(
            t.0 as int,
            t.1 as int,
            t.2 as int,
        ) == days_from_ce(year as int, month as int, day as int) + days,
{
    let date = chrono::NaiveDate::from_ymd_opt(year, month, day).unwrap();
    match date.checked_add_days(chrono::Days::new(days as u64)) {
        Some(next) => Some((next.year(), next.month(), next.day())),
        None => None,
    }
}

/// The day `months` calendar months after `year`-`month`-`day`, computed by
/// chrono's `NaiveDate::checked_add_months`. Claimed: the result is what
/// `add_months_ymd` says, as its documentation and source describe (the day is
/// clamped to the end of a shorter month; `None` when out of range).
#[verifier::external_body]
fn chrono_add_months(year: i32, month: u32, day: u32, months: u32) -> (r: Option<(i32, u32, u32)>)
    requires
        valid_ymd(year as int, month as int, day as int),
    ensures
        r is Some <==> add_months_ymd(year as int, month as int, day as int, months as int) is Some,
        r matches Some(u) ==> add_months_ymd(year as int, month as int, day as int, months as int)
            == Some((u.0 as int, u.1 as int, u.2 as int)),
{
    let date = chrono::NaiveDate::from_ymd_opt(year, month, day).unwrap();
    match date.checked_add_months(chrono::Months::new(months)) {
        Some(next) => Some((next.year(), next.month(), next.day())),
        None => None,
    }
}

/// The present moment from chrono's `Local::now()`, as local date, seconds since
/// local midnight, nanoseconds and offset from UTC. Claimed: the parts are in
/// the ranges chrono keeps them in; which moment it is, nothing says.
#[verifier::external_body]
fn chrono_local_now() -> (r: (i32, u32, u32, u32, u32, i32))
    ensures
        valid_ymd(r.0 as int, r.1 as int, r.2 as int),
        r.3 < 86400,
        r.4 < 1_000_000_000 || (r.4 < 2_000_000_000 && r.3 % 60 == 59),
        -86400 < r.5 < 86400,
{
    let now = chrono::Local::now();
    let date = now.date_naive();
    let time = now.time();
    (
        date.year(),
        date.month(),
        date.day(),
        time.num_seconds_from_midnight(),
        time.nanosecond(),
        now.offset().local_minus_utc(),
    )
}

} // verus!
