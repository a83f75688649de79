//! Calendar days and points in time, as plain values.
//!
//! The calendar itself (reading a date, printing a date or a time stamp, the
//! current day) is chrono's.

use chrono::{Datelike, TimeZone};
use vstd::prelude::*;

verus! {

/// The first and the last year that chrono's dates cover.
pub const MIN_YEAR: i32 = -262143;

pub const MAX_YEAR: i32 = 262142;

pub open spec fn leap_year(year: int) -> bool {
    year % 4 == 0 && (year % 100 != 0 || year % 400 == 0)
}

pub open spec fn days_in_month(year: int, month: int) -> int {
    if month == 2 {
        if leap_year(year) {
            29
        } else {
            28
        }
    } else if month == 4 || month == 6 || month == 9 || month == 11 {
        30
    } else {
        31
    }
}

/// A day that exists in the proleptic Gregorian calendar, in a covered year.
pub open spec fn calendar_day(year: int, month: int, day: int) -> bool {
    &&& MIN_YEAR <= year <= MAX_YEAR
    &&& 1 <= month <= 12
    &&& 1 <= day <= days_in_month(year, month)
}

/// The decimal digit `n` as a character.
pub open spec fn digit(n: int) -> char {
    (48 + n) as char
}

/// `n` in two digits.
pub open spec fn two_digits(n: int) -> Seq<char> {
    seq![digit(n / 10), digit(n % 10)]
}

/// `n` in as many digits as it takes.
pub open spec fn decimal(n: int) -> Seq<char>
    decreases n,
{
    if n < 10 {
        seq![digit(n)]
    } else {
        decimal(n / 10).push(digit(n % 10))
    }
}

/// `n` in at least four digits.
pub open spec fn four_digits(n: int) -> Seq<char> {
    if n <= 9999 {
        two_digits(n / 100) + two_digits(n % 100)
    } else {
        decimal(n)
    }
}

/// A year of at least four digits; one outside 0 to 9999 has its sign before it.
pub open spec fn year_text(year: int) -> Seq<char> {
    if 0 <= year <= 9999 {
        four_digits(year)
    } else if year < 0 {
        seq!['-'] + four_digits(-year)
    } else {
        seq!['+'] + four_digits(year)
    }
}

/// A day as `YYYY-MM-DD`.
pub open spec fn day_text(year: int, month: int, day: int) -> Seq<char> {
    year_text(year) + seq!['-'] + two_digits(month) + seq!['-'] + two_digits(day)
}

/// The days of the calendar, compared by year, month and day.
pub open spec fn day_lt(a: (int, int, int), b: (int, int, int)) -> bool {
    ||| a.0 < b.0
    ||| a.0 == b.0 && a.1 < b.1
    ||| a.0 == b.0 && a.1 == b.1 && a.2 < b.2
}

/// `chrono::ParseError`, what chrono returns for a text that is no date.
#[verifier::external_type_specification]
#[verifier::external_body]
pub struct ExParseError(chrono::ParseError);

/// What `chrono::NaiveDate::parse_from_str` reads from a text under a format:
/// year, month and day, or nothing.
pub uninterp spec fn parsed_day(text: Seq<char>, format: Seq<char>) -> Option<(int, int, int)>;

/// `chrono::NaiveDate::parse_from_str`, under the format `%Y-%m-%d`: the result
/// depends on the text and the format alone; a date that is read exists in the
/// calendar; and a date printed as `YYYY-MM-DD` is read back. Other formats are
/// left out: under one with an ISO year and week, a text can name a year on which
/// the call overflows.
#[verifier::external_body]
fn parse_from_str(text: &str, format: &str) -> (r: Result<(i32, u32, u32), chrono::ParseError>)
    requires
        format@ == "%Y-%m-%d"@,
    ensures
        match r {
            Ok(d) => parsed_day(text@, format@) == Some((d.0 as int, d.1 as int, d.2 as int))
                && calendar_day(d.0 as int, d.1 as int, d.2 as int),
            Err(_) => parsed_day(text@, format@) is None,
        },
        forall|y: int, m: int, d: int|
            #![trigger day_text(y, m, d)]
            calendar_day(y, m, d) && text@ == day_text(y, m, d) ==> {
                &&& r is Ok
                &&& r->Ok_0.0 == y
                &&& r->Ok_0.1 == m
                &&& r->Ok_0.2 == d
            },
{
    chrono::NaiveDate::parse_from_str(text, format).map(|d| (d.year(), d.month(), d.day()))
}

/// The `Display` of `chrono::NaiveDate`: the date as `YYYY-MM-DD`, with a sign
/// before a year that does not have four digits.
#[verifier::external_body]
fn day_to_string(year: i32, month: u32, day: u32) -> (r: String)
    requires
        calendar_day(year as int, month as int, day as int),
    ensures
        r@ == day_text(year as int, month as int, day as int),
{
    chrono::NaiveDate::from_ymd_opt(year, month, day).unwrap().to_string()
}

/// `chrono::Utc::now` and its `date_naive`: the current day, in UTC. Which day
/// that is depends on the clock; it is a day of the calendar. On a clock that is
/// set before 1970 the call panics.
#[verifier::external_body]
fn utc_today() -> (r: (i32, u32, u32))
    ensures
        calendar_day(r.0 as int, r.1 as int, r.2 as int),
{
    let day = chrono::Utc::now().date_naive();
    (day.year(), day.month(), day.day())
}

/// The text that chrono's `DateTime::to_rfc3339` gives for a number of seconds
/// since the Unix epoch, the nanoseconds after it, and an offset from UTC in
/// seconds.
pub uninterp spec fn rfc3339_text(seconds: int, nanos: int, offset: int) -> Seq<char>;

/// The points in time that chrono's `DateTime` covers: nanoseconds of a second
/// or more stand for a leap second, at the end of a minute.
pub open spec fn time_point(seconds: int, nanos: int, offset: int) -> bool {
    &&& -8_334_601_228_800 <= seconds <= 8_210_266_876_799
    &&& 0 <= nanos < 2_000_000_000
    &&& nanos >= 1_000_000_000 ==> seconds % 60 == 59
    &&& -86_400 < offset < 86_400
}

/// `to_rfc3339` of a `chrono::DateTime<FixedOffset>`, made by `timestamp_opt`:
/// the text depends on the time and the offset alone.
#[verifier::external_body]
fn to_rfc3339(seconds: i64, nanos: u32, offset: i32) -> (r: String)
    requires
        time_point(seconds as int, nanos as int, offset as int),
    ensures
        r@ == rfc3339_text(seconds as int, nanos as int, offset as int),
{
    let zone = chrono::FixedOffset::east_opt(offset).unwrap();
    zone.timestamp_opt(seconds, nanos).unwrap().to_rfc3339()
}

/// A day of the calendar.
#[derive(Clone, Copy, Debug)]
pub struct Date {
    year: i32,
    month: u32,
    day: u32,
}

impl Date {
    #[verifier::type_invariant]
    spec fn is_calendar_day(self) -> bool {
        calendar_day(self.year as int, self.month as int, self.day as int)
    }

    /// Year, month and day.
    pub closed spec fn ymd(self) -> (int, int, int) {
        (self.year as int, self.month as int, self.day as int)
    }

    pub open spec fn lt(self, other: Date) -> bool {
        day_lt(self.ymd(), other.ymd())
    }

    pub open spec fn le(self, other: Date) -> bool {
        !other.lt(self)
    }

    /// The day as `YYYY-MM-DD`.
    pub open spec fn text(self) -> Seq<char> {
        day_text(self.ymd().0, self.ymd().1, self.ymd().2)
    }

    /// The day with these three numbers, if the calendar has it.
    pub fn new(year: i32, month: u32, day: u32) -> (r: Option<Date>)
        ensures
            r is Some <==> calendar_day(year as int, month as int, day as int),
            r matches Some(d) ==> d.ymd() == (year as int, month as int, day as int),
    {
        if year < MIN_YEAR || year > MAX_YEAR || month < 1 || month > 12 || day < 1 {
            return None;
        }
        let y: i64 = year as i64 + 400_000;
        proof {
            assert(y % 4 == (year as int) % 4);
            assert(y % 100 == (year as int) % 100);
            assert(y % 400 == (year as int) % 400);
        }
        let leap = y % 4 == 0 && (y % 100 != 0 || y % 400 == 0);
        let last: u32 = if month == 2 {
            if leap {
                29
            } else {
                28
            }
        } else if month == 4 || month == 6 || month == 9 || month == 11 {
            30
        } else {
            31
        };
        if day > last {
            return None;
        }
        Some(Date { year, month, day })
    }

    pub fn year(&self) -> (r: i32)
        ensures
            r == self.ymd().0,
    {
        self.year
    }

    pub fn month(&self) -> (r: u32)
        ensures
            r == self.ymd().1,
    {
        self.month
    }

    pub fn day(&self) -> (r: u32)
        ensures
            r == self.ymd().2,
    {
        self.day
    }

    /// Whether this day comes before `other`.
    pub fn is_before(&self, other: &Date) -> (r: bool)
        ensures
            r == self.lt(*other),
    {
        self.year < other.year || (self.year == other.year && (self.month < other.month || (
        self.month == other.month && self.day < other.day)))
    }

    /// The day as `YYYY-MM-DD`.
    pub fn to_string(&self) -> (r: String)
        ensures
            r@ == self.text(),
            calendar_day(self.ymd().0, self.ymd().1, self.ymd().2),
    {
        proof {
            use_type_invariant(self);
        }
        day_to_string(self.year, self.month, self.day)
    }

    /// The day that a text names as `YYYY-MM-DD`, if it names one.
    pub fn parse(text: &str) -> (r: Option<Date>)
        ensures
            match r {
                Some(d) => parsed_day(text@, "%Y-%m-%d"@) == Some(d.ymd()) && calendar_day(
                    d.ymd().0,
                    d.ymd().1,
                    d.ymd().2,
                ),
                None => parsed_day(text@, "%Y-%m-%d"@) is None,
            },
            forall|d: Date|
                #![trigger d.text()]
                calendar_day(d.ymd().0, d.ymd().1, d.ymd().2) && text@ == d.text() ==> r == Some(d),
    {
        match parse_from_str(text, "%Y-%m-%d") {
            Ok(d) => Some(Date { year: d.0, month: d.1, day: d.2 }),
            Err(_) => None,
        }
    }

    /// The clock has given this day: it is one that a call of `utc_today` returns.
    pub closed spec fn on_the_clock(self) -> bool {
        call_ensures(utc_today, (), (self.year, self.month, self.day))
    }

    /// The current day, in UTC.
    pub fn today() -> (r: Date)
        ensures
            r.on_the_clock(),
            calendar_day(r.ymd().0, r.ymd().1, r.ymd().2),
    {
        let clock = utc_today;
        let d = clock();
        Date { year: d.0, month: d.1, day: d.2 }
    }
}

/// A day is on the clock only if the clock has given it.
proof fn the_clock_gives_days(day: Date)
    requires
        day.on_the_clock(),
    ensures
        call_ensures(utc_today, (), (day.year, day.month, day.day)),
{
}

/// Two dates with the same year, month and day are one date.
pub proof fn same_day(a: Date, b: Date)
    ensures
        a == b <==> a.ymd() == b.ymd(),
        a == b <==> a.le(b) && b.le(a),
{
}

/// A point in time, with the offset from UTC under which it is shown.
#[derive(Clone, Copy, Debug)]
pub struct Timestamp {
    seconds: i64,
    nanos: u32,
    offset: i32,
}

impl Timestamp {
    #[verifier::type_invariant]
    spec fn is_time_point(self) -> bool {
        time_point(self.seconds as int, self.nanos as int, self.offset as int)
    }

    /// Seconds since the Unix epoch and nanoseconds after it.
    pub closed spec fn instant(self) -> (int, int) {
        (self.seconds as int, self.nanos as int)
    }

    /// The offset from UTC, in seconds.
    pub closed spec fn offset(self) -> int {
        self.offset as int
    }

    /// The point in time as RFC 3339 writes it.
    pub open spec fn text(self) -> Seq<char> {
        rfc3339_text(self.instant().0, self.instant().1, self.offset())
    }

    /// `self` is no later than `other`, whatever the offsets.
    pub open spec fn le(self, other: Timestamp) -> bool {
        ||| self.instant().0 < other.instant().0
        ||| self.instant().0 == other.instant().0 && self.instant().1 <= other.instant().1
    }

    /// The point in time with these numbers, if there is one.
    pub fn new(seconds: i64, nanos: u32, offset: i32) -> (r: Option<Timestamp>)
        ensures
            r is Some <==> time_point(seconds as int, nanos as int, offset as int),
            r matches Some(t) ==> t.instant() == (seconds as int, nanos as int) && t.offset()
                == offset as int,
    {
        if seconds < -8_334_601_228_800 || seconds > 8_210_266_876_799 {
            return None;
        }
        if nanos >= 2_000_000_000 || offset <= -86_400 || offset >= 86_400 {
            return None;
        }
        let shifted: i64 = seconds + 8_334_601_228_800;
        proof {
            assert(shifted % 60 == (seconds as int) % 60);
        }
        if nanos >= 1_000_000_000 && shifted % 60 != 59 {
            return None;
        }
        Some(Timestamp { seconds, nanos, offset })
    }

    /// The point in time as RFC 3339 writes it.
    pub fn to_rfc3339(&self) -> (r: String)
        ensures
            r@ == self.text(),
    {
        proof {
            use_type_invariant(self);
        }
        to_rfc3339(self.seconds, self.nanos, self.offset)
    }
}

} // verus!
