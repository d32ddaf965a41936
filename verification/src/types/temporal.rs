//! Dates, times and timestamps.
//!
//! The calendar arithmetic and the texts come from the `chrono` crate. A value here holds the
//! plain parts of a `chrono` value, within `chrono`'s own limits.

use chrono::{NaiveDate, NaiveDateTime, NaiveTime};
use vstd::prelude::*;

use crate::text;

verus! {

/// Year, month and day.
pub const DATE_FORMAT: &'static str = "%Y-%m-%d";

/// Hour, minute, second and, where there is one, the fraction of the second.
pub const TIME_FORMAT: &'static str = "%H:%M:%S%.f";

/// A date and a time with a space between them.
pub const TIMESTAMP_FORMAT: &'static str = "%Y-%m-%d %H:%M:%S%.f";

/// A date and a time with a `T` between them.
pub const TIMESTAMP_DEBUG_FORMAT: &'static str = "%Y-%m-%dT%H:%M:%S%.f";

/// Whether `year` has a 29th of February.
pub open spec fn is_leap_year(year: int) -> bool {
    year % 4 == 0 && (year % 100 != 0 || year % 400 == 0)
}

/// The number of days of a month.
pub open spec fn days_in_month(year: int, month: int) -> int {
    if month == 2 {
        if is_leap_year(year) {
            29
        } else {
            28
        }
    } else if month == 4 || month == 6 || month == 9 || month == 11 {
        30
    } else {
        31
    }
}

/// Whether there is such a day within the years that a [`Date`] can hold.
pub open spec fn is_date(year: int, month: int, day: int) -> bool {
    &&& -262143 <= year <= 262142
    &&& 1 <= month <= 12
    &&& 1 <= day <= days_in_month(year, month)
}

/// The number of days of `year` before the first of `month`.
pub open spec fn days_before_month(year: int, month: int) -> int
    decreases month,
{
    if month <= 1 {
        0
    } else {
        days_before_month(year, month - 1) + days_in_month(year, month - 1)
    }
}

/// The number of a day in the proleptic Gregorian calendar, where the first day of the year 1
/// has the number 1.
pub open spec fn day_number(year: int, month: int, day: int) -> int {
    365 * (year - 1) + (year - 1) / 4 - (year - 1) / 100 + (year - 1) / 400 + days_before_month(
        year,
        month,
    ) + day
}

/// Whether `seconds` since midnight and `nanos` make a time of day. A leap second is written as
/// a second billion of nanoseconds in the last second of a minute.
pub open spec fn is_time(seconds: int, nanos: int) -> bool {
    &&& 0 <= seconds < 86400
    &&& 0 <= nanos < 2000000000
    &&& nanos >= 1000000000 ==> seconds % 60 == 59
}

/// The text of a year: four digits, or a sign and at least four digits for a year that
/// four digits cannot write.
pub open spec fn year_text(year: int) -> Seq<char> {
    if 0 <= year <= 9999 {
        text::digits(year as nat, 4)
    } else {
        let sign = if year < 0 {
            '-'
        } else {
            '+'
        };
        let magnitude = if year < 0 {
            (-year) as nat
        } else {
            year as nat
        };
        seq![sign] + if magnitude <= 9999 {
            text::digits(magnitude, 4)
        } else {
            text::decimal(magnitude)
        }
    }
}

/// The text of the fraction of a second: none, or a point with three, six or nine digits,
/// whichever is the shortest that is exact.
pub open spec fn fraction_text(nanos: nat) -> Seq<char> {
    if nanos == 0 {
        Seq::empty()
    } else if nanos % 1000000 == 0 {
        seq!['.'] + text::digits(nanos / 1000000, 3)
    } else if nanos % 1000 == 0 {
        seq!['.'] + text::digits(nanos / 1000, 6)
    } else {
        seq!['.'] + text::digits(nanos, 9)
    }
}

/// A day of the proleptic Gregorian calendar.
#[derive(Debug, Clone, Copy, PartialEq, Eq, Hash, Structural)]
pub struct Date {
    year: i32,
    month: u32,
    day: u32,
}

/// A time of day.
#[derive(Debug, Clone, Copy, PartialEq, Eq, Hash, Structural)]
pub struct Time {
    seconds: u32,
    nanos: u32,
}

/// A date and a time of day. Where it stands for an instant, it is in UTC.
#[derive(Debug, Clone, Copy, PartialEq, Eq, Hash, Structural)]
pub struct Timestamp {
    /// The day.
    pub date: Date,
    /// The time of that day.
    pub time: Time,
}

impl Date {
    #[verifier::type_invariant]
    spec fn is_valid(self) -> bool {
        is_date(self.year as int, self.month as int, self.day as int)
    }

    /// The year.
    pub closed spec fn year(&self) -> int {
        self.year as int
    }

    /// The month, from 1 to 12.
    pub closed spec fn month(&self) -> int {
        self.month as int
    }

    /// The day of the month, from 1.
    pub closed spec fn day(&self) -> int {
        self.day as int
    }

    /// The number of the day, see [`day_number`].
    pub open spec fn number(&self) -> int {
        day_number(self.year(), self.month(), self.day())
    }

    /// The text of the date: `2024-06-15`.
    pub open spec fn text(&self) -> Seq<char> {
        year_text(self.year()) + seq!['-'] + text::digits(self.month() as nat, 2) + seq!['-']
            + text::digits(self.day() as nat, 2)
    }

    /// The date with this year, month and day, if there is one.
    pub fn from_ymd_opt(year: i32, month: u32, day: u32) -> (date: Option<Date>)
        ensures
            date is Some <==> is_date(year as int, month as int, day as int),
            date matches Some(d) ==> d.year() == year && d.month() == month && d.day() == day,
    {
        if year < -262143 || year > 262142 || month < 1 || month > 12 || day < 1 {
            return None;
        }
        let leap = year % 4 == 0 && (year % 100 != 0 || year % 400 == 0);
        let last: u32 = if month == 2 {
            if leap {
                29
            } else {
                28
            }
        } else if month == 4 || month == 6 || month == 9 || month == 11 {
            30
        } else {
            31
        };
        if day > last {
            return None;
        }
        Some(Date { year, month, day })
    }

    /// The first of January 1970.
    pub fn unix_epoch() -> (date: Date)
        ensures
            date.year() == 1970 && date.month() == 1 && date.day() == 1,
    {
        Date { year: 1970, month: 1, day: 1 }
    }

    /// Calls `NaiveDate::signed_duration_since` and `TimeDelta::num_days` on two dates: the
    /// number of days from `since` to this date is the difference of their day numbers.
    #[verifier::external_body]
    fn days_between(self, since: Date) -> (days: i64)
        ensures
            days == self.number() - since.number(),
    {
        let date = NaiveDate::from_ymd_opt(self.year, self.month, self.day).unwrap();
        let since = NaiveDate::from_ymd_opt(since.year, since.month, since.day).unwrap();
        date.signed_duration_since(since).num_days()
    }

    /// Calls `NaiveDate::format`: with year, month and day as the format, the text is that of
    /// the date. `chrono` documents the same text for `Display`.
    #[verifier::external_body]
    fn formatted(self, format: &str) -> (text: String)
        requires
            format@ == DATE_FORMAT@,
        ensures
            text@ == self.text(),
    {
        let date = NaiveDate::from_ymd_opt(self.year, self.month, self.day).unwrap();
        date.format(format).to_string()
    }

    /// The number of days since the first of January 1970.
    pub fn days_since_epoch(&self) -> (days: i32)
        ensures
            days == self.number() - day_number(1970, 1, 1),
    {
        proof {
            use_type_invariant(*self);
            reveal_with_fuel(days_before_month, 13);
        }
        let days: i64 = self.days_between(Date::unix_epoch());
        days as i32
    }

    /// The text of the date: `2024-06-15`.
    pub fn to_text(&self) -> (text: String)
        ensures
            text@ == self.text(),
    {
        self.formatted(DATE_FORMAT)
    }
}

impl Time {
    #[verifier::type_invariant]
    spec fn is_valid(self) -> bool {
        is_time(self.seconds as int, self.nanos as int)
    }

    /// The whole seconds since midnight.
    pub closed spec fn seconds(&self) -> int {
        self.seconds as int
    }

    /// The nanoseconds since the last whole second.
    pub closed spec fn nanos(&self) -> int {
        self.nanos as int
    }

    /// The microseconds since midnight.
    pub open spec fn micros(&self) -> int {
        self.seconds() * 1000000 + self.nanos() / 1000
    }

    /// The text of the time: `12:30:45`, with a fraction where there is one. A leap second has
    /// the number 60.
    pub open spec fn text(&self) -> Seq<char> {
        let leap: int = if self.nanos() >= 1000000000 {
            1
        } else {
            0
        };
        text::digits((self.seconds() / 3600) as nat, 2) + seq![':'] + text::digits(
            (self.seconds() / 60 % 60) as nat,
            2,
        ) + seq![':'] + text::digits((self.seconds() % 60 + leap) as nat, 2) + fraction_text(
            (self.nanos() % 1000000000) as nat,
        )
    }

    /// The time so many seconds after midnight and so many nanoseconds after that second, if
    /// there is one.
    pub fn from_num_seconds_from_midnight_opt(seconds: u32, nanos: u32) -> (time: Option<Time>)
        ensures
            time is Some <==> is_time(seconds as int, nanos as int),
            time matches Some(t) ==> t.seconds() == seconds && t.nanos() == nanos,
    {
        if seconds >= 86400 || nanos >= 2000000000 || (nanos >= 1000000000 && seconds % 60 != 59) {
            None
        } else {
            Some(Time { seconds, nanos })
        }
    }

    /// The time with this hour, minute and second, if there is one.
    pub fn from_hms_opt(hour: u32, minute: u32, second: u32) -> (time: Option<Time>)
        ensures
            time is Some <==> hour < 24 && minute < 60 && second < 60,
            time matches Some(t) ==> t.seconds() == hour * 3600 + minute * 60 + second && t.nanos()
                == 0,
    {
        if hour >= 24 || minute >= 60 || second >= 60 {
            None
        } else {
            Some(Time { seconds: hour * 3600 + minute * 60 + second, nanos: 0 })
        }
    }

    /// The start of the day.
    pub fn midnight() -> (time: Time)
        ensures
            time.seconds() == 0 && time.nanos() == 0,
    {
        Time { seconds: 0, nanos: 0 }
    }

    /// Calls `NaiveTime::signed_duration_since` and `TimeDelta::num_microseconds`: the
    /// microseconds from a whole second of the day to a time that is not before it. There is a
    /// number for every pair of times.
    #[verifier::external_body]
    fn micros_between(self, since: Time) -> (micros: Option<i64>)
        requires
            since.nanos() == 0,
            since.seconds() <= self.seconds(),
        ensures
            micros is Some,
            micros->0 == self.micros() - since.micros(),
    {
        let time = NaiveTime::from_num_seconds_from_midnight_opt(self.seconds, self.nanos).unwrap();
        let since = NaiveTime::from_num_seconds_from_midnight_opt(since.seconds, since.nanos).unwrap();
        time.signed_duration_since(since).num_microseconds()
    }

    /// Calls `NaiveTime::format`: with hour, minute, second and fraction as the format, the text
    /// is that of the time. `chrono` documents the same text for `Display`.
    #[verifier::external_body]
    fn formatted(self, format: &str) -> (text: String)
        requires
            format@ == TIME_FORMAT@,
        ensures
            text@ == self.text(),
    {
        let time = NaiveTime::from_num_seconds_from_midnight_opt(self.seconds, self.nanos).unwrap();
        time.format(format).to_string()
    }

    /// The number of microseconds since midnight.
    pub fn micros_since_midnight(&self) -> (micros: Option<i64>)
        ensures
            micros is Some,
            micros->0 == self.micros(),
    {
        proof {
            use_type_invariant(*self);
        }
        self.micros_between(Time::midnight())
    }

    /// The text of the time: `12:30:45`.
    pub fn to_text(&self) -> (text: String)
        ensures
            text@ == self.text(),
    {
        self.formatted(TIME_FORMAT)
    }
}

impl Timestamp {
    /// The microseconds since the start of 1970.
    pub open spec fn micros(&self) -> int {
        (self.date.number() - day_number(1970, 1, 1)) * 86400000000 + self.time.micros()
    }

    /// The date and the time with `separator` between them.
    pub open spec fn text_with(&self, separator: char) -> Seq<char> {
        self.date.text() + seq![separator] + self.time.text()
    }

    /// Calls `DateTime::timestamp_micros` on the timestamp taken as UTC: days, seconds and
    /// fraction since the start of 1970, in microseconds.
    #[verifier::external_body]
    fn utc_micros(self) -> (micros: i64)
        ensures
            micros == self.micros(),
    {
        let date = NaiveDate::from_ymd_opt(self.date.year, self.date.month, self.date.day).unwrap();
        let time = NaiveTime::from_num_seconds_from_midnight_opt(self.time.seconds, self.time.nanos).unwrap();
        NaiveDateTime::new(date, time).and_utc().timestamp_micros()
    }

    /// Calls `NaiveDateTime::format`: with one of the two formats of a date and a time, the text
    /// is the date, a space or a `T`, and the time. `chrono` documents the first text for
    /// `Display` and the second for `Debug`.
    #[verifier::external_body]
    fn formatted(self, format: &str) -> (text: String)
        requires
            format@ == TIMESTAMP_FORMAT@ || format@ == TIMESTAMP_DEBUG_FORMAT@,
        ensures
            format@ == TIMESTAMP_FORMAT@ ==> text@ == self.text_with(' '),
            format@ == TIMESTAMP_DEBUG_FORMAT@ ==> text@ == self.text_with('T'),
    {
        let date = NaiveDate::from_ymd_opt(self.date.year, self.date.month, self.date.day).unwrap();
        let time = NaiveTime::from_num_seconds_from_midnight_opt(self.time.seconds, self.time.nanos).unwrap();
        NaiveDateTime::new(date, time).format(format).to_string()
    }

    /// Calls `DateTime::<Utc>::to_string`: the date, a space, the time and the name of the zone.
    #[verifier::external_body]
    fn utc_display(self) -> (text: String)
        ensures
            text@ == self.text_with(' ') + " UTC"@,
    {
        let date = NaiveDate::from_ymd_opt(self.date.year, self.date.month, self.date.day).unwrap();
        let time = NaiveTime::from_num_seconds_from_midnight_opt(self.time.seconds, self.time.nanos).unwrap();
        NaiveDateTime::new(date, time).and_utc().to_string()
    }

    /// Calls the `Debug` formatting of `DateTime::<Utc>`: the date, a `T`, the time and a `Z`.
    #[verifier::external_body]
    fn utc_debug(self) -> (text: String)
        ensures
            text@ == self.text_with('T') + "Z"@,
    {
        let date = NaiveDate::from_ymd_opt(self.date.year, self.date.month, self.date.day).unwrap();
        let time = NaiveTime::from_num_seconds_from_midnight_opt(self.time.seconds, self.time.nanos).unwrap();
        format!("{:?}", NaiveDateTime::new(date, time).and_utc())
    }

    /// Calls `DateTime::<Utc>::to_rfc3339`: the date, a `T`, the time and the offset of UTC.
    #[verifier::external_body]
    fn utc_rfc3339(self) -> (text: String)
        ensures
            text@ == self.text_with('T') + "+00:00"@,
    {
        let date = NaiveDate::from_ymd_opt(self.date.year, self.date.month, self.date.day).unwrap();
        let time = NaiveTime::from_num_seconds_from_midnight_opt(self.time.seconds, self.time.nanos).unwrap();
        NaiveDateTime::new(date, time).and_utc().to_rfc3339()
    }

    /// The number of microseconds since the start of 1970, with the timestamp taken as UTC.
    pub fn timestamp_micros(&self) -> (micros: i64)
        ensures
            micros == self.micros(),
    {
        self.utc_micros()
    }

    /// The text of a timestamp without a time zone: `2024-06-15 12:30:45`.
    pub fn to_text(&self) -> (text: String)
        ensures
            text@ == self.text_with(' '),
    {
        self.formatted(TIMESTAMP_FORMAT)
    }

    /// The text of a timestamp without a time zone in debug output: `2024-06-15T12:30:45`.
    pub fn to_debug_text(&self) -> (text: String)
        ensures
            text@ == self.text_with('T'),
    {
        self.formatted(TIMESTAMP_DEBUG_FORMAT)
    }

    /// The text of an instant: `2024-06-15 12:30:45 UTC`.
    pub fn to_utc_text(&self) -> (text: String)
        ensures
            text@ == self.text_with(' ') + " UTC"@,
    {
        self.utc_display()
    }

    /// The text of an instant in debug output: `2024-06-15T12:30:45Z`.
    pub fn to_utc_debug_text(&self) -> (text: String)
        ensures
            text@ == self.text_with('T') + "Z"@,
    {
        self.utc_debug()
    }

    /// The text of an instant after RFC 3339: `2024-06-15T12:30:45+00:00`.
    pub fn to_rfc3339(&self) -> (text: String)
        ensures
            text@ == self.text_with('T') + "+00:00"@,
    {
        self.utc_rfc3339()
    }
}

} // verus!
