//! How days and times are counted.

use vstd::prelude::*;

use crate::types::temporal::{
    Date, Time, Timestamp, day_number, days_before_month, is_date, is_leap_year,
    is_time,
};

verus! {

/// The days are numbered one after the other: within a month, from a month to the next, and from a
/// year to the next.
pub proof fn days_follow_each_other(year: int, month: int, day: int)
    requires
        is_date(year, month, day),
    ensures
        is_date(year, month, day + 1) ==> day_number(year, month, day + 1) == day_number(
            year,
            month,
            day,
        ) + 1,
        !is_date(year, month, day + 1) && month < 12 ==> day_number(year, month + 1, 1)
            == day_number(year, month, day) + 1,
        !is_date(year, month, day + 1) && month == 12 ==> day_number(year + 1, 1, 1) == day_number(
            year,
            month,
            day,
        ) + 1,
{
    if month == 12 {
        days_of_a_year(year);
        assert(days_before_month(year + 1, 1) == 0);
        leap_years_are_longer(year);
    }
}

proof fn days_of_a_year(year: int)
    ensures
        days_before_month(year, 12) == if is_leap_year(year) {
            335int
        } else {
            334int
        },
{
    reveal_with_fuel(days_before_month, 13);
}

proof fn leap_years_are_longer(year: int)
    ensures
        year / 4 - year / 100 + year / 400 - ((year - 1) / 4 - (year - 1) / 100 + (year - 1) / 400)
            == if is_leap_year(year) {
            1int
        } else {
            0int
        },
{
}

/// The months have their lengths: the last day of a month is the 30th of April, June, September and
/// November, the 28th or 29th of February and the 31st of every other one. There is a 29th of
/// February every four years, but not every hundred, but every four hundred.
pub proof fn months_have_their_lengths(year: int, month: int, day: int)
    requires
        -262143 <= year <= 262142,
        1 <= month <= 12,
    ensures
        is_date(year, month, day) ==> 1 <= day <= 31,
        1 <= day <= 28 ==> is_date(year, month, day),
        month != 2 ==> is_date(year, month, 30),
        is_date(year, month, 31) <==> (month == 1 || month == 3 || month == 5 || month == 7 || month
            == 8 || month == 10 || month == 12),
        !is_date(year, 2, 30),
        is_date(year, 2, 29) <==> year % 400 == 0 || (year % 4 == 0 && year % 100 != 0),
{
}

/// There are twelve months, and the years go from 262143 before the year zero to 262142 after it.
pub proof fn years_have_their_range(year: int, month: int, day: int)
    ensures
        is_date(year, month, day) ==> 1 <= month <= 12 && 1 <= day,
        is_date(year, month, day) ==> -262143 <= year <= 262142,
        1 <= month <= 12 ==> (is_date(year, month, 1) <==> -262143 <= year <= 262142),
{
}

/// The days of 1970 count from zero, and the first day of the next four centuries comes 146097 days
/// later.
pub proof fn days_count_from_1970(date: Date)
    requires
        is_date(date.year(), date.month(), date.day()),
    ensures
        date.year() == 1970 && date.month() == 1 ==> date.number() - day_number(1970, 1, 1)
            == date.day() - 1,
        day_number(date.year() + 400, 1, 1) - day_number(date.year(), 1, 1) == 146097,
        date.number() == day_number(date.year(), date.month(), 1) + date.day() - 1,
        date.number() == day_number(date.year(), date.month(), date.day()),
{
    reveal_with_fuel(days_before_month, 2);
}

/// The microseconds of a time are its whole microseconds since midnight.
pub proof fn times_count_microseconds(time: Time)
    requires
        is_time(time.seconds(), time.nanos()),
    ensures
        1000 * time.micros() <= 1000000000 * time.seconds() + time.nanos(),
        1000000000 * time.seconds() + time.nanos() < 1000 * (time.micros() + 1),
        time.micros() >= 0,
{
}

/// The microseconds of a timestamp are those of its day since the start of 1970 and those of its
/// time. Timestamps on one day are as far apart as their times, and at one time as far as their
/// days.
pub proof fn timestamps_count_microseconds(left: Timestamp, right: Timestamp)
    ensures
        left.date == right.date ==> left.micros() - right.micros() == left.time.micros()
            - right.time.micros(),
        left.time == right.time ==> left.micros() - right.micros() == 86400000000 * (
        left.date.number() - right.date.number()),
        left.date.number() == day_number(1970, 1, 1) ==> left.micros() == left.time.micros(),
{
}

/// A date is one of the calendar, and keeps its year, its month and its day. Its days since the
/// start of 1970 count from that day.
pub proof fn dates_are_made_of_their_parts(
    year: i32,
    month: u32,
    day: u32,
    made: Option<Date>,
    date: Date,
    epoch: Date,
    days: i32,
)
    requires
        call_ensures(Date::from_ymd_opt, (year, month, day), made),
        call_ensures(Date::unix_epoch, (), epoch),
        call_ensures(Date::days_since_epoch, (&date,), days),
    ensures
        made is Some <==> is_date(year as int, month as int, day as int),
        made matches Some(d) ==> d.year() == year && d.month() == month && d.day() == day,
        epoch.number() == day_number(1970, 1, 1),
        days == date.number() - epoch.number(),
{
}

/// A time is one of a day, and keeps its hours, its minutes and its seconds, which microseconds are
/// counted of. Only the last second of a minute can be a leap second.
pub proof fn times_are_made_of_their_parts(
    hour: u32,
    minute: u32,
    second: u32,
    made: Option<Time>,
    seconds: u32,
    nanos: u32,
    counted: Option<Time>,
    midnight: Time,
)
    requires
        call_ensures(Time::from_hms_opt, (hour, minute, second), made),
        call_ensures(Time::from_num_seconds_from_midnight_opt, (seconds, nanos), counted),
        call_ensures(Time::midnight, (), midnight),
    ensures
        made is Some <==> hour <= 23 && minute <= 59 && second <= 59,
        made matches Some(time) ==> time.micros() == 1000000 * (60 * (60 * hour + minute) + second),
        counted is Some <==> seconds < 24 * 60 * 60 && (nanos < 1000000000 || (nanos < 2000000000
            && (seconds + 1) % 60 == 0)),
        counted matches Some(time) ==> time.seconds() == seconds && time.nanos() == nanos,
        midnight.micros() == 0,
{
}

/// What is counted of a time and of a timestamp is its number of microseconds.
pub proof fn microseconds_are_counted(
    time: Time,
    since_midnight: Option<i64>,
    timestamp: Timestamp,
    since_epoch: i64,
)
    requires
        call_ensures(Time::micros_since_midnight, (&time,), since_midnight),
        call_ensures(Timestamp::timestamp_micros, (&timestamp,), since_epoch),
    ensures
        since_midnight matches Some(micros) && micros == time.micros(),
        since_epoch == 86400000000 * (timestamp.date.number() - day_number(1970, 1, 1))
            + timestamp.time.micros(),
{
}

/// A timestamp is written with a blank or with a `T` between its date and its time, and with its
/// time zone where it has one.
pub proof fn timestamps_are_written_with_their_zone(
    timestamp: Timestamp,
    plain: String,
    debug: String,
    utc: String,
    utc_debug: String,
    rfc3339: String,
)
    requires
        call_ensures(Timestamp::to_text, (&timestamp,), plain),
        call_ensures(Timestamp::to_debug_text, (&timestamp,), debug),
        call_ensures(Timestamp::to_utc_text, (&timestamp,), utc),
        call_ensures(Timestamp::to_utc_debug_text, (&timestamp,), utc_debug),
        call_ensures(Timestamp::to_rfc3339, (&timestamp,), rfc3339),
    ensures
        plain@ == timestamp.date.text() + seq![' '] + timestamp.time.text(),
        debug@ == timestamp.date.text() + seq!['T'] + timestamp.time.text(),
        utc@ == plain@ + " UTC"@,
        utc_debug@ == debug@ + "Z"@,
        rfc3339@ == debug@ + "+00:00"@,
{
}

/// Dates and times are written as their texts.
pub proof fn dates_and_times_are_written(date: Date, day: String, time: Time, clock: String)
    requires
        call_ensures(Date::to_text, (&date,), day),
        call_ensures(Time::to_text, (&time,), clock),
    ensures
        day@ == date.text(),
        clock@ == time.text(),
{
}

} // verus!
