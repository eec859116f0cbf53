//! Calendar date-times without a time zone, and the whole days between two of them.

use chrono::NaiveDate;
use vstd::prelude::*;

verus! {

/// The earliest year a [`Timestamp`] can hold.
pub const MIN_YEAR: i32 = -262143;

/// The latest year a [`Timestamp`] can hold.
pub const MAX_YEAR: i32 = 262142;

/// The fields of a date-time as mathematical integers.
pub struct Civil {
    pub year: int,
    pub month: int,
    pub day: int,
    pub hour: int,
    pub minute: int,
    pub second: int,
    pub nanosecond: int,
}

/// Leap years of the proleptic Gregorian calendar, year 0 included.
pub open spec fn is_leap_year(year: int) -> bool {
    year % 4 == 0 && (year % 100 != 0 || year % 400 == 0)
}

/// Number of days of `month` in `year`, for `month` in `1..=12`.
pub open spec fn days_in_month(year: int, month: int) -> int {
    if month == 2 {
        if is_leap_year(year) {
            29
        } else {
            28
        }
    } else if month == 4 || month == 6 || month == 9 || month == 11 {
        30
    } else {
        31
    }
}

/// The day exists in the calendar and its year is within range.
pub open spec fn valid_date(year: int, month: int, day: int) -> bool {
    &&& MIN_YEAR <= year <= MAX_YEAR
    &&& 1 <= month <= 12
    &&& 1 <= day <= days_in_month(year, month)
}

/// A time of day. A nanosecond of a thousand million or more stands for a
/// leap second and is only allowed in the last second of a minute.
pub open spec fn valid_time(hour: int, minute: int, second: int, nanosecond: int) -> bool {
    &&& 0 <= hour < 24
    &&& 0 <= minute < 60
    &&& 0 <= second < 60
    &&& 0 <= nanosecond < 2_000_000_000
    &&& (nanosecond >= 1_000_000_000 ==> second == 59)
}

impl Civil {
    /// Both the date and the time of day are valid.
    pub open spec fn is_valid(self) -> bool {
        valid_date(self.year, self.month, self.day) && valid_time(
            self.hour,
            self.minute,
            self.second,
            self.nanosecond,
        )
    }
}

/// A valid calendar date and time of day, without a time zone.
#[derive(Clone, Copy, Debug, PartialEq, Eq, Structural)]
pub struct Timestamp {
    year: i32,
    month: u32,
    day: u32,
    hour: u32,
    minute: u32,
    second: u32,
    nanosecond: u32,
}

impl View for Timestamp {
    type V = Civil;

    closed spec fn view(&self) -> Civil {
        Civil {
            year: self.year as int,
            month: self.month as int,
            day: self.day as int,
            hour: self.hour as int,
            minute: self.minute as int,
            second: self.second as int,
            nanosecond: self.nanosecond as int,
        }
    }
}

/// Whether `year` is a leap year.
pub fn leap_year(year: i32) -> (leap: bool)
    ensures
        leap == is_leap_year(year as int),
{
    year % 4 == 0 && (year % 100 != 0 || year % 400 == 0)
}

/// Number of days of `month` in `year`. A month that does not exist counts
/// as a long one.
pub fn month_length(year: i32, month: u32) -> (days: u32)
    ensures
        days == days_in_month(year as int, month as int),
{
    if month == 2 {
        if leap_year(year) {
            29
        } else {
            28
        }
    } else if month == 4 || month == 6 || month == 9 || month == 11 {
        30
    } else {
        31
    }
}

/// The number of whole days that `chrono` counts from `earlier` to `later`:
/// the days in their difference as durations, the rest of a day dropped.
/// It is negative where `later` is a day or more before `earlier`.
pub uninterp spec fn whole_days_between(later: Civil, earlier: Civil) -> int;

/// Calls `chrono::NaiveDateTime::signed_duration_since` on the two date-times
/// and `chrono::TimeDelta::num_days` on their difference.
///
/// Each argument is rebuilt with `NaiveDate::from_ymd_opt` and
/// `NaiveDate::and_hms_nano_opt`, which accept exactly the fields that
/// [`Civil::is_valid`] describes. The contract only gives the result its name:
/// the same two date-times always give the same number of days.
#[verifier::external_body]
fn elapsed_days(later: &Timestamp, earlier: &Timestamp) -> (days: i64)
    requires
        later@.is_valid(),
        earlier@.is_valid(),
    ensures
        days == whole_days_between(later@, earlier@),
{
    let a = NaiveDate::from_ymd_opt(later.year, later.month, later.day)
        .unwrap()
        .and_hms_nano_opt(later.hour, later.minute, later.second, later.nanosecond)
        .unwrap();
    let b = NaiveDate::from_ymd_opt(earlier.year, earlier.month, earlier.day)
        .unwrap()
        .and_hms_nano_opt(earlier.hour, earlier.minute, earlier.second, earlier.nanosecond)
        .unwrap();
    a.signed_duration_since(b).num_days()
}

impl Timestamp {
    #[verifier::type_invariant]
    spec fn well_formed(self) -> bool {
        self@.is_valid()
    }

    /// The date-time with the given fields, if there is one.
    pub fn new(
        year: i32,
        month: u32,
        day: u32,
        hour: u32,
        minute: u32,
        second: u32,
        nanosecond: u32,
    ) -> (made: Option<Timestamp>)
        ensures
            made is Some <==> valid_date(year as int, month as int, day as int) && valid_time(
                hour as int,
                minute as int,
                second as int,
                nanosecond as int,
            ),
            made is Some ==> made->0@ == (Civil {
                year: year as int,
                month: month as int,
                day: day as int,
                hour: hour as int,
                minute: minute as int,
                second: second as int,
                nanosecond: nanosecond as int,
            }),
    {
        if year < MIN_YEAR || year > MAX_YEAR || month < 1 || month > 12 || day < 1 {
            return None;
        }
        if day > month_length(year, month) {
            return None;
        }
        if hour >= 24 || minute >= 60 || second >= 60 || nanosecond >= 2_000_000_000 {
            return None;
        }
        if nanosecond >= 1_000_000_000 && second != 59 {
            return None;
        }
        Some(Timestamp { year, month, day, hour, minute, second, nanosecond })
    }

    /// The first moment of the year 1900, which stands for "never".
    pub closed spec fn never() -> Timestamp {
        Timestamp { year: 1900, month: 1, day: 1, hour: 0, minute: 0, second: 0, nanosecond: 0 }
    }

    /// The date-time that a plant holds before it was ever watered.
    pub fn never_watered() -> (t: Timestamp)
        ensures
            t == Timestamp::never(),
            t@ == (Civil {
                year: 1900,
                month: 1,
                day: 1,
                hour: 0,
                minute: 0,
                second: 0,
                nanosecond: 0,
            }),
    {
        Timestamp { year: 1900, month: 1, day: 1, hour: 0, minute: 0, second: 0, nanosecond: 0 }
    }

    /// The whole days from `earlier` to `self`.
    pub fn days_since(&self, earlier: &Timestamp) -> (days: i64)
        ensures
            days == whole_days_between(self@, earlier@),
    {
        proof {
            use_type_invariant(self);
            use_type_invariant(earlier);
        }
        elapsed_days(self, earlier)
    }

    /// The year, with 0 for 1 BCE.
    pub fn year(&self) -> (year: i32)
        ensures
            year == self@.year,
    {
        self.year
    }

    /// The month, from 1.
    pub fn month(&self) -> (month: u32)
        ensures
            month == self@.month,
    {
        self.month
    }

    /// The day of the month, from 1.
    pub fn day(&self) -> (day: u32)
        ensures
            day == self@.day,
    {
        self.day
    }

    /// The hour of the day.
    pub fn hour(&self) -> (hour: u32)
        ensures
            hour == self@.hour,
    {
        self.hour
    }

    /// The minute of the hour.
    pub fn minute(&self) -> (minute: u32)
        ensures
            minute == self@.minute,
    {
        self.minute
    }

    /// The second of the minute.
    pub fn second(&self) -> (second: u32)
        ensures
            second == self@.second,
    {
        self.second
    }

    /// The nanosecond of the second; a thousand million or more in a leap second.
    pub fn nanosecond(&self) -> (nanosecond: u32)
        ensures
            nanosecond == self@.nanosecond,
    {
        self.nanosecond
    }
}

} // verus!
