//! Conversion of a seconds counter into a civil date, time of day and weekday.
//!
//! The counter holds the seconds that have passed since 1970-01-01 00:00:00,
//! a Thursday. Dates follow the Gregorian leap rule; there are no time zones.

use crate::text::{push_zero_padded, zero_padded};
use vstd::prelude::*;

verus! {

/// Seconds in one day.
pub const SECONDS_PER_DAY: u32 = 86400;

/// The seven days of the week.
#[derive(Debug, Clone, Copy, PartialEq, Eq, Structural)]
pub enum DayOfWeek {
    Monday,
    Tuesday,
    Wednesday,
    Thursday,
    Friday,
    Saturday,
    Sunday,
}

impl DayOfWeek {
    /// The weekday that falls `days` days after the epoch, itself a Thursday.
    pub open spec fn of_days(days: int) -> DayOfWeek {
        let r = days % 7;
        if r == 0 {
            DayOfWeek::Thursday
        } else if r == 1 {
            DayOfWeek::Friday
        } else if r == 2 {
            DayOfWeek::Saturday
        } else if r == 3 {
            DayOfWeek::Sunday
        } else if r == 4 {
            DayOfWeek::Monday
        } else if r == 5 {
            DayOfWeek::Tuesday
        } else {
            DayOfWeek::Wednesday
        }
    }

    /// The English name of the weekday.
    pub open spec fn name_text(self) -> Seq<char> {
        match self {
            DayOfWeek::Monday => "Monday"@,
            DayOfWeek::Tuesday => "Tuesday"@,
            DayOfWeek::Wednesday => "Wednesday"@,
            DayOfWeek::Thursday => "Thursday"@,
            DayOfWeek::Friday => "Friday"@,
            DayOfWeek::Saturday => "Saturday"@,
            DayOfWeek::Sunday => "Sunday"@,
        }
    }

    /// The English name of the weekday.
    pub fn name(&self) -> (name: &'static str)
        ensures
            name@ == self.name_text(),
    {
        match self {
            DayOfWeek::Monday => "Monday",
            DayOfWeek::Tuesday => "Tuesday",
            DayOfWeek::Wednesday => "Wednesday",
            DayOfWeek::Thursday => "Thursday",
            DayOfWeek::Friday => "Friday",
            DayOfWeek::Saturday => "Saturday",
            DayOfWeek::Sunday => "Sunday",
        }
    }

    /// The printed form of the weekday: its English name.
    pub fn to_string(&self) -> (text: String)
        ensures
            text@ == self.name_text(),
    {
        let mut text = String::new();
        text.push_str(self.name());
        assert(text@ =~= self.name_text());
        text
    }

    /// The weekday of the day that lies `days` days after the epoch.
    pub fn from_days_since_epoch(days: u32) -> (weekday: DayOfWeek)
        ensures
            weekday == Self::of_days(days as int),
    {
        let r: u32 = days % 7;
        if r == 0 {
            DayOfWeek::Thursday
        } else if r == 1 {
            DayOfWeek::Friday
        } else if r == 2 {
            DayOfWeek::Saturday
        } else if r == 3 {
            DayOfWeek::Sunday
        } else if r == 4 {
            DayOfWeek::Monday
        } else if r == 5 {
            DayOfWeek::Tuesday
        } else {
            DayOfWeek::Wednesday
        }
    }
}

/// The Gregorian leap rule: every fourth year, except the centuries that
/// four hundred does not divide.
pub open spec fn is_leap_year(year: int) -> bool {
    year % 4 == 0 && (year % 100 != 0 || year % 400 == 0)
}

/// Number of days in `year`.
pub open spec fn days_in_year(year: int) -> int {
    if is_leap_year(year) {
        366
    } else {
        365
    }
}

/// Number of leap years from 1970 up to, and not including, `year`.
pub open spec fn leap_years_before(year: int) -> int {
    (year - 1969) / 4 - (year - 1901) / 100 + (year - 1601) / 400
}

/// Number of days from the epoch to the first of January of `year`.
pub open spec fn days_before_year(year: int) -> int {
    365 * (year - 1970) + leap_years_before(year)
}

/// Number of days in `month` (1 for January to 12 for December) of a year
/// that is a leap year or not.
pub open spec fn days_in_month(leap: bool, month: int) -> int {
    if month == 2 {
        if leap {
            29
        } else {
            28
        }
    } else if month == 4 || month == 6 || month == 9 || month == 11 {
        30
    } else {
        31
    }
}

/// Number of days of the year that lie before the first of `month`; for
/// `month` 13 this is the length of the year.
pub open spec fn days_before_month(leap: bool, month: int) -> int {
    let common: int = if month <= 1 {
        0
    } else if month == 2 {
        31
    } else if month == 3 {
        59
    } else if month == 4 {
        90
    } else if month == 5 {
        120
    } else if month == 6 {
        151
    } else if month == 7 {
        181
    } else if month == 8 {
        212
    } else if month == 9 {
        243
    } else if month == 10 {
        273
    } else if month == 11 {
        304
    } else if month == 12 {
        334
    } else {
        365
    };
    if leap && month > 2 {
        common + 1
    } else {
        common
    }
}

/// A date, a time of day and a weekday.
#[derive(Debug, Clone, Copy, PartialEq, Eq, Structural)]
pub struct DateTime {
    pub year: u16,
    pub month: u8,
    pub day: u8,
    pub hour: u8,
    pub min: u8,
    pub sec: u8,
    pub day_of_week: DayOfWeek,
}

impl DateTime {
    /// Days from the epoch to the date that the fields name.
    pub open spec fn days_since_epoch(&self) -> int {
        days_before_year(self.year as int) + days_before_month(
            is_leap_year(self.year as int),
            self.month as int,
        ) + (self.day - 1)
    }

    /// Seconds from the epoch to the instant that the fields name.
    pub open spec fn seconds_since_epoch(&self) -> int {
        self.days_since_epoch() * 86400 + self.hour * 3600 + self.min * 60 + self.sec
    }

    /// The fields name a day of the calendar not before the epoch and a time
    /// of that day, and the weekday is the one of that day.
    pub open spec fn well_formed(&self) -> bool {
        &&& self.year >= 1970
        &&& 1 <= self.month <= 12
        &&& 1 <= self.day <= days_in_month(is_leap_year(self.year as int), self.month as int)
        &&& self.hour < 24
        &&& self.min < 60
        &&& self.sec < 60
        &&& self.day_of_week == DayOfWeek::of_days(self.days_since_epoch())
    }

    /// The printed form: year, month and day with hyphens between them, a
    /// space, hours, minutes and seconds with colons between them, a space,
    /// and the weekday's name in round brackets. The year is filled up with
    /// zeros to four digits, every other number to two.
    pub open spec fn text(&self) -> Seq<char> {
        zero_padded(self.year as nat, 4) + seq!['-'] + zero_padded(self.month as nat, 2)
            + seq!['-'] + zero_padded(self.day as nat, 2) + seq![' '] + zero_padded(
            self.hour as nat,
            2,
        ) + seq![':'] + zero_padded(self.min as nat, 2) + seq![':'] + zero_padded(
            self.sec as nat,
            2,
        ) + seq![' ', '('] + self.day_of_week.name_text() + seq![')']
    }

    /// Whether `year` has a 29th of February.
    pub fn is_leap(year: u16) -> (leap: bool)
        ensures
            leap == is_leap_year(year as int),
    {
        if year % 4 != 0 {
            false
        } else if year % 100 != 0 {
            true
        } else {
            year % 400 == 0
        }
    }

    /// Length of `month` in days.
    fn month_length(leap: bool, month: u8) -> (length: u32)
        requires
            1 <= month <= 12,
        ensures
            length == days_in_month(leap, month as int),
    {
        if month == 2 {
            if leap {
                29
            } else {
                28
            }
        } else if month == 4 || month == 6 || month == 9 || month == 11 {
            30
        } else {
            31
        }
    }

    /// The date, time and weekday at `epoch` seconds after 1970-01-01 00:00:00.
    ///
    /// The result is the one well-formed value that lies `epoch` seconds after
    /// the epoch (`lemma_instant_determines_fields`); the largest counter value
    /// falls in the year 2106.
    pub fn new(epoch: u32) -> (dt: DateTime)
        ensures
            dt.well_formed(),
            dt.seconds_since_epoch() == epoch,
            dt.days_since_epoch() == epoch as int / 86400,
            days_before_year(dt.year as int) <= epoch as int / 86400 < days_before_year(
                dt.year + 1,
            ),
            dt.day_of_week == DayOfWeek::of_days(epoch as int / 86400),
            dt.hour == epoch as int % 86400 / 3600,
            dt.min == epoch as int % 86400 / 60 % 60,
            dt.sec == epoch as int % 60,
            dt.year <= 2106,
    {
        let total_days: u32 = epoch / SECONDS_PER_DAY;
        let time: u32 = epoch % SECONDS_PER_DAY;
        let day_of_week = DayOfWeek::from_days_since_epoch(total_days);

        let mut days: u32 = total_days;
        let mut year: u16 = 1970;
        let mut leap: bool = Self::is_leap(year);
        loop
            invariant
                1970 <= year <= 2106,
                leap == is_leap_year(year as int),
                days_before_year(year as int) + days == total_days,
                total_days <= 49710,
            ensures
                days < days_in_year(year as int),
            decreases days,
        {
            let length: u32 = if leap { 366 } else { 365 };
            if days < length {
                break ;
            }
            proof {
                lemma_days_before_next_year(year as int);
            }
            days = days - length;
            year = year + 1;
            leap = Self::is_leap(year);
        }
        let ghost day_of_year = days as int;
        proof {
            lemma_months_fill_year(leap);
        }

        let mut month: u8 = 1;
        loop
            invariant
                1 <= month <= 12,
                days_before_month(leap, month as int) + days == day_of_year,
                day_of_year < days_before_month(leap, 13),
            ensures
                days < days_in_month(leap, month as int),
            decreases 12 - month,
        {
            let length: u32 = Self::month_length(leap, month);
            if days < length {
                break ;
            }
            proof {
                lemma_months_fill_year(leap);
            }
            days = days - length;
            month = month + 1;
        }

        let dt = DateTime {
            year,
            month,
            day: (days + 1) as u8,
            hour: (time / 3600) as u8,
            min: (time / 60 % 60) as u8,
            sec: (time % 60) as u8,
            day_of_week,
        };
        proof {
            assert(dt.days_since_epoch() == total_days);
            assert(dt.seconds_since_epoch() == epoch) by {
                lemma_time_of_day(time as int);
            }
        }
        dt
    }

    /// The printed form of the value, such as `2018-08-12 00:33:05 (Sunday)`.
    pub fn to_string(&self) -> (text: String)
        ensures
            text@ == self.text(),
    {
        let mut text = String::new();
        push_zero_padded(&mut text, self.year, 4);
        text.push('-');
        push_zero_padded(&mut text, self.month as u16, 2);
        text.push('-');
        push_zero_padded(&mut text, self.day as u16, 2);
        text.push(' ');
        push_zero_padded(&mut text, self.hour as u16, 2);
        text.push(':');
        push_zero_padded(&mut text, self.min as u16, 2);
        text.push(':');
        push_zero_padded(&mut text, self.sec as u16, 2);
        text.push(' ');
        text.push('(');
        text.push_str(self.day_of_week.name());
        text.push(')');
        assert(text@ =~= self.text());
        text
    }

    /// Seconds from the epoch to the instant that the value names: the
    /// counter value that `new` turns into this value.
    pub fn epoch_seconds(&self) -> (seconds: u64)
        requires
            self.well_formed(),
        ensures
            seconds == self.seconds_since_epoch(),
    {
        let year: u64 = self.year as u64;
        let leap: bool = Self::is_leap(self.year);
        let leap_years: u64 = (year - 1969) / 4 + (year - 1601) / 400 - (year - 1901) / 100;
        let mut days: u64 = 365 * (year - 1970) + leap_years;
        let mut month: u8 = 1;
        while month < self.month
            invariant
                1 <= month <= self.month <= 12,
                leap == is_leap_year(self.year as int),
                days == days_before_year(self.year as int) + days_before_month(leap, month as int),
                days <= 366 * 65536,
            decreases self.month - month,
        {
            proof {
                lemma_months_fill_year(leap);
            }
            days = days + Self::month_length(leap, month) as u64;
            month = month + 1;
        }
        days = days + (self.day as u64 - 1);
        days * 86400 + self.hour as u64 * 3600 + self.min as u64 * 60 + self.sec as u64
    }
}

/// From one year to the next the count of leap years grows by one exactly
/// when the first of the two is a leap year.
proof fn lemma_leap_years_before_next_year(year: int)
    ensures
        leap_years_before(year + 1) == leap_years_before(year) + (if is_leap_year(year) {
            1int
        } else {
            0int
        }),
{
    assert((year - 1968) / 4 == (year - 1969) / 4 + (if year % 4 == 0 { 1int } else { 0int }));
    assert((year - 1900) / 100 == (year - 1901) / 100 + (if year % 100 == 0 { 1int } else { 0int }));
    assert((year - 1600) / 400 == (year - 1601) / 400 + (if year % 400 == 0 { 1int } else { 0int }));
}

/// A year begins as many days after the one before it as that one is long,
/// and 1970 begins at the epoch.
pub proof fn lemma_days_before_next_year(year: int)
    ensures
        days_before_year(1970) == 0,
        days_before_year(year + 1) == days_before_year(year) + days_in_year(year),
{
    lemma_leap_years_before_next_year(year);
}

/// The twelve months fill the year: 366 days in a leap year, 365 in another.
pub proof fn lemma_months_fill_year(leap: bool)
    ensures
        days_before_month(leap, 13) == (if leap { 366int } else { 365int }),
        forall|month: int| 1 <= month <= 12 ==> #[trigger] days_before_month(leap, month + 1)
            == days_before_month(leap, month) + days_in_month(leap, month),
        forall|month: int| 1 <= month <= 12 ==> #[trigger] days_before_month(leap, month)
            + days_in_month(leap, month) <= days_before_month(leap, 13),
{
}

/// Hours, minutes and seconds make up the time of day again.
proof fn lemma_time_of_day(time: int)
    requires
        0 <= time < 86400,
    ensures
        time / 3600 * 3600 + time / 60 % 60 * 60 + time % 60 == time,
        time / 3600 < 24,
{
}

/// A well-formed value is determined by the instant that it names: two of
/// them that lie equally many seconds after the epoch agree in every field.
pub proof fn lemma_instant_determines_fields(a: DateTime, b: DateTime)
    requires
        a.well_formed(),
        b.well_formed(),
        a.seconds_since_epoch() == b.seconds_since_epoch(),
    ensures
        a == b,
{
    lemma_day_within_year(a);
    lemma_day_within_year(b);
    assert(a.days_since_epoch() == b.days_since_epoch());
    if a.year < b.year {
        lemma_years_ascend(a.year + 1, b.year as int);
        lemma_days_before_next_year(a.year as int);
    }
    if b.year < a.year {
        lemma_years_ascend(b.year + 1, a.year as int);
        lemma_days_before_next_year(b.year as int);
    }
    assert(a.year == b.year);
    lemma_months_fill_year(is_leap_year(a.year as int));
    assert(a.month == b.month);
}

/// The day that a well-formed value names lies within its year.
proof fn lemma_day_within_year(dt: DateTime)
    requires
        dt.well_formed(),
    ensures
        days_before_year(dt.year as int) <= dt.days_since_epoch() < days_before_year(
            dt.year + 1,
        ),
        0 <= dt.hour * 3600 + dt.min * 60 + dt.sec < 86400,
{
    lemma_months_fill_year(is_leap_year(dt.year as int));
    lemma_days_before_next_year(dt.year as int);
}

/// A later year begins no earlier.
proof fn lemma_years_ascend(first: int, second: int)
    requires
        first <= second,
    ensures
        days_before_year(first) <= days_before_year(second),
    decreases second - first,
{
    if first < second {
        lemma_years_ascend(first, second - 1);
        lemma_days_before_next_year(second - 1);
    }
}

/// February ends into March: the second after the last second of the last
/// day of February is the first second of the first of March of that year,
/// and that last day is the 29th in a leap year and the 28th in any other.
pub proof fn lemma_february_ends_into_march(last: DateTime, next: DateTime)
    requires
        last.well_formed(),
        next.well_formed(),
        last.month == 2,
        last.day == days_in_month(is_leap_year(last.year as int), 2),
        last.hour == 23 && last.min == 59 && last.sec == 59,
        next.seconds_since_epoch() == last.seconds_since_epoch() + 1,
    ensures
        last.day == (if is_leap_year(last.year as int) { 29int } else { 28int }),
        next.year == last.year,
        next.month == 3 && next.day == 1,
        next.hour == 0 && next.min == 0 && next.sec == 0,
{
    let march = DateTime {
        year: last.year,
        month: 3,
        day: 1,
        hour: 0,
        min: 0,
        sec: 0,
        day_of_week: DayOfWeek::of_days(last.days_since_epoch() + 1),
    };
    assert(march.days_since_epoch() == last.days_since_epoch() + 1);
    lemma_instant_determines_fields(march, next);
}

/// The weekday repeats every seven days: a counter value and the one a week
/// of seconds later fall on the same weekday.
pub proof fn lemma_weekday_repeats_weekly(epoch: u32)
    requires
        epoch + 7 * 86400 <= u32::MAX,
    ensures
        DayOfWeek::of_days((epoch + 7 * 86400) / 86400) == DayOfWeek::of_days(epoch as int / 86400),
{
}

} // verus!
