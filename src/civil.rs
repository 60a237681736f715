use vstd::prelude::*;

use crate::calendar::days_in_month;

verus! {

/// The earliest year that a [`CivilDateTime`] may hold.
pub const MIN_YEAR: i32 = -262143;

/// The latest year that a [`CivilDateTime`] may hold.
pub const MAX_YEAR: i32 = 262142;

/// Nanoseconds in one second.
pub const SECOND_NANOSECONDS: u64 = 1_000_000_000;

/// Nanoseconds in one minute.
pub const MINUTE_NANOSECONDS: u64 = 60_000_000_000;

/// Nanoseconds in one hour.
pub const HOUR_NANOSECONDS: u64 = 3_600_000_000_000;

/// Nanoseconds in one day.
pub const DAY_NANOSECONDS: u64 = 86_400_000_000_000;

/// A date and a time of day on the proleptic Gregorian calendar, with no time
/// zone attached. Months and days count from 1; hours, minutes, seconds and
/// nanoseconds from 0.
#[derive(Debug, Clone, Copy, PartialEq, Eq, Structural)]
pub struct CivilDateTime {
    pub year: i32,
    pub month: u32,
    pub day: u32,
    pub hour: u32,
    pub minute: u32,
    pub second: u32,
    pub nanosecond: u32,
}

/// Whether the fields name a real calendar date and time of day.
pub open spec fn valid_fields(
    year: int,
    month: int,
    day: int,
    hour: int,
    minute: int,
    second: int,
    nanosecond: int,
) -> bool {
    &&& MIN_YEAR <= year <= MAX_YEAR
    &&& 1 <= month <= 12
    &&& 1 <= day <= days_in_month(year, month)
    &&& 0 <= hour < 24
    &&& 0 <= minute < 60
    &&& 0 <= second < 60
    &&& 0 <= nanosecond < SECOND_NANOSECONDS
}

/// The time of day of `t` in nanoseconds since midnight.
pub open spec fn nanoseconds_of_day(t: CivilDateTime) -> int {
    t.hour * HOUR_NANOSECONDS + t.minute * MINUTE_NANOSECONDS + t.second * SECOND_NANOSECONDS
        + t.nanosecond
}

/// Whether `a` comes strictly before `b`: by date first, then by time of day.
pub open spec fn is_before(a: CivilDateTime, b: CivilDateTime) -> bool {
    a.year < b.year || (a.year == b.year && (a.month < b.month || (a.month == b.month && (
    a.day < b.day || (a.day == b.day && nanoseconds_of_day(a) < nanoseconds_of_day(b))))))
}

impl CivilDateTime {
    /// Whether this value names a real date and time of day.
    pub open spec fn wf(self) -> bool {
        valid_fields(
            self.year as int,
            self.month as int,
            self.day as int,
            self.hour as int,
            self.minute as int,
            self.second as int,
            self.nanosecond as int,
        )
    }

    /// The date-time with the given fields, or `None` where they name no real
    /// date and time of day.
    pub fn new(
        year: i32,
        month: u32,
        day: u32,
        hour: u32,
        minute: u32,
        second: u32,
        nanosecond: u32,
    ) -> (r: Option<CivilDateTime>)
        ensures
            r is Some <==> valid_fields(
                year as int,
                month as int,
                day as int,
                hour as int,
                minute as int,
                second as int,
                nanosecond as int,
            ),
            r matches Some(t) ==> (t == CivilDateTime {
                year,
                month,
                day,
                hour,
                minute,
                second,
                nanosecond,
            }),
    {
        if year < MIN_YEAR || year > MAX_YEAR || month < 1 || month > 12 || hour >= 24 || minute
            >= 60 || second >= 60 || nanosecond as u64 >= SECOND_NANOSECONDS {
            return None;
        }
        let len = crate::calendar::month_length(year, month as u8);
        if day < 1 || day > len as u32 {
            return None;
        }
        Some(CivilDateTime { year, month, day, hour, minute, second, nanosecond })
    }

    /// The time of day in nanoseconds since midnight.
    pub fn nanoseconds_of_day(&self) -> (r: u64)
        requires
            self.wf(),
        ensures
            r == nanoseconds_of_day(*self),
            r < DAY_NANOSECONDS,
    {
        self.hour as u64 * HOUR_NANOSECONDS + self.minute as u64 * MINUTE_NANOSECONDS
            + self.second as u64 * SECOND_NANOSECONDS + self.nanosecond as u64
    }

    /// Whether `self` comes strictly before `other`.
    pub fn is_before(&self, other: &CivilDateTime) -> (r: bool)
        requires
            self.wf(),
            other.wf(),
        ensures
            r == is_before(*self, *other),
    {
        if self.year != other.year {
            self.year < other.year
        } else if self.month != other.month {
            self.month < other.month
        } else if self.day != other.day {
            self.day < other.day
        } else {
            self.nanoseconds_of_day() < other.nanoseconds_of_day()
        }
    }
}

} // verus!
