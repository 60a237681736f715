use vstd::arithmetic::div_mod::{lemma_fundamental_div_mod, lemma_fundamental_div_mod_converse};
use vstd::prelude::*;

use crate::calendar::{days_in_month, month_length};
use crate::civil::{
    is_before, nanoseconds_of_day, CivilDateTime, DAY_NANOSECONDS, HOUR_NANOSECONDS,
    MINUTE_NANOSECONDS, SECOND_NANOSECONDS,
};

verus! {

/// A difference between two dates in whole years, months and days.
#[derive(Debug, Clone, Copy, PartialEq, Eq, Structural)]
pub struct DateDiffResult {
    pub years: i32,
    pub months: i32,
    pub days: i32,
}

/// A difference between two date-times in years, months, days, hours,
/// minutes, seconds and nanoseconds.
#[derive(Debug, Clone, Copy, PartialEq, Eq, Structural)]
pub struct DateTimeDiffResult {
    pub years: i32,
    pub months: i32,
    pub days: i32,
    pub hours: i32,
    pub minutes: i32,
    pub seconds: i32,
    pub nanoseconds: i32,
}

/// The seven components of a difference, as mathematical integers.
pub struct DiffParts {
    pub years: int,
    pub months: int,
    pub days: int,
    pub hours: int,
    pub minutes: int,
    pub seconds: int,
    pub nanoseconds: int,
}

/// The difference with every component zero.
pub open spec fn zero_parts() -> DiffParts {
    DiffParts { years: 0, months: 0, days: 0, hours: 0, minutes: 0, seconds: 0, nanoseconds: 0 }
}

/// `p` with every component negated.
pub open spec fn negated_parts(p: DiffParts) -> DiffParts {
    DiffParts {
        years: -p.years,
        months: -p.months,
        days: -p.days,
        hours: -p.hours,
        minutes: -p.minutes,
        seconds: -p.seconds,
        nanoseconds: -p.nanoseconds,
    }
}

/// Every component of `p` is zero or more.
pub open spec fn all_non_negative(p: DiffParts) -> bool {
    &&& p.years >= 0
    &&& p.months >= 0
    &&& p.days >= 0
    &&& p.hours >= 0
    &&& p.minutes >= 0
    &&& p.seconds >= 0
    &&& p.nanoseconds >= 0
}

/// A difference in calendar units, as read by `add_date_time_diff`. A type
/// that holds no field for a unit reports zero for it.
pub trait DateTimeDiff {
    /// The components that this difference reports.
    spec fn parts(&self) -> DiffParts;

    fn years(&self) -> (r: i32)
        ensures
            r as int == self.parts().years,
    ;

    fn months(&self) -> (r: i32)
        ensures
            r as int == self.parts().months,
    ;

    fn days(&self) -> (r: i32)
        ensures
            r as int == self.parts().days,
    ;

    fn hours(&self) -> (r: i32)
        ensures
            r as int == self.parts().hours,
    ;

    fn minutes(&self) -> (r: i32)
        ensures
            r as int == self.parts().minutes,
    ;

    fn seconds(&self) -> (r: i32)
        ensures
            r as int == self.parts().seconds,
    ;

    fn nanoseconds(&self) -> (r: i32)
        ensures
            r as int == self.parts().nanoseconds,
    ;
}

impl DateDiffResult {
    /// The components of this difference; those below a day are zero.
    pub open spec fn view_parts(self) -> DiffParts {
        DiffParts {
            years: self.years as int,
            months: self.months as int,
            days: self.days as int,
            hours: 0,
            minutes: 0,
            seconds: 0,
            nanoseconds: 0,
        }
    }

    /// The difference with every component zero.
    pub fn zero() -> (r: Self)
        ensures
            r.view_parts() == zero_parts(),
    {
        DateDiffResult { years: 0, months: 0, days: 0 }
    }

    /// This difference with every component negated.
    pub fn into_neg(self) -> (r: Self)
        requires
            self.years != i32::MIN,
            self.months != i32::MIN,
            self.days != i32::MIN,
        ensures
            r.view_parts() == negated_parts(self.view_parts()),
    {
        DateDiffResult { years: -self.years, months: -self.months, days: -self.days }
    }
}

impl DateTimeDiffResult {
    /// The seven components of this difference.
    pub open spec fn view_parts(self) -> DiffParts {
        DiffParts {
            years: self.years as int,
            months: self.months as int,
            days: self.days as int,
            hours: self.hours as int,
            minutes: self.minutes as int,
            seconds: self.seconds as int,
            nanoseconds: self.nanoseconds as int,
        }
    }

    /// The difference with every component zero.
    pub fn zero() -> (r: Self)
        ensures
            r.view_parts() == zero_parts(),
    {
        DateTimeDiffResult {
            years: 0,
            months: 0,
            days: 0,
            hours: 0,
            minutes: 0,
            seconds: 0,
            nanoseconds: 0,
        }
    }

    /// This difference with every component negated.
    pub fn into_neg(self) -> (r: Self)
        requires
            self.years != i32::MIN,
            self.months != i32::MIN,
            self.days != i32::MIN,
            self.hours != i32::MIN,
            self.minutes != i32::MIN,
            self.seconds != i32::MIN,
            self.nanoseconds != i32::MIN,
        ensures
            r.view_parts() == negated_parts(self.view_parts()),
    {
        DateTimeDiffResult {
            years: -self.years,
            months: -self.months,
            days: -self.days,
            hours: -self.hours,
            minutes: -self.minutes,
            seconds: -self.seconds,
            nanoseconds: -self.nanoseconds,
        }
    }
}

impl Default for DateDiffResult {
    fn default() -> (r: Self)
        ensures
            r.view_parts() == zero_parts(),
    {
        DateDiffResult::zero()
    }
}

impl Default for DateTimeDiffResult {
    fn default() -> (r: Self)
        ensures
            r.view_parts() == zero_parts(),
    {
        DateTimeDiffResult::zero()
    }
}

impl From<DateDiffResult> for DateTimeDiffResult {
    /// Widens a date difference; the components below a day become zero.
    fn from(value: DateDiffResult) -> (r: Self) {
        DateTimeDiffResult {
            years: value.years,
            months: value.months,
            days: value.days,
            hours: 0,
            minutes: 0,
            seconds: 0,
            nanoseconds: 0,
        }
    }
}

impl vstd::std_specs::convert::FromSpecImpl<DateDiffResult> for DateTimeDiffResult {
    open spec fn obeys_from_spec() -> bool {
        true
    }

    open spec fn from_spec(v: DateDiffResult) -> DateTimeDiffResult {
        DateTimeDiffResult {
            years: v.years,
            months: v.months,
            days: v.days,
            hours: 0,
            minutes: 0,
            seconds: 0,
            nanoseconds: 0,
        }
    }
}

impl From<DateTimeDiffResult> for DateDiffResult {
    /// Narrows a date-time difference; the components below a day are dropped.
    fn from(value: DateTimeDiffResult) -> (r: Self) {
        DateDiffResult { years: value.years, months: value.months, days: value.days }
    }
}

impl vstd::std_specs::convert::FromSpecImpl<DateTimeDiffResult> for DateDiffResult {
    open spec fn obeys_from_spec() -> bool {
        true
    }

    open spec fn from_spec(v: DateTimeDiffResult) -> DateDiffResult {
        DateDiffResult { years: v.years, months: v.months, days: v.days }
    }
}

impl DateTimeDiff for DateDiffResult {
    open spec fn parts(&self) -> DiffParts {
        self.view_parts()
    }

    fn years(&self) -> (r: i32) {
        self.years
    }

    fn months(&self) -> (r: i32) {
        self.months
    }

    fn days(&self) -> (r: i32) {
        self.days
    }

    fn hours(&self) -> (r: i32) {
        0
    }

    fn minutes(&self) -> (r: i32) {
        0
    }

    fn seconds(&self) -> (r: i32) {
        0
    }

    fn nanoseconds(&self) -> (r: i32) {
        0
    }
}

impl DateTimeDiff for DateTimeDiffResult {
    open spec fn parts(&self) -> DiffParts {
        self.view_parts()
    }

    fn years(&self) -> (r: i32) {
        self.years
    }

    fn months(&self) -> (r: i32) {
        self.months
    }

    fn days(&self) -> (r: i32) {
        self.days
    }

    fn hours(&self) -> (r: i32) {
        self.hours
    }

    fn minutes(&self) -> (r: i32) {
        self.minutes
    }

    fn seconds(&self) -> (r: i32) {
        self.seconds
    }

    fn nanoseconds(&self) -> (r: i32) {
        self.nanoseconds
    }
}

/// The day after the date `(y, m, d)`, as year, month and day.
pub open spec fn next_day(y: int, m: int, d: int) -> (int, int, int) {
    if d < days_in_month(y, m) {
        (y, m, d + 1)
    } else if m < 12 {
        (y, m + 1, 1)
    } else {
        (y + 1, 1, 1)
    }
}

/// The day before the date `(y, m, d)`, as year, month and day.
pub open spec fn previous_day(y: int, m: int, d: int) -> (int, int, int) {
    if d > 1 {
        (y, m, d - 1)
    } else if m > 1 {
        (y, m - 1, days_in_month(y, m - 1))
    } else {
        (y - 1, 12, 31)
    }
}

/// Years, months and days from the date `(ey, em, ed)` to the date
/// `(ly, lm, ld)`, which is not earlier. With `from_later` set, the day count
/// is taken in the month of the earlier date; otherwise in the month before
/// the later date.
pub open spec fn ymd_parts(
    ey: int,
    em: int,
    ed: int,
    ly: int,
    lm: int,
    ld: int,
    from_later: bool,
) -> (int, int, int) {
    let year_diff = ly - ey;
    let month_diff = lm - em;
    let day_reached = ld >= ed;
    let years = if month_diff > 0 || (month_diff == 0 && day_reached) {
        year_diff
    } else {
        year_diff - 1
    };
    let months = if month_diff > 0 {
        if day_reached { month_diff } else { month_diff - 1 }
    } else if month_diff < 0 {
        if day_reached { month_diff + 12 } else { month_diff + 11 }
    } else {
        if day_reached { 0 } else { 11 }
    };
    let days = if day_reached {
        if from_later {
            let len = days_in_month(ey, em);
            (if ld < len { ld } else { len }) - ed
        } else {
            ld - ed
        }
    } else if from_later {
        let len_next = days_in_month(ey, em + 1);
        let ld2 = if em < 12 && len_next < ld { len_next } else { ld };
        ld2 + days_in_month(ey, em) - ed
    } else {
        let len_before = if lm > 1 { days_in_month(ly, lm - 1) } else { 31 };
        if len_before > ed { ld + len_before - ed } else { ld }
    };
    (years, months, days)
}

/// Years, months and days from `earlier` to `later`. Where the time of day of
/// `later` is before that of `earlier`, one day is borrowed first: from the
/// earlier side with `from_later` set, else from the later side.
pub open spec fn forward_date_parts(
    earlier: CivilDateTime,
    later: CivilDateTime,
    from_later: bool,
) -> (int, int, int) {
    let borrow = nanoseconds_of_day(later) < nanoseconds_of_day(earlier);
    let e = if borrow && from_later {
        next_day(earlier.year as int, earlier.month as int, earlier.day as int)
    } else {
        (earlier.year as int, earlier.month as int, earlier.day as int)
    };
    let l = if borrow && !from_later {
        previous_day(later.year as int, later.month as int, later.day as int)
    } else {
        (later.year as int, later.month as int, later.day as int)
    };
    ymd_parts(e.0, e.1, e.2, l.0, l.1, l.2, from_later)
}

/// Hours, minutes, seconds and nanoseconds of a duration of `n` nanoseconds,
/// each below the next larger unit but the hours.
pub open spec fn time_units(n: int) -> (int, int, int, int) {
    (
        n / (HOUR_NANOSECONDS as int),
        (n % (HOUR_NANOSECONDS as int)) / (MINUTE_NANOSECONDS as int),
        (n % (MINUTE_NANOSECONDS as int)) / (SECOND_NANOSECONDS as int),
        n % (SECOND_NANOSECONDS as int),
    )
}

/// The time from the time of day `e_tod` forward to the time of day `l_tod`,
/// through midnight where `l_tod` is the earlier one, in units.
pub open spec fn time_parts(e_tod: int, l_tod: int) -> (int, int, int, int) {
    time_units(if l_tod >= e_tod { l_tod - e_tod } else { DAY_NANOSECONDS + l_tod - e_tod })
}

/// The difference from `earlier` forward to `later`, in all seven units.
pub open spec fn forward_parts(
    earlier: CivilDateTime,
    later: CivilDateTime,
    from_later: bool,
) -> DiffParts {
    let d = forward_date_parts(earlier, later, from_later);
    let t = time_parts(nanoseconds_of_day(earlier), nanoseconds_of_day(later));
    DiffParts {
        years: d.0,
        months: d.1,
        days: d.2,
        hours: t.0,
        minutes: t.1,
        seconds: t.2,
        nanoseconds: t.3,
    }
}

/// The difference from `from` to `to`: computed forward where `from` is
/// earlier, computed forward from `to` with the borrow taken on the earlier
/// side and then negated where `to` is earlier, and zero where they are equal.
pub open spec fn date_time_diff_parts(from: CivilDateTime, to: CivilDateTime) -> DiffParts {
    if is_before(from, to) {
        forward_parts(from, to, false)
    } else if is_before(to, from) {
        negated_parts(forward_parts(to, from, true))
    } else {
        zero_parts()
    }
}

/// `p` with the components below a day set to zero.
pub open spec fn date_only(p: DiffParts) -> DiffParts {
    DiffParts { hours: 0, minutes: 0, seconds: 0, nanoseconds: 0, ..p }
}

/// The difference from `from` to `to` in years, months and days.
pub open spec fn date_diff_parts(from: CivilDateTime, to: CivilDateTime) -> DiffParts {
    date_only(date_time_diff_parts(from, to))
}

/// The result of the date part of a forward difference, with the two times of
/// day that the time part is computed from.
struct ForwardDateDiff {
    earlier_nanoseconds_of_day: u64,
    later_nanoseconds_of_day: u64,
    result: DateDiffResult,
}

fn _date_diff(
    earlier: &CivilDateTime,
    later: &CivilDateTime,
    start_from_later: bool,
) -> (r: ForwardDateDiff)
    requires
        earlier.wf(),
        later.wf(),
    ensures
        r.earlier_nanoseconds_of_day == nanoseconds_of_day(*earlier),
        r.later_nanoseconds_of_day == nanoseconds_of_day(*later),
        (r.result.years as int, r.result.months as int, r.result.days as int)
            == forward_date_parts(*earlier, *later, start_from_later),
        -1_000_000 <= r.result.years <= 1_000_000,
        -12 <= r.result.months <= 12,
        -62 <= r.result.days <= 62,
{
    let mut earlier_year: i32 = earlier.year;
    let mut earlier_month: i32 = earlier.month as i32;
    let mut earlier_date: i32 = earlier.day as i32;
    let mut later_year: i32 = later.year;
    let mut later_month: i32 = later.month as i32;
    let mut later_date: i32 = later.day as i32;

    let later_nanoseconds_of_day = later.nanoseconds_of_day();
    let earlier_nanoseconds_of_day = earlier.nanoseconds_of_day();

    if later_nanoseconds_of_day < earlier_nanoseconds_of_day {
        if start_from_later {
            // one day later on the earlier side
            if earlier_date < month_length(earlier_year, earlier_month as u8) as i32 {
                earlier_date += 1;
            } else if earlier_month < 12 {
                earlier_month += 1;
                earlier_date = 1;
            } else {
                earlier_year += 1;
                earlier_month = 1;
                earlier_date = 1;
            }
        } else {
            // one day earlier on the later side
            if later_date > 1 {
                later_date -= 1;
            } else if later_month > 1 {
                later_month -= 1;
                later_date = month_length(later_year, later_month as u8) as i32;
            } else {
                later_year -= 1;
                later_month = 12;
                later_date = 31;
            }
        }
    }

    let year_diff = later_year - earlier_year;
    let month_diff = later_month - earlier_month;
    let day_reached = later_date >= earlier_date;

    let years: i32 = if month_diff > 0 || (month_diff == 0 && day_reached) {
        year_diff
    } else {
        year_diff - 1
    };
    let months: i32 = if month_diff > 0 {
        if day_reached { month_diff } else { month_diff - 1 }
    } else if month_diff < 0 {
        if day_reached { month_diff + 12 } else { month_diff + 11 }
    } else {
        if day_reached { 0 } else { 11 }
    };

    let days: i32 = if day_reached {
        if start_from_later {
            let len = month_length(earlier_year, earlier_month as u8) as i32;
            (if later_date < len { later_date } else { len }) - earlier_date
        } else {
            later_date - earlier_date
        }
    } else if start_from_later {
        if earlier_month < 12 {
            let len_next = month_length(earlier_year, (earlier_month + 1) as u8) as i32;
            if len_next < later_date {
                later_date = len_next;
            }
        }
        later_date + (month_length(earlier_year, earlier_month as u8) as i32 - earlier_date)
    } else {
        let len_before: i32 = if later_month > 1 {
            month_length(later_year, (later_month - 1) as u8) as i32
        } else {
            31
        };
        if len_before > earlier_date {
            later_date + (len_before - earlier_date)
        } else {
            later_date
        }
    };

    ForwardDateDiff {
        earlier_nanoseconds_of_day,
        later_nanoseconds_of_day,
        result: DateDiffResult { years, months, days },
    }
}

/// Hours, minutes, seconds and nanoseconds below a day.
struct TimeDiffResult {
    hours: i32,
    minutes: i32,
    seconds: i32,
    nanoseconds: i32,
}

fn _nanoseconds_to_units(nanoseconds: u64) -> (r: TimeDiffResult)
    requires
        nanoseconds / HOUR_NANOSECONDS <= i32::MAX as u64,
    ensures
        (r.hours as int, r.minutes as int, r.seconds as int, r.nanoseconds as int) == time_units(
            nanoseconds as int,
        ),
        r.hours * (HOUR_NANOSECONDS as int) + r.minutes * (MINUTE_NANOSECONDS as int) + r.seconds
            * (SECOND_NANOSECONDS as int) + r.nanoseconds == nanoseconds,
        0 <= r.hours,
        nanoseconds < DAY_NANOSECONDS ==> r.hours < 24,
        0 <= r.minutes < 60,
        0 <= r.seconds < 60,
        0 <= r.nanoseconds < SECOND_NANOSECONDS,
{
    let h = nanoseconds / HOUR_NANOSECONDS;
    let rest = nanoseconds % HOUR_NANOSECONDS;
    let m = rest / MINUTE_NANOSECONDS;
    let s = nanoseconds % MINUTE_NANOSECONDS / SECOND_NANOSECONDS;
    let n = nanoseconds % SECOND_NANOSECONDS;
    assert(nanoseconds < DAY_NANOSECONDS ==> h < 24) by (nonlinear_arith)
        requires
            h == nanoseconds / HOUR_NANOSECONDS,
    ;
    assert(m < 60) by (nonlinear_arith)
        requires
            m == rest / MINUTE_NANOSECONDS,
            rest < HOUR_NANOSECONDS,
    ;
    assert(s < 60) by (nonlinear_arith)
        requires
            s == nanoseconds % MINUTE_NANOSECONDS / SECOND_NANOSECONDS,
            nanoseconds % MINUTE_NANOSECONDS < MINUTE_NANOSECONDS,
    ;
    proof {
        let x = nanoseconds as int;
        let below_minute = x % (MINUTE_NANOSECONDS as int);
        lemma_fundamental_div_mod(x, HOUR_NANOSECONDS as int);
        lemma_fundamental_div_mod(rest as int, MINUTE_NANOSECONDS as int);
        lemma_fundamental_div_mod(below_minute, SECOND_NANOSECONDS as int);
        lemma_fundamental_div_mod_converse(
            x,
            MINUTE_NANOSECONDS as int,
            h * 60 + m,
            (rest as int) % (MINUTE_NANOSECONDS as int),
        );
        lemma_fundamental_div_mod_converse(
            x,
            SECOND_NANOSECONDS as int,
            h * 3600 + m * 60 + s,
            below_minute % (SECOND_NANOSECONDS as int),
        );
    }
    TimeDiffResult {
        hours: h as i32,
        minutes: m as i32,
        seconds: s as i32,
        nanoseconds: n as i32,
    }
}

fn _time_diff(
    earlier_nanoseconds_of_day: u64,
    later_nanoseconds_of_day: u64,
) -> (r: TimeDiffResult)
    requires
        earlier_nanoseconds_of_day < DAY_NANOSECONDS,
        later_nanoseconds_of_day < DAY_NANOSECONDS,
    ensures
        (r.hours as int, r.minutes as int, r.seconds as int, r.nanoseconds as int) == time_parts(
            earlier_nanoseconds_of_day as int,
            later_nanoseconds_of_day as int,
        ),
        0 <= r.hours < 24,
        0 <= r.minutes < 60,
        0 <= r.seconds < 60,
        0 <= r.nanoseconds < SECOND_NANOSECONDS,
{
    let nanoseconds = if later_nanoseconds_of_day >= earlier_nanoseconds_of_day {
        later_nanoseconds_of_day - earlier_nanoseconds_of_day
    } else {
        DAY_NANOSECONDS + later_nanoseconds_of_day - earlier_nanoseconds_of_day
    };
    _nanoseconds_to_units(nanoseconds)
}

/// The difference from `from` to `to` in years, months and days.
pub fn date_diff(from: CivilDateTime, to: CivilDateTime) -> (r: DateDiffResult)
    requires
        from.wf(),
        to.wf(),
    ensures
        r.view_parts() == date_diff_parts(from, to),
{
    if from.is_before(&to) {
        _date_diff(&from, &to, false).result
    } else if to.is_before(&from) {
        let d = _date_diff(&to, &from, true).result;
        d.into_neg()
    } else {
        DateDiffResult::zero()
    }
}

/// The difference from `from` to `to` in years, months, days, hours, minutes,
/// seconds and nanoseconds.
pub fn date_time_diff(from: CivilDateTime, to: CivilDateTime) -> (r: DateTimeDiffResult)
    requires
        from.wf(),
        to.wf(),
    ensures
        r.view_parts() == date_time_diff_parts(from, to),
{
    if from.is_before(&to) {
        let date_diff = _date_diff(&from, &to, false);
        let time_diff = _time_diff(
            date_diff.earlier_nanoseconds_of_day,
            date_diff.later_nanoseconds_of_day,
        );
        DateTimeDiffResult {
            years: date_diff.result.years,
            months: date_diff.result.months,
            days: date_diff.result.days,
            hours: time_diff.hours,
            minutes: time_diff.minutes,
            seconds: time_diff.seconds,
            nanoseconds: time_diff.nanoseconds,
        }
    } else if to.is_before(&from) {
        let date_diff = _date_diff(&to, &from, true);
        let time_diff = _time_diff(
            date_diff.earlier_nanoseconds_of_day,
            date_diff.later_nanoseconds_of_day,
        );
        DateTimeDiffResult {
            years: -date_diff.result.years,
            months: -date_diff.result.months,
            days: -date_diff.result.days,
            hours: -time_diff.hours,
            minutes: -time_diff.minutes,
            seconds: -time_diff.seconds,
            nanoseconds: -time_diff.nanoseconds,
        }
    } else {
        DateTimeDiffResult::zero()
    }
}

} // verus!
