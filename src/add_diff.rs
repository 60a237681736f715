use vstd::prelude::*;

use crate::calendar::{days_in_month, month_length};
use crate::civil::{CivilDateTime, MAX_YEAR, MIN_YEAR};
use crate::diff::{DateTimeDiff, DiffParts};

verus! {

/// A date and time of day under construction. The month counts from 0; the
/// other fields may stand outside their usual ranges until they are settled.
pub struct Moment {
    pub year: int,
    pub month: int,
    pub day: int,
    pub hour: int,
    pub minute: int,
    pub second: int,
    pub nanosecond: int,
}

/// Whether `v` can be held in an `i32`.
pub open spec fn fits_i32(v: int) -> bool {
    i32::MIN <= v <= i32::MAX
}

/// `t` moved by `n` months, the month kept in 0 to 11 and the rest carried
/// into the year; `None` where a sum leaves the `i32` range.
#[verifier::opaque]
pub open spec fn add_months(t: Moment, n: int) -> Option<Moment> {
    let v = t.month + n;
    if !fits_i32(v) || !fits_i32(t.year + v / 12) {
        None
    } else {
        Some(Moment { year: t.year + v / 12, month: v % 12, ..t })
    }
}

/// `t` with its day brought into its month: a day below 1 borrows the length
/// of the month before, a day past the month's end moves into the next month.
pub open spec fn settle_day(t: Moment) -> Option<Moment>
    decreases (if t.day < 1 {
        1int
    } else {
        0int
    }),
        (if t.day < 1 {
            -t.day
        } else {
            t.day
        }),
{
    if t.day < 1 {
        match add_months(t, -1) {
            None => None,
            Some(p) => settle_day(Moment { day: t.day + days_in_month(p.year, p.month + 1), ..p }),
        }
    } else if t.day > days_in_month(t.year, t.month + 1) {
        match add_months(t, 1) {
            None => None,
            Some(p) => settle_day(Moment { day: t.day - days_in_month(t.year, t.month + 1), ..p }),
        }
    } else {
        Some(t)
    }
}

/// `t` moved by `n` days.
#[verifier::opaque]
pub open spec fn add_days(t: Moment, n: int) -> Option<Moment> {
    if !fits_i32(t.day + n) {
        None
    } else {
        settle_day(Moment { day: t.day + n, ..t })
    }
}

/// `t` moved by `n` hours, whole days carried into the date.
#[verifier::opaque]
pub open spec fn add_hours(t: Moment, n: int) -> Option<Moment> {
    let v = t.hour + n;
    if !fits_i32(v) {
        None
    } else {
        add_days(Moment { hour: v % 24, ..t }, v / 24)
    }
}

/// `t` moved by `n` minutes, whole hours carried upwards.
#[verifier::opaque]
pub open spec fn add_minutes(t: Moment, n: int) -> Option<Moment> {
    let v = t.minute + n;
    if !fits_i32(v) {
        None
    } else {
        add_hours(Moment { minute: v % 60, ..t }, v / 60)
    }
}

/// `t` moved by `n` seconds, whole minutes carried upwards.
#[verifier::opaque]
pub open spec fn add_seconds(t: Moment, n: int) -> Option<Moment> {
    let v = t.second + n;
    if !fits_i32(v) {
        None
    } else {
        add_minutes(Moment { second: v % 60, ..t }, v / 60)
    }
}

/// `t` moved by `n` nanoseconds, whole seconds carried upwards.
#[verifier::opaque]
pub open spec fn add_nanoseconds(t: Moment, n: int) -> Option<Moment> {
    let v = t.nanosecond + n;
    if !fits_i32(v) {
        None
    } else {
        add_seconds(Moment { nanosecond: v % 1_000_000_000, ..t }, v / 1_000_000_000)
    }
}

/// `t` with its day lowered to the length of its month where it is longer.
pub open spec fn clamp_day(t: Moment) -> Moment {
    let len = days_in_month(t.year, t.month + 1);
    Moment { day: if t.day > len { len } else { t.day }, ..t }
}

/// `from` moved by `d`: years first, then months (the day clamped to the
/// length of the month reached), days, hours, minutes, seconds and
/// nanoseconds, each carrying into the larger units.
#[verifier::opaque]
pub open spec fn moved(from: CivilDateTime, d: DiffParts) -> Option<Moment> {
    let start = Moment {
        year: from.year + d.years,
        month: from.month - 1,
        day: from.day as int,
        hour: from.hour as int,
        minute: from.minute as int,
        second: from.second as int,
        nanosecond: from.nanosecond as int,
    };
    if !fits_i32(start.year) {
        None
    } else {
        match add_months(start, d.months) {
            None => None,
            Some(t1) => match add_days(clamp_day(t1), d.days) {
                None => None,
                Some(t2) => match add_hours(t2, d.hours) {
                    None => None,
                    Some(t3) => match add_minutes(t3, d.minutes) {
                        None => None,
                        Some(t4) => match add_seconds(t4, d.seconds) {
                            None => None,
                            Some(t5) => add_nanoseconds(t5, d.nanoseconds),
                        },
                    },
                },
            },
        }
    }
}

/// The date-time that `t` names, where its year lies in the supported range.
pub open spec fn to_civil(t: Moment) -> Option<CivilDateTime> {
    if MIN_YEAR <= t.year <= MAX_YEAR {
        Some(
            CivilDateTime {
                year: t.year as i32,
                month: (t.month + 1) as u32,
                day: t.day as u32,
                hour: t.hour as u32,
                minute: t.minute as u32,
                second: t.second as u32,
                nanosecond: t.nanosecond as u32,
            },
        )
    } else {
        None
    }
}

/// `from` moved by `d`, or `None` where an intermediate sum overflows or the
/// year reached lies outside the supported range.
pub open spec fn added(from: CivilDateTime, d: DiffParts) -> Option<CivilDateTime> {
    match moved(from, d) {
        None => None,
        Some(t) => to_civil(t),
    }
}

/// Whether the month of `t` lies in 0 to 11 and its day within that month.
pub open spec fn date_settled(t: Moment) -> bool {
    0 <= t.month < 12 && 1 <= t.day <= days_in_month(t.year, t.month + 1)
}

/// A settled day lies within its month; the time of day is not touched.
proof fn lemma_settle_day(t: Moment)
    requires
        0 <= t.month < 12,
    ensures
        settle_day(t) matches Some(u) ==> date_settled(u) && u.hour == t.hour && u.minute
            == t.minute && u.second == t.second && u.nanosecond == t.nanosecond,
    decreases (if t.day < 1 {
        1int
    } else {
        0int
    }),
        (if t.day < 1 {
            -t.day
        } else {
            t.day
        }),
{
    reveal(add_months);
    if t.day < 1 {
        if let Some(p) = add_months(t, -1) {
            lemma_settle_day(Moment { day: t.day + days_in_month(p.year, p.month + 1), ..p });
        }
    } else if t.day > days_in_month(t.year, t.month + 1) {
        if let Some(p) = add_months(t, 1) {
            lemma_settle_day(Moment { day: t.day - days_in_month(t.year, t.month + 1), ..p });
        }
    }
}

proof fn lemma_add_days(t: Moment, n: int)
    requires
        0 <= t.month < 12,
    ensures
        add_days(t, n) matches Some(u) ==> date_settled(u) && u.hour == t.hour && u.minute
            == t.minute && u.second == t.second && u.nanosecond == t.nanosecond,
{
    reveal(add_days);
    lemma_settle_day(Moment { day: t.day + n, ..t });
}

proof fn lemma_add_hours(t: Moment, n: int)
    requires
        0 <= t.month < 12,
    ensures
        add_hours(t, n) matches Some(u) ==> date_settled(u) && 0 <= u.hour < 24 && u.minute
            == t.minute && u.second == t.second && u.nanosecond == t.nanosecond,
{
    reveal(add_hours);
    let v = t.hour + n;
    lemma_add_days(Moment { hour: v % 24, ..t }, v / 24);
}

proof fn lemma_add_minutes(t: Moment, n: int)
    requires
        0 <= t.month < 12,
    ensures
        add_minutes(t, n) matches Some(u) ==> date_settled(u) && 0 <= u.hour < 24 && 0
            <= u.minute < 60 && u.second == t.second && u.nanosecond == t.nanosecond,
{
    reveal(add_minutes);
    let v = t.minute + n;
    lemma_add_hours(Moment { minute: v % 60, ..t }, v / 60);
}

proof fn lemma_add_seconds(t: Moment, n: int)
    requires
        0 <= t.month < 12,
    ensures
        add_seconds(t, n) matches Some(u) ==> date_settled(u) && 0 <= u.hour < 24 && 0
            <= u.minute < 60 && 0 <= u.second < 60 && u.nanosecond == t.nanosecond,
{
    reveal(add_seconds);
    let v = t.second + n;
    lemma_add_minutes(Moment { second: v % 60, ..t }, v / 60);
}

proof fn lemma_add_nanoseconds(t: Moment, n: int)
    requires
        0 <= t.month < 12,
    ensures
        add_nanoseconds(t, n) matches Some(u) ==> date_settled(u) && 0 <= u.hour < 24 && 0
            <= u.minute < 60 && 0 <= u.second < 60 && 0 <= u.nanosecond < 1_000_000_000,
{
    reveal(add_nanoseconds);
    let v = t.nanosecond + n;
    lemma_add_seconds(Moment { nanosecond: v % 1_000_000_000, ..t }, v / 1_000_000_000);
}

/// Moving by a difference leaves a real date, and each time unit within its
/// range.
proof fn lemma_moved_valid(from: CivilDateTime, d: DiffParts)
    requires
        from.wf(),
    ensures
        moved(from, d) matches Some(t) ==> date_settled(t) && 0 <= t.hour < 24 && 0 <= t.minute
            < 60 && 0 <= t.second < 60 && 0 <= t.nanosecond < 1_000_000_000,
{
    reveal(moved);
    reveal(add_months);
    let start = Moment {
        year: from.year + d.years,
        month: from.month - 1,
        day: from.day as int,
        hour: from.hour as int,
        minute: from.minute as int,
        second: from.second as int,
        nanosecond: from.nanosecond as int,
    };
    if let Some(t1) = add_months(start, d.months) {
        lemma_add_days(clamp_day(t1), d.days);
        if let Some(t2) = add_days(clamp_day(t1), d.days) {
            lemma_add_hours(t2, d.hours);
            if let Some(t3) = add_hours(t2, d.hours) {
                lemma_add_minutes(t3, d.minutes);
                if let Some(t4) = add_minutes(t3, d.minutes) {
                    lemma_add_seconds(t4, d.seconds);
                    if let Some(t5) = add_seconds(t4, d.seconds) {
                        lemma_add_nanoseconds(t5, d.nanoseconds);
                    }
                }
            }
        }
    }
}

/// The fields of a [`Moment`] during the computation.
struct Cursor {
    year: i32,
    month: i32,
    day: i32,
    hour: i32,
    minute: i32,
    second: i32,
    nanosecond: i32,
}

impl Cursor {
    spec fn view(&self) -> Moment {
        Moment {
            year: self.year as int,
            month: self.month as int,
            day: self.day as int,
            hour: self.hour as int,
            minute: self.minute as int,
            second: self.second as int,
            nanosecond: self.nanosecond as int,
        }
    }
}

fn month_add(c: &mut Cursor, n: i32) -> (r: Option<()>)
    ensures
        r is None <==> add_months(old(c).view(), n as int) is None,
        r is Some ==> add_months(old(c).view(), n as int) == Some(final(c).view()),
        r is Some ==> 0 <= final(c).month < 12,
        r is None ==> final(c).view() == old(c).view(),
{
    proof {
        reveal(add_months);
    }
    let v = match c.month.checked_add(n) {
        Some(v) => v,
        None => return None,
    };
    let carry = v.checked_div_euclid(12).unwrap();
    c.year = match c.year.checked_add(carry) {
        Some(y) => y,
        None => return None,
    };
    c.month = v.checked_rem_euclid(12).unwrap();
    Some(())
}

fn date_add(c: &mut Cursor, n: i32) -> (r: Option<()>)
    requires
        0 <= old(c).month < 12,
    ensures
        r is None <==> add_days(old(c).view(), n as int) is None,
        r is Some ==> add_days(old(c).view(), n as int) == Some(final(c).view()),
        r is Some ==> 0 <= final(c).month < 12,
        !fits_i32(old(c).day + n) ==> r is None && final(c).view() == old(c).view(),
{
    proof {
        reveal(add_days);
        reveal(add_months);
    }
    let ghost goal = add_days(c.view(), n as int);
    c.day = match c.day.checked_add(n) {
        Some(v) => v,
        None => return None,
    };
    loop
        invariant
            0 <= c.month < 12,
            settle_day(c.view()) == goal,
            goal == add_days(old(c).view(), n as int),
            fits_i32(old(c).day + n),
        decreases (if c.day < 1 {
            1int
        } else {
            0int
        }),
            (if c.day < 1 {
                -c.day
            } else {
                c.day as int
            }),
    {
        proof {
            reveal(add_months);
        }
        if c.day < 1 {
            if month_add(c, -1).is_none() {
                return None;
            }
            c.day = c.day + month_length(c.year, (c.month + 1) as u8) as i32;
        } else {
            let len = month_length(c.year, (c.month + 1) as u8) as i32;
            if c.day <= len {
                return Some(());
            }
            if month_add(c, 1).is_none() {
                return None;
            }
            c.day = c.day - len;
        }
    }
}

fn hour_add(c: &mut Cursor, n: i32) -> (r: Option<()>)
    requires
        0 <= old(c).month < 12,
    ensures
        r is None <==> add_hours(old(c).view(), n as int) is None,
        r is Some ==> add_hours(old(c).view(), n as int) == Some(final(c).view()),
        r is Some ==> 0 <= final(c).month < 12,
{
    proof {
        reveal(add_hours);
    }
    let v = match c.hour.checked_add(n) {
        Some(v) => v,
        None => return None,
    };
    c.hour = v.checked_rem_euclid(24).unwrap();
    date_add(c, v.checked_div_euclid(24).unwrap())
}

fn minute_add(c: &mut Cursor, n: i32) -> (r: Option<()>)
    requires
        0 <= old(c).month < 12,
    ensures
        r is None <==> add_minutes(old(c).view(), n as int) is None,
        r is Some ==> add_minutes(old(c).view(), n as int) == Some(final(c).view()),
        r is Some ==> 0 <= final(c).month < 12,
{
    proof {
        reveal(add_minutes);
    }
    let v = match c.minute.checked_add(n) {
        Some(v) => v,
        None => return None,
    };
    c.minute = v.checked_rem_euclid(60).unwrap();
    hour_add(c, v.checked_div_euclid(60).unwrap())
}

fn second_add(c: &mut Cursor, n: i32) -> (r: Option<()>)
    requires
        0 <= old(c).month < 12,
    ensures
        r is None <==> add_seconds(old(c).view(), n as int) is None,
        r is Some ==> add_seconds(old(c).view(), n as int) == Some(final(c).view()),
        r is Some ==> 0 <= final(c).month < 12,
{
    proof {
        reveal(add_seconds);
    }
    let v = match c.second.checked_add(n) {
        Some(v) => v,
        None => return None,
    };
    c.second = v.checked_rem_euclid(60).unwrap();
    minute_add(c, v.checked_div_euclid(60).unwrap())
}

fn nanosecond_add(c: &mut Cursor, n: i32) -> (r: Option<()>)
    requires
        0 <= old(c).month < 12,
    ensures
        r is None <==> add_nanoseconds(old(c).view(), n as int) is None,
        r is Some ==> add_nanoseconds(old(c).view(), n as int) == Some(final(c).view()),
        r is Some ==> 0 <= final(c).month < 12,
{
    proof {
        reveal(add_nanoseconds);
    }
    let v = match c.nanosecond.checked_add(n) {
        Some(v) => v,
        None => return None,
    };
    c.nanosecond = v.checked_rem_euclid(1_000_000_000).unwrap();
    second_add(c, v.checked_div_euclid(1_000_000_000).unwrap())
}

/// `from` moved by `date_time_diff`: years, then months (the day of month
/// lowered to the length of the month reached), days, hours, minutes, seconds
/// and nanoseconds, each unit carrying into the larger ones. `None` where a
/// sum overflows or the year reached lies outside the supported range.
pub fn add_date_time_diff<D: DateTimeDiff>(
    from: CivilDateTime,
    date_time_diff: &D,
) -> (r: Option<CivilDateTime>)
    requires
        from.wf(),
    ensures
        r == added(from, date_time_diff.parts()),
        r matches Some(t) ==> t.wf(),
{
    proof {
        reveal(moved);
        lemma_moved_valid(from, date_time_diff.parts());
    }
    let year = match from.year.checked_add(date_time_diff.years()) {
        Some(v) => v,
        None => return None,
    };
    let mut c = Cursor {
        year,
        month: from.month as i32 - 1,
        day: from.day as i32,
        hour: from.hour as i32,
        minute: from.minute as i32,
        second: from.second as i32,
        nanosecond: from.nanosecond as i32,
    };
    if month_add(&mut c, date_time_diff.months()).is_none() {
        return None;
    }
    let len = month_length(c.year, (c.month + 1) as u8) as i32;
    if c.day > len {
        c.day = len;
    }
    if date_add(&mut c, date_time_diff.days()).is_none() {
        return None;
    }
    if hour_add(&mut c, date_time_diff.hours()).is_none() {
        return None;
    }
    if minute_add(&mut c, date_time_diff.minutes()).is_none() {
        return None;
    }
    if second_add(&mut c, date_time_diff.seconds()).is_none() {
        return None;
    }
    if nanosecond_add(&mut c, date_time_diff.nanoseconds()).is_none() {
        return None;
    }
    if c.year < MIN_YEAR || c.year > MAX_YEAR {
        return None;
    }
    Some(
        CivilDateTime {
            year: c.year,
            month: (c.month + 1) as u32,
            day: c.day as u32,
            hour: c.hour as u32,
            minute: c.minute as u32,
            second: c.second as u32,
            nanosecond: c.nanosecond as u32,
        },
    )
}

} // verus!
