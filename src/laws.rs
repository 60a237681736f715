use vstd::arithmetic::div_mod::lemma_fundamental_div_mod_converse;
use vstd::prelude::*;

use crate::add_diff::{
    add_days, add_hours, add_minutes, add_months, add_nanoseconds, add_seconds, added, clamp_day,
    date_settled, moved, settle_day, Moment,
};
use crate::calendar::days_in_month;
use crate::civil::{
    is_before, nanoseconds_of_day, CivilDateTime, DAY_NANOSECONDS, HOUR_NANOSECONDS,
    MINUTE_NANOSECONDS, SECOND_NANOSECONDS,
};
use crate::diff::{
    all_non_negative, date_diff_parts, DiffParts, date_time_diff_parts, forward_parts, negated_parts,
    next_day, previous_day, time_units, ymd_parts, zero_parts,
};

verus! {

/// The difference from a date-time to itself is zero, with and without the
/// components below a day.
pub proof fn lemma_diff_self_is_zero(x: CivilDateTime)
    requires
        x.wf(),
    ensures
        date_time_diff_parts(x, x) == zero_parts(),
        date_diff_parts(x, x) == zero_parts(),
{
}

/// Adding a zero difference to a date-time gives that date-time back.
pub proof fn lemma_add_zero_is_identity(x: CivilDateTime)
    requires
        x.wf(),
    ensures
        added(x, zero_parts()) == Some(x),
{
    reveal(add_months);
    reveal(add_days);
    reveal(add_hours);
    reveal(add_minutes);
    reveal(add_seconds);
    reveal(add_nanoseconds);
    reveal(moved);
}

/// Adding one month moves to the same day of the next month, lowered to the
/// last day of that month where it is shorter; the month reached must lie in
/// the supported range of years.
pub proof fn lemma_add_one_month_clamps(x: CivilDateTime)
    requires
        x.wf(),
        x.month < 12 || x.year < crate::civil::MAX_YEAR,
    ensures
        ({
            let y = if x.month == 12 { x.year + 1 } else { x.year as int };
            let m = if x.month == 12 { 1 } else { x.month + 1 };
            let len = days_in_month(y, m);
            let one_month = DiffParts { months: 1, ..zero_parts() };
            added(x, one_month) == Some(
                CivilDateTime {
                    year: y as i32,
                    month: m as u32,
                    day: (if x.day > len { len } else { x.day as int }) as u32,
                    ..x
                },
            )
        }),
{
    reveal(add_months);
    reveal(add_days);
    reveal(add_hours);
    reveal(add_minutes);
    reveal(add_seconds);
    reveal(add_nanoseconds);
    reveal(moved);
}

/// A forward difference from an earlier to a later date-time has no negative
/// component, whichever side the day borrow is taken from.
pub proof fn lemma_forward_non_negative(
    earlier: CivilDateTime,
    later: CivilDateTime,
    from_later: bool,
)
    requires
        earlier.wf(),
        later.wf(),
        is_before(earlier, later),
    ensures
        all_non_negative(forward_parts(earlier, later, from_later)),
{
}

/// The differences in the two directions between two distinct date-times
/// have opposite signs: each component of the one taken forward is zero or
/// more, each of the one taken backward zero or less; the components below a
/// day are exact negations of one another.
pub proof fn lemma_diff_sign_symmetry(a: CivilDateTime, b: CivilDateTime)
    requires
        a.wf(),
        b.wf(),
        is_before(a, b),
    ensures
        all_non_negative(date_time_diff_parts(a, b)),
        all_non_negative(negated_parts(date_time_diff_parts(b, a))),
        date_time_diff_parts(b, a).hours == -date_time_diff_parts(a, b).hours,
        date_time_diff_parts(b, a).minutes == -date_time_diff_parts(a, b).minutes,
        date_time_diff_parts(b, a).seconds == -date_time_diff_parts(a, b).seconds,
        date_time_diff_parts(b, a).nanoseconds == -date_time_diff_parts(a, b).nanoseconds,
{
    lemma_forward_non_negative(a, b, false);
    lemma_forward_non_negative(a, b, true);
}

/// Whether `(y, m, d)` is a real date, `m` counted from 1.
pub open spec fn valid_date(y: int, m: int, d: int) -> bool {
    1 <= m <= 12 && 1 <= d <= days_in_month(y, m)
}

/// Whether the date `(y1, m1, d1)` is not later than `(y2, m2, d2)`.
pub open spec fn date_le(y1: int, m1: int, d1: int, y2: int, m2: int, d2: int) -> bool {
    y1 < y2 || (y1 == y2 && (m1 < m2 || (m1 == m2 && d1 <= d2)))
}

/// The date part of a forward difference, taken in the month before the
/// later date, leads from the earlier date to the later one.
proof fn lemma_forward_dates_round_trip(
    t: Moment,
    ly: int,
    lm: int,
    ld: int,
)
    requires
        valid_date(t.year, t.month + 1, t.day),
        valid_date(ly, lm, ld),
        date_le(t.year, t.month + 1, t.day, ly, lm, ld),
        crate::add_diff::fits_i32(ly + 1),
        crate::add_diff::fits_i32(t.year - 1),
    ensures
        ({
            let p = ymd_parts(t.year, t.month + 1, t.day, ly, lm, ld, false);
            let start = Moment { year: t.year + p.0, ..t };
            add_months(start, p.1) matches Some(t1) && add_days(clamp_day(t1), p.2) == Some(
                Moment { year: ly, month: lm - 1, day: ld, ..t },
            )
        }),
{
    reveal(add_months);
    reveal(add_days);
    let p = ymd_parts(t.year, t.month + 1, t.day, ly, lm, ld, false);
    let start = Moment { year: t.year + p.0, ..t };
    let target = Moment { year: ly, month: lm - 1, day: ld, ..t };
    if ld >= t.day {
        let t1 = Moment { year: ly, month: lm - 1, ..t };
        assert(add_months(start, p.1) == Some(t1));
        assert(clamp_day(t1) == t1);
        assert(settle_day(target) == Some(target));
    } else {
        let py = if lm > 1 { ly } else { ly - 1 };
        let pm = if lm > 1 { lm - 1 } else { 12 };
        let t1 = Moment { year: py, month: pm - 1, ..t };
        assert(add_months(start, p.1) == Some(t1));
        let c = clamp_day(t1);
        let len = days_in_month(py, pm);
        assert(c.day + p.2 == ld + len);
        let over = Moment { day: ld + len, ..c };
        assert(add_months(over, 1) == Some(Moment { year: ly, month: lm - 1, ..over }));
        assert(settle_day(target) == Some(target));
        assert(settle_day(over) == settle_day(target));
    }
}

/// The date part of a forward difference, taken in the month of the earlier
/// date, leads back from the later date to the earlier one once negated.
proof fn lemma_backward_dates_round_trip(
    t: Moment,
    ey: int,
    em: int,
    ed: int,
)
    requires
        valid_date(t.year, t.month + 1, t.day),
        valid_date(ey, em, ed),
        date_le(ey, em, ed, t.year, t.month + 1, t.day),
        crate::add_diff::fits_i32(t.year + 1),
        crate::add_diff::fits_i32(ey - 1),
    ensures
        ({
            let p = ymd_parts(ey, em, ed, t.year, t.month + 1, t.day, true);
            let start = Moment { year: t.year - p.0, ..t };
            add_months(start, -p.1) matches Some(t1) && add_days(clamp_day(t1), -p.2) == Some(
                Moment { year: ey, month: em - 1, day: ed, ..t },
            )
        }),
{
    reveal(add_months);
    reveal(add_days);
    let p = ymd_parts(ey, em, ed, t.year, t.month + 1, t.day, true);
    let start = Moment { year: t.year - p.0, ..t };
    let target = Moment { year: ey, month: em - 1, day: ed, ..t };
    if t.day >= ed {
        let t1 = Moment { year: ey, month: em - 1, ..t };
        assert(add_months(start, -p.1) == Some(t1));
        assert(settle_day(target) == Some(target));
    } else {
        let ny = if em < 12 { ey } else { ey + 1 };
        let nm = if em < 12 { em + 1 } else { 1 };
        let t1 = Moment { year: ny, month: nm - 1, ..t };
        assert(add_months(start, -p.1) == Some(t1));
        let c = clamp_day(t1);
        let len = days_in_month(ey, em);
        assert(c.day - p.2 == ed - len);
        let under = Moment { day: ed - len, ..c };
        assert(add_months(under, -1) == Some(Moment { year: ey, month: em - 1, ..under }));
        assert(settle_day(target) == Some(target));
        assert(settle_day(under) == settle_day(target));
    }
}

/// The time of day of `t` in nanoseconds since midnight.
pub open spec fn moment_nanoseconds_of_day(t: Moment) -> int {
    t.hour * (HOUR_NANOSECONDS as int) + t.minute * (MINUTE_NANOSECONDS as int) + t.second * (
    SECOND_NANOSECONDS as int) + t.nanosecond
}

/// Whether each time unit of `t` lies within its range.
pub open spec fn time_settled(t: Moment) -> bool {
    0 <= t.hour < 24 && 0 <= t.minute < 60 && 0 <= t.second < 60 && 0 <= t.nanosecond
        < SECOND_NANOSECONDS
}

/// `t` moved by `x` nanoseconds, for a move that stays within the days
/// before and after the date of `t`.
#[verifier::opaque]
pub open spec fn shift(t: Moment, x: int) -> Moment {
    let total = moment_nanoseconds_of_day(t) + x;
    let d = if total < 0 {
        previous_day(t.year, t.month + 1, t.day)
    } else if total < DAY_NANOSECONDS {
        (t.year, t.month + 1, t.day)
    } else {
        next_day(t.year, t.month + 1, t.day)
    };
    let u = time_units(total % (DAY_NANOSECONDS as int));
    Moment {
        year: d.0,
        month: d.1 - 1,
        day: d.2,
        hour: u.0,
        minute: u.1,
        second: u.2,
        nanosecond: u.3,
    }
}

proof fn lemma_units_of_fields(t: Moment)
    requires
        time_settled(t),
    ensures
        time_units(moment_nanoseconds_of_day(t)) == (t.hour, t.minute, t.second, t.nanosecond),
{
    let n = moment_nanoseconds_of_day(t);
    let below_second = t.nanosecond;
    let below_minute = t.second * 1_000_000_000 + below_second;
    let below_hour = t.minute * 60_000_000_000 + below_minute;
    lemma_fundamental_div_mod_converse(n, 3_600_000_000_000, t.hour, below_hour);
    lemma_fundamental_div_mod_converse(below_hour, 60_000_000_000, t.minute, below_minute);
    lemma_fundamental_div_mod_converse(n, 60_000_000_000, t.hour * 60 + t.minute, below_minute);
    lemma_fundamental_div_mod_converse(below_minute, 1_000_000_000, t.second, below_second);
    lemma_fundamental_div_mod_converse(
        n,
        1_000_000_000,
        t.hour * 3600 + t.minute * 60 + t.second,
        below_second,
    );
}

proof fn lemma_fields_of_units(r: int)
    requires
        0 <= r < DAY_NANOSECONDS,
    ensures
        ({
            let u = time_units(r);
            &&& 0 <= u.0 < 24
            &&& 0 <= u.1 < 60
            &&& 0 <= u.2 < 60
            &&& 0 <= u.3 < SECOND_NANOSECONDS
            &&& r == u.0 * (HOUR_NANOSECONDS as int) + u.1 * (MINUTE_NANOSECONDS as int) + u.2 * (
            SECOND_NANOSECONDS as int) + u.3
        }),
{
}

/// `t` on the date `d`, month counted from 1.
pub open spec fn on_date(t: Moment, d: (int, int, int)) -> Moment {
    Moment { year: d.0, month: d.1 - 1, day: d.2, ..t }
}

/// Whether the year of `t` lies far enough inside the `i32` range for the
/// steps below.
pub open spec fn year_in_range(t: Moment) -> bool {
    -1_000_000 <= t.year <= 1_000_000
}

proof fn lemma_add_one_day(t: Moment)
    requires
        date_settled(t),
        year_in_range(t),
    ensures
        add_days(t, 0) == Some(t),
        add_days(t, 1) == Some(on_date(t, next_day(t.year, t.month + 1, t.day))),
        add_days(t, -1) == Some(on_date(t, previous_day(t.year, t.month + 1, t.day))),
{
    reveal(add_months);
    reveal(add_days);
    let n = on_date(t, next_day(t.year, t.month + 1, t.day));
    let p = on_date(t, previous_day(t.year, t.month + 1, t.day));
    assert(settle_day(n) == Some(n));
    assert(settle_day(p) == Some(p));
    if t.day == days_in_month(t.year, t.month + 1) {
        let over = Moment { day: t.day + 1, ..t };
        assert(add_months(over, 1) == Some(Moment { year: n.year, month: n.month, ..over }));
        assert(settle_day(over) == settle_day(n));
    }
    if t.day == 1 {
        let under = Moment { day: 0, ..t };
        assert(add_months(under, -1) == Some(Moment { year: p.year, month: p.month, ..under }));
        assert(settle_day(under) == settle_day(p));
    }
}

proof fn lemma_hours_shift(t: Moment, n: int)
    requires
        date_settled(t),
        time_settled(t),
        year_in_range(t),
        -24 < n < 24,
    ensures
        add_hours(t, n) == Some(shift(t, n * (HOUR_NANOSECONDS as int))),
{
    reveal(shift);
    reveal(add_hours);
    let v = t.hour + n;
    let t1 = Moment { hour: v % 24, ..t };
    lemma_add_one_day(t1);
    lemma_units_of_fields(t1);
    let x = n * (HOUR_NANOSECONDS as int);
    assert(moment_nanoseconds_of_day(t) + x == moment_nanoseconds_of_day(t1) + (v / 24) * (
    DAY_NANOSECONDS as int));
}

proof fn lemma_minutes_shift(t: Moment, n: int)
    requires
        date_settled(t),
        time_settled(t),
        year_in_range(t),
        -60 < n < 60,
    ensures
        add_minutes(t, n) == Some(shift(t, n * (MINUTE_NANOSECONDS as int))),
{
    reveal(shift);
    reveal(add_minutes);
    let v = t.minute + n;
    let t1 = Moment { minute: v % 60, ..t };
    lemma_hours_shift(t1, v / 60);
    assert(moment_nanoseconds_of_day(t) + n * (MINUTE_NANOSECONDS as int)
        == moment_nanoseconds_of_day(t1) + (v / 60) * (HOUR_NANOSECONDS as int));
}

proof fn lemma_seconds_shift(t: Moment, n: int)
    requires
        date_settled(t),
        time_settled(t),
        year_in_range(t),
        -60 < n < 60,
    ensures
        add_seconds(t, n) == Some(shift(t, n * (SECOND_NANOSECONDS as int))),
{
    reveal(shift);
    reveal(add_seconds);
    let v = t.second + n;
    let t1 = Moment { second: v % 60, ..t };
    lemma_minutes_shift(t1, v / 60);
    assert(moment_nanoseconds_of_day(t) + n * (SECOND_NANOSECONDS as int)
        == moment_nanoseconds_of_day(t1) + (v / 60) * (MINUTE_NANOSECONDS as int));
}

proof fn lemma_nanoseconds_shift(t: Moment, n: int)
    requires
        date_settled(t),
        time_settled(t),
        year_in_range(t),
        -(SECOND_NANOSECONDS as int) < n < SECOND_NANOSECONDS,
    ensures
        add_nanoseconds(t, n) == Some(shift(t, n)),
{
    reveal(shift);
    reveal(add_nanoseconds);
    let v = t.nanosecond + n;
    let t1 = Moment { nanosecond: v % 1_000_000_000, ..t };
    lemma_seconds_shift(t1, v / 1_000_000_000);
    assert(moment_nanoseconds_of_day(t) + n == moment_nanoseconds_of_day(t1) + (v
        / 1_000_000_000) * (SECOND_NANOSECONDS as int));
}

proof fn lemma_shift_settled(t: Moment, x: int)
    requires
        date_settled(t),
        time_settled(t),
        -(DAY_NANOSECONDS as int) <= moment_nanoseconds_of_day(t) + x < 2 * DAY_NANOSECONDS,
    ensures
        date_settled(shift(t, x)),
        time_settled(shift(t, x)),
        t.year - 1 <= shift(t, x).year <= t.year + 1,
        moment_nanoseconds_of_day(shift(t, x)) == (moment_nanoseconds_of_day(t) + x) % (
        DAY_NANOSECONDS as int),
{
    reveal(shift);
    lemma_fields_of_units((moment_nanoseconds_of_day(t) + x) % (DAY_NANOSECONDS as int));
}

proof fn lemma_shift_twice(t: Moment, x: int, y: int)
    requires
        date_settled(t),
        time_settled(t),
        (x >= 0 && y >= 0) || (x <= 0 && y <= 0),
        -(DAY_NANOSECONDS as int) <= moment_nanoseconds_of_day(t) + x + y < 2 * DAY_NANOSECONDS,
    ensures
        shift(shift(t, x), y) == shift(t, x + y),
{
    reveal(shift);
    lemma_shift_settled(t, x);
    let day = DAY_NANOSECONDS as int;
    let r = moment_nanoseconds_of_day(t) + x;
    let s1 = shift(t, x);
    let r2 = moment_nanoseconds_of_day(s1) + y;
    if r < 0 {
        assert(moment_nanoseconds_of_day(s1) == r + day);
        assert(0 <= r2 < day);
        assert(r2 % day == (r + y) % day);
        assert(r + y < 0);
    } else if r < day {
        assert(moment_nanoseconds_of_day(s1) == r);
        assert(r2 == r + y);
    } else {
        assert(moment_nanoseconds_of_day(s1) == r - day);
        assert(0 <= r2 < day);
        assert(r2 % day == (r + y) % day);
        assert(r + y >= day);
    }
}

/// A component of a duration with the sign of the move.
pub open spec fn signed(n: int, backward: bool) -> int {
    if backward { -n } else { n }
}

/// Adding the hours, minutes, seconds and nanoseconds of a duration below a
/// day, all with the same sign, moves a date-time by that duration.
#[verifier::rlimit(50)]
proof fn lemma_time_round_trip(t: Moment, dur: int, backward: bool)
    requires
        date_settled(t),
        time_settled(t),
        -262_144 <= t.year <= 262_144,
        0 <= dur < DAY_NANOSECONDS,
    ensures
        ({
            let u = time_units(dur);
            add_hours(t, signed(u.0, backward)) matches Some(t1) && add_minutes(
                t1,
                signed(u.1, backward),
            ) matches Some(t2) && add_seconds(t2, signed(u.2, backward)) matches Some(t3)
                && add_nanoseconds(t3, signed(u.3, backward)) == Some(
                shift(t, signed(dur, backward)),
            )
        }),
{
    let u = time_units(dur);
    lemma_fields_of_units(dur);
    let x1 = signed(u.0 * (HOUR_NANOSECONDS as int), backward);
    let x2 = signed(u.1 * (MINUTE_NANOSECONDS as int), backward);
    let x3 = signed(u.2 * (SECOND_NANOSECONDS as int), backward);
    let x4 = signed(u.3, backward);
    assert(x1 + x2 + x3 + x4 == signed(dur, backward));
    assert(signed(u.0, backward) * (HOUR_NANOSECONDS as int) == x1);
    assert(signed(u.1, backward) * (MINUTE_NANOSECONDS as int) == x2);
    assert(signed(u.2, backward) * (SECOND_NANOSECONDS as int) == x3);
    lemma_hours_shift(t, signed(u.0, backward));
    let t1 = shift(t, x1);
    lemma_shift_settled(t, x1);
    lemma_minutes_shift(t1, signed(u.1, backward));
    lemma_shift_twice(t, x1, x2);
    let t2 = shift(t, x1 + x2);
    lemma_shift_settled(t, x1 + x2);
    lemma_seconds_shift(t2, signed(u.2, backward));
    lemma_shift_twice(t, x1 + x2, x3);
    let t3 = shift(t, x1 + x2 + x3);
    lemma_shift_settled(t, x1 + x2 + x3);
    lemma_nanoseconds_shift(t3, x4);
    lemma_shift_twice(t, x1 + x2 + x3, x4);
}

/// `x` as a [`Moment`], its month counted from 0.
pub open spec fn moment_of(x: CivilDateTime) -> Moment {
    Moment {
        year: x.year as int,
        month: x.month - 1,
        day: x.day as int,
        hour: x.hour as int,
        minute: x.minute as int,
        second: x.second as int,
        nanosecond: x.nanosecond as int,
    }
}

proof fn lemma_neighbour_days(y: int, m: int, d: int)
    requires
        valid_date(y, m, d),
    ensures
        ({
            let p = previous_day(y, m, d);
            let n = next_day(y, m, d);
            &&& valid_date(p.0, p.1, p.2)
            &&& valid_date(n.0, n.1, n.2)
            &&& next_day(p.0, p.1, p.2) == (y, m, d)
            &&& previous_day(n.0, n.1, n.2) == (y, m, d)
        }),
{
}

/// Where a move of `x` nanoseconds from `t` ends on the date and at the time
/// of day of `target`, `shift` gives `target`.
proof fn lemma_shift_to(t: Moment, x: int, target: Moment, days: int)
    requires
        time_settled(target),
        -1 <= days <= 1,
        moment_nanoseconds_of_day(t) + x == moment_nanoseconds_of_day(target) + days * (
        DAY_NANOSECONDS as int),
        days == 1 ==> next_day(t.year, t.month + 1, t.day) == (
            target.year,
            target.month + 1,
            target.day,
        ),
        days == 0 ==> (t.year, t.month, t.day) == (target.year, target.month, target.day),
        days == -1 ==> previous_day(t.year, t.month + 1, t.day) == (
            target.year,
            target.month + 1,
            target.day,
        ),
    ensures
        shift(t, x) == target,
{
    reveal(shift);
    lemma_units_of_fields(target);
    let total = moment_nanoseconds_of_day(t) + x;
    assert(total % (DAY_NANOSECONDS as int) == moment_nanoseconds_of_day(target));
}

proof fn lemma_round_trip_forward(a: CivilDateTime, b: CivilDateTime)
    requires
        a.wf(),
        b.wf(),
        is_before(a, b),
    ensures
        moved(a, forward_parts(a, b, false)) == Some(moment_of(b)),
{
    let ta = moment_of(a);
    let tb = moment_of(b);
    let p = forward_parts(a, b, false);
    let borrow = nanoseconds_of_day(b) < nanoseconds_of_day(a);
    let l = if borrow {
        previous_day(b.year as int, b.month as int, b.day as int)
    } else {
        (b.year as int, b.month as int, b.day as int)
    };
    let dur = if nanoseconds_of_day(b) >= nanoseconds_of_day(a) {
        nanoseconds_of_day(b) - nanoseconds_of_day(a)
    } else {
        DAY_NANOSECONDS + nanoseconds_of_day(b) - nanoseconds_of_day(a)
    };
    let q = ymd_parts(ta.year, ta.month + 1, ta.day, l.0, l.1, l.2, false);
    let u = time_units(dur);
    assert(p.years == q.0 && p.months == q.1 && p.days == q.2);
    assert(p.hours == u.0 && p.minutes == u.1 && p.seconds == u.2 && p.nanoseconds == u.3);
    lemma_neighbour_days(b.year as int, b.month as int, b.day as int);
    lemma_forward_dates_round_trip(ta, l.0, l.1, l.2);
    let tl = on_date(ta, l);
    lemma_time_round_trip(tl, dur, false);
    lemma_shift_to(tl, dur, tb, if borrow { 1 } else { 0 });
    reveal(moved);
}

proof fn lemma_round_trip_backward(a: CivilDateTime, b: CivilDateTime)
    requires
        a.wf(),
        b.wf(),
        is_before(b, a),
    ensures
        moved(a, negated_parts(forward_parts(b, a, true))) == Some(moment_of(b)),
{
    let ta = moment_of(a);
    let tb = moment_of(b);
    let p = forward_parts(b, a, true);
    let borrow = nanoseconds_of_day(a) < nanoseconds_of_day(b);
    let e = if borrow {
        next_day(b.year as int, b.month as int, b.day as int)
    } else {
        (b.year as int, b.month as int, b.day as int)
    };
    let dur = if nanoseconds_of_day(a) >= nanoseconds_of_day(b) {
        nanoseconds_of_day(a) - nanoseconds_of_day(b)
    } else {
        DAY_NANOSECONDS + nanoseconds_of_day(a) - nanoseconds_of_day(b)
    };
    let q = ymd_parts(e.0, e.1, e.2, ta.year, ta.month + 1, ta.day, true);
    let u = time_units(dur);
    assert(p.years == q.0 && p.months == q.1 && p.days == q.2);
    assert(p.hours == u.0 && p.minutes == u.1 && p.seconds == u.2 && p.nanoseconds == u.3);
    lemma_neighbour_days(b.year as int, b.month as int, b.day as int);
    lemma_backward_dates_round_trip(ta, e.0, e.1, e.2);
    let te = on_date(ta, e);
    lemma_time_round_trip(te, dur, true);
    lemma_shift_to(te, -dur, tb, if borrow { -1 } else { 0 });
    reveal(moved);
}

/// Adding the difference from `a` to `b` to `a` gives `b`.
pub proof fn lemma_add_diff_round_trip(a: CivilDateTime, b: CivilDateTime)
    requires
        a.wf(),
        b.wf(),
    ensures
        added(a, date_time_diff_parts(a, b)) == Some(b),
{
    if is_before(a, b) {
        lemma_round_trip_forward(a, b);
    } else if is_before(b, a) {
        lemma_round_trip_backward(a, b);
    } else {
        lemma_units_of_fields(moment_of(a));
        lemma_units_of_fields(moment_of(b));
        assert(a == b);
        lemma_add_zero_is_identity(a);
    }
}

} // verus!
