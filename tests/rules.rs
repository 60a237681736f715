use date_differencer::{
    add_date_time_diff, date_diff, date_time_diff, month_length, CivilDateTime, DateDiffResult,
    DateTimeDiffResult, MAX_YEAR, MIN_YEAR,
};

fn at(y: i32, mo: u32, d: u32, h: u32, mi: u32, s: u32, ns: u32) -> CivilDateTime {
    CivilDateTime::new(y, mo, d, h, mi, s, ns).unwrap()
}

fn day(y: i32, mo: u32, d: u32) -> CivilDateTime {
    at(y, mo, d, 0, 0, 0, 0)
}

#[test]
fn diff_of_a_date_time_with_itself_is_zero() {
    let x = at(1999, 12, 31, 23, 59, 59, 999_999_999);
    assert_eq!(DateDiffResult { years: 0, months: 0, days: 0 }, date_diff(x, x));
    assert_eq!(DateTimeDiffResult::default(), date_time_diff(x, x));
}

#[test]
fn diff_directions_have_opposite_signs() {
    let a = at(2020, 1, 31, 12, 0, 0, 0);
    let b = at(2020, 3, 1, 11, 0, 0, 0);
    let forward = date_time_diff(a, b);
    let backward = date_time_diff(b, a);
    assert_eq!(
        DateTimeDiffResult {
            years: 0,
            months: 0,
            days: 29,
            hours: 23,
            minutes: 0,
            seconds: 0,
            nanoseconds: 0,
        },
        forward
    );
    assert_eq!(
        DateTimeDiffResult {
            years: 0,
            months: -1,
            days: 0,
            hours: -23,
            minutes: 0,
            seconds: 0,
            nanoseconds: 0,
        },
        backward
    );
}

#[test]
fn adding_zero_keeps_the_date_time() {
    let x = at(2024, 2, 29, 13, 14, 15, 16);
    assert_eq!(Some(x), add_date_time_diff(x, &DateTimeDiffResult::default()));
    assert_eq!(Some(x), add_date_time_diff(x, &DateDiffResult::default()));
}

#[test]
fn adding_the_diff_gives_the_end_back() {
    let pairs = [
        (at(2020, 1, 31, 12, 0, 0, 0), at(2020, 3, 1, 11, 0, 0, 0)),
        (at(2020, 3, 1, 11, 0, 0, 0), at(2020, 1, 31, 12, 0, 0, 0)),
        (at(1900, 2, 28, 23, 59, 59, 999_999_999), at(2000, 2, 29, 0, 0, 0, 0)),
        (at(2000, 2, 29, 0, 0, 0, 0), at(1900, 2, 28, 23, 59, 59, 999_999_999)),
        (at(-44, 3, 15, 6, 30, 0, 1), at(2023, 12, 31, 6, 29, 59, 0)),
        (at(2021, 12, 31, 18, 0, 0, 0), at(2022, 1, 1, 6, 0, 0, 0)),
        (at(2022, 1, 1, 6, 0, 0, 0), at(2021, 12, 31, 18, 0, 0, 0)),
    ];
    for (a, b) in pairs {
        assert_eq!(Some(b), add_date_time_diff(a, &date_time_diff(a, b)));
    }
}

#[test]
fn diff_across_a_leap_day() {
    let a = day(2020, 2, 27);
    let b = day(2021, 3, 1);
    assert_eq!(DateDiffResult { years: 1, months: 0, days: 2 }, date_diff(a, b));
    assert_eq!(DateDiffResult { years: -1, months: 0, days: -3 }, date_diff(b, a));
}

#[test]
fn one_month_after_a_month_end_clamps() {
    let one_month = DateDiffResult { years: 0, months: 1, days: 0 };
    assert_eq!(Some(day(2021, 2, 28)), add_date_time_diff(day(2021, 1, 31), &one_month));
    assert_eq!(Some(day(2020, 2, 29)), add_date_time_diff(day(2020, 1, 31), &one_month));
    assert_eq!(Some(day(2021, 4, 30)), add_date_time_diff(day(2021, 3, 31), &one_month));
}

#[test]
fn diff_with_one_hour_over_the_days() {
    let a = day(2022, 4, 6);
    let b = at(2023, 6, 9, 1, 0, 0, 0);
    assert_eq!(DateDiffResult { years: 1, months: 2, days: 3 }, date_diff(a, b));
    assert_eq!(
        DateTimeDiffResult {
            years: 1,
            months: 2,
            days: 3,
            hours: 1,
            minutes: 0,
            seconds: 0,
            nanoseconds: 0,
        },
        date_time_diff(a, b)
    );
    assert_eq!(Some(b), add_date_time_diff(a, &date_time_diff(a, b)));
}

#[test]
fn negated_diff_leads_back_to_the_start() {
    let a = day(2022, 4, 6);
    let b = at(2023, 6, 9, 1, 0, 0, 0);
    let back = date_time_diff(a, b).into_neg();
    assert_eq!(Some(a), add_date_time_diff(b, &back));
}

#[test]
fn month_borrow_uses_floor_division() {
    let minus_one_month = DateDiffResult { years: 0, months: -1, days: 0 };
    assert_eq!(Some(day(2020, 12, 15)), add_date_time_diff(day(2021, 1, 15), &minus_one_month));
    let minus_twelve_months = DateDiffResult { years: 0, months: -12, days: 0 };
    assert_eq!(Some(day(2020, 1, 15)), add_date_time_diff(day(2021, 1, 15), &minus_twelve_months));
    let minus_day = DateTimeDiffResult { hours: -24, ..DateTimeDiffResult::default() };
    assert_eq!(Some(day(2021, 1, 14)), add_date_time_diff(day(2021, 1, 15), &minus_day));
}

#[test]
fn days_carry_through_several_months() {
    let days = DateDiffResult { years: 0, months: 0, days: 366 };
    assert_eq!(Some(day(2021, 1, 1)), add_date_time_diff(day(2020, 1, 1), &days));
    let back = DateDiffResult { years: 0, months: 0, days: -60 };
    assert_eq!(Some(day(2019, 12, 31)), add_date_time_diff(day(2020, 2, 29), &back));
    let zero_day = DateDiffResult { years: 0, months: 0, days: -1 };
    assert_eq!(Some(day(2020, 2, 29)), add_date_time_diff(day(2020, 3, 1), &zero_day));
}

#[test]
fn time_units_carry_into_the_date() {
    let d = DateTimeDiffResult {
        years: 0,
        months: 0,
        days: 0,
        hours: 0,
        minutes: 0,
        seconds: 0,
        nanoseconds: 1,
    };
    assert_eq!(
        Some(day(2000, 1, 1)),
        add_date_time_diff(at(1999, 12, 31, 23, 59, 59, 999_999_999), &d)
    );
}

#[test]
fn overflow_gives_no_result() {
    let x = day(2020, 1, 1);
    let years = DateDiffResult { years: i32::MAX, months: 0, days: 0 };
    assert_eq!(None, add_date_time_diff(x, &years));
    let days = DateDiffResult { years: 0, months: 0, days: i32::MAX };
    assert_eq!(None, add_date_time_diff(x, &days));
    let seconds = DateTimeDiffResult { seconds: i32::MAX, ..DateTimeDiffResult::default() };
    assert_eq!(None, add_date_time_diff(at(2020, 1, 1, 0, 0, 59, 0), &seconds));
}

#[test]
fn year_outside_the_range_gives_no_result() {
    let x = day(MAX_YEAR, 12, 31);
    let one_day = DateDiffResult { years: 0, months: 0, days: 1 };
    assert_eq!(None, add_date_time_diff(x, &one_day));
    let y = day(MIN_YEAR, 1, 1);
    let minus_one_day = DateDiffResult { years: 0, months: 0, days: -1 };
    assert_eq!(None, add_date_time_diff(y, &minus_one_day));
}

#[test]
fn new_rejects_fields_that_name_no_date_time() {
    assert!(CivilDateTime::new(2021, 2, 29, 0, 0, 0, 0).is_none());
    assert!(CivilDateTime::new(2020, 2, 29, 0, 0, 0, 0).is_some());
    assert!(CivilDateTime::new(2020, 13, 1, 0, 0, 0, 0).is_none());
    assert!(CivilDateTime::new(2020, 0, 1, 0, 0, 0, 0).is_none());
    assert!(CivilDateTime::new(2020, 4, 31, 0, 0, 0, 0).is_none());
    assert!(CivilDateTime::new(2020, 4, 0, 0, 0, 0, 0).is_none());
    assert!(CivilDateTime::new(2020, 4, 1, 24, 0, 0, 0).is_none());
    assert!(CivilDateTime::new(2020, 4, 1, 0, 60, 0, 0).is_none());
    assert!(CivilDateTime::new(2020, 4, 1, 0, 0, 60, 0).is_none());
    assert!(CivilDateTime::new(2020, 4, 1, 0, 0, 0, 1_000_000_000).is_none());
    assert!(CivilDateTime::new(MAX_YEAR + 1, 1, 1, 0, 0, 0, 0).is_none());
    assert!(CivilDateTime::new(MIN_YEAR - 1, 1, 1, 0, 0, 0, 0).is_none());
}

#[test]
fn month_lengths_follow_the_gregorian_rules() {
    assert_eq!(29, month_length(2020, 2));
    assert_eq!(28, month_length(2021, 2));
    assert_eq!(29, month_length(2000, 2));
    assert_eq!(28, month_length(1900, 2));
    assert_eq!(31, month_length(2021, 1));
    assert_eq!(30, month_length(2021, 11));
    assert_eq!(29, month_length(-4, 2));
}

#[test]
fn conversions_between_result_types() {
    let d = DateDiffResult { years: 1, months: 2, days: 3 };
    let wide = DateTimeDiffResult::from(d);
    assert_eq!(
        DateTimeDiffResult {
            years: 1,
            months: 2,
            days: 3,
            hours: 0,
            minutes: 0,
            seconds: 0,
            nanoseconds: 0,
        },
        wide
    );
    let full = DateTimeDiffResult {
        years: 1,
        months: 2,
        days: 3,
        hours: 4,
        minutes: 5,
        seconds: 6,
        nanoseconds: 7,
    };
    assert_eq!(d, DateDiffResult::from(full));
    assert_eq!(
        DateTimeDiffResult {
            years: -1,
            months: -2,
            days: -3,
            hours: -4,
            minutes: -5,
            seconds: -6,
            nanoseconds: -7,
        },
        full.into_neg()
    );
}

#[test]
fn time_diff_wraps_through_midnight() {
    let a = at(2021, 12, 31, 18, 30, 15, 500);
    let b = at(2022, 1, 1, 6, 15, 10, 400);
    assert_eq!(
        DateTimeDiffResult {
            years: 0,
            months: 0,
            days: 0,
            hours: 11,
            minutes: 44,
            seconds: 54,
            nanoseconds: 999_999_900,
        },
        date_time_diff(a, b)
    );
}
