use chrono::{DateTime, Datelike, Local, Months, NaiveDateTime, TimeDelta, TimeZone, Timelike};
use date_differencer::{
    add_date_time_diff, date_diff, date_time_diff, CivilDateTime, DateDiffResult,
    DateTimeDiffResult,
};

fn civil(t: &NaiveDateTime) -> CivilDateTime {
    CivilDateTime::new(t.year(), t.month(), t.day(), t.hour(), t.minute(), t.second(), t.nanosecond())
        .unwrap()
}

fn local(t: &DateTime<Local>) -> CivilDateTime {
    civil(&t.naive_local())
}

struct Lcg(u64);

impl Lcg {
    fn next_in(&mut self, low: i64, high: i64) -> i64 {
        self.0 = self.0.wrapping_mul(6364136223846793005).wrapping_add(1442695040888963407);
        let span = (high - low) as u64;
        low + ((self.0 >> 11) % span) as i64
    }
}

fn random_date(rng: &mut Lcg) -> DateTime<Local> {
    let millis = rng.next_in(-1000000000000, 3000000000000);
    Local.from_utc_datetime(&DateTime::from_timestamp_millis(millis).unwrap().naive_utc())
}

#[test]
fn basic_same_date() {
    let date = local(&Local::now());

    assert_eq!(DateDiffResult::default(), date_diff(date, date));
    assert_eq!(DateTimeDiffResult::default(), date_time_diff(date, date));
}

#[test]
fn basic_diff_1_nanosecond() {
    let now = Local::now();
    let date = local(&now);
    let date_plus = local(&(now + TimeDelta::nanoseconds(1)));

    let expect_date_result = DateDiffResult::default();
    let expect_date_time_result = DateTimeDiffResult {
        nanoseconds: 1,
        ..DateTimeDiffResult::default()
    };

    assert_eq!(expect_date_result, date_diff(date, date_plus));
    assert_eq!(expect_date_time_result, date_time_diff(date, date_plus));

    assert_eq!(expect_date_result.into_neg(), date_diff(date_plus, date));
    assert_eq!(expect_date_time_result.into_neg(), date_time_diff(date_plus, date));
}

#[test]
fn basic_diff_1_second() {
    let now = Local::now();
    let date = local(&now);
    let date_plus = local(&(now + TimeDelta::seconds(1)));

    let expect_date_result = DateDiffResult::default();
    let expect_date_time_result = DateTimeDiffResult {
        seconds: 1,
        ..DateTimeDiffResult::default()
    };

    assert_eq!(expect_date_result, date_diff(date, date_plus));
    assert_eq!(expect_date_time_result, date_time_diff(date, date_plus));

    assert_eq!(expect_date_result.into_neg(), date_diff(date_plus, date));
    assert_eq!(expect_date_time_result.into_neg(), date_time_diff(date_plus, date));
}

#[test]
fn basic_diff_1_minute() {
    let now = Local::now();
    let date = local(&now);
    let date_plus = local(&(now + TimeDelta::minutes(1)));

    let expect_date_result = DateDiffResult::default();
    let expect_date_time_result = DateTimeDiffResult {
        minutes: 1,
        ..DateTimeDiffResult::default()
    };

    assert_eq!(expect_date_result, date_diff(date, date_plus));
    assert_eq!(expect_date_time_result, date_time_diff(date, date_plus));

    assert_eq!(expect_date_result.into_neg(), date_diff(date_plus, date));
    assert_eq!(expect_date_time_result.into_neg(), date_time_diff(date_plus, date));
}

#[test]
fn basic_diff_1_hour() {
    let now = Local::now();
    let date = local(&now);
    let date_plus = local(&(now + TimeDelta::hours(1)));

    let expect_date_result = DateDiffResult::default();
    let expect_date_time_result = DateTimeDiffResult {
        hours: 1,
        ..DateTimeDiffResult::default()
    };

    assert_eq!(expect_date_result, date_diff(date, date_plus));
    assert_eq!(expect_date_time_result, date_time_diff(date, date_plus));

    assert_eq!(expect_date_result.into_neg(), date_diff(date_plus, date));
    assert_eq!(expect_date_time_result.into_neg(), date_time_diff(date_plus, date));
}

#[test]
fn basic_diff_1_day() {
    let now = Local::now();
    let date = local(&now);
    let date_plus = local(&(now + TimeDelta::days(1)));

    let expect_date_result = DateDiffResult {
        days: 1,
        ..DateDiffResult::default()
    };

    let expect_date_time_result = DateTimeDiffResult {
        days: 1,
        ..DateTimeDiffResult::default()
    };

    assert_eq!(expect_date_result, date_diff(date, date_plus));
    assert_eq!(expect_date_time_result, date_time_diff(date, date_plus));

    assert_eq!(expect_date_result.into_neg(), date_diff(date_plus, date));
    assert_eq!(expect_date_time_result.into_neg(), date_time_diff(date_plus, date));
}

#[test]
fn basic_diff_1_month() {
    let start = Local.with_ymd_and_hms(2001, 1, 1, 0, 0, 0).unwrap();
    let date = local(&start);
    let date_plus = local(&start.checked_add_months(Months::new(1)).unwrap());

    let expect_date_result = DateDiffResult {
        months: 1,
        ..DateDiffResult::default()
    };

    let expect_date_time_result = DateTimeDiffResult {
        months: 1,
        ..DateTimeDiffResult::default()
    };

    assert_eq!(expect_date_result, date_diff(date, date_plus));
    assert_eq!(expect_date_time_result, date_time_diff(date, date_plus));

    assert_eq!(expect_date_result.into_neg(), date_diff(date_plus, date));
    assert_eq!(expect_date_time_result.into_neg(), date_time_diff(date_plus, date));
}

#[test]
fn basic_diff_1_year() {
    let start = Local.with_ymd_and_hms(2001, 1, 1, 0, 0, 0).unwrap();
    let date = local(&start);
    let date_plus = local(&start.checked_add_months(Months::new(12)).unwrap());

    let expect_date_result = DateDiffResult {
        years: 1,
        ..DateDiffResult::default()
    };

    let expect_date_time_result = DateTimeDiffResult {
        years: 1,
        ..DateTimeDiffResult::default()
    };

    assert_eq!(expect_date_result, date_diff(date, date_plus));
    assert_eq!(expect_date_time_result, date_time_diff(date, date_plus));

    assert_eq!(expect_date_result.into_neg(), date_diff(date_plus, date));
    assert_eq!(expect_date_time_result.into_neg(), date_time_diff(date_plus, date));
}

#[test]
fn basic_diff_1_year_1_month_1_day_1_hour_1_minute_1_second_1_nanosecond() {
    let start = Local.with_ymd_and_hms(2001, 2, 2, 2, 2, 2).unwrap() + TimeDelta::nanoseconds(1);
    let end = start
        .checked_add_months(Months::new(12))
        .unwrap()
        .checked_add_months(Months::new(1))
        .unwrap()
        + TimeDelta::days(1)
        + TimeDelta::hours(1)
        + TimeDelta::minutes(1)
        + TimeDelta::seconds(1)
        + TimeDelta::nanoseconds(1);
    let date = local(&start);
    let date_plus = local(&end);

    let expect_date_result = DateDiffResult {
        years: 1, months: 1, days: 1
    };

    let expect_date_time_result = DateTimeDiffResult {
        years:       1,
        months:      1,
        days:        1,
        hours:       1,
        minutes:     1,
        seconds:     1,
        nanoseconds: 1,
    };

    assert_eq!(expect_date_result, date_diff(date, date_plus));
    assert_eq!(expect_date_time_result, date_time_diff(date, date_plus));

    assert_eq!(expect_date_result.into_neg(), date_diff(date_plus, date));
    assert_eq!(expect_date_time_result.into_neg(), date_time_diff(date_plus, date));
}

#[test]
fn add_diff_back() {
    let mut rng = Lcg(0x2545F4914F6CDD1D);
    for _ in 0..10000 {
        let a = local(&random_date(&mut rng));
        let b = local(&random_date(&mut rng));

        let diff = date_time_diff(a, b);

        assert_eq!(Some(b), add_date_time_diff(a, &diff));
    }
}
