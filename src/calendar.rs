use vstd::prelude::*;

verus! {

/// Whether `year` is a leap year of the proleptic Gregorian calendar.
pub open spec fn is_leap_year(year: int) -> bool {
    (year % 4 == 0 && year % 100 != 0) || year % 400 == 0
}

/// The number of days in `month` (1 to 12) of `year`.
pub open spec fn days_in_month(year: int, month: int) -> int {
    if month == 2 {
        if is_leap_year(year) { 29 } else { 28 }
    } else if month == 4 || month == 6 || month == 9 || month == 11 {
        30
    } else {
        31
    }
}

/// Relies on `year_helper::get_days_in_month`: the Gregorian length of a
/// month, and `None` for a month outside 1 to 12.
#[verifier::external_body]
fn get_days_in_month(year: i32, month: u8) -> (r: Option<u8>)
    ensures
        1 <= month <= 12 ==> r == Some(days_in_month(year as int, month as int) as u8),
        !(1 <= month <= 12) ==> r is None,
{
    year_helper::get_days_in_month(year, month)
}

/// The number of days in `month` (1 to 12) of `year`.
pub fn month_length(year: i32, month: u8) -> (r: u8)
    requires
        1 <= month <= 12,
    ensures
        r as int == days_in_month(year as int, month as int),
        28 <= r <= 31,
{
    get_days_in_month(year, month).unwrap()
}

} // verus!
