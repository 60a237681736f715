//! Calendar-aware differences between civil date-times, and the inverse
//! operation of adding such a difference to a date-time.

pub mod add_diff;
pub mod calendar;
pub mod civil;
pub mod diff;
pub mod laws;

pub use add_diff::add_date_time_diff;
pub use calendar::month_length;
pub use civil::{CivilDateTime, MAX_YEAR, MIN_YEAR};
pub use diff::{date_diff, date_time_diff, DateDiffResult, DateTimeDiff, DateTimeDiffResult, DiffParts};
