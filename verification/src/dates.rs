//! Calendar dates as day numbers: day 1 is 0001-01-01 of the proleptic
//! Gregorian calendar (chrono's `num_days_from_ce`).
use vstd::prelude::*;
use chrono::{Datelike, NaiveDate, TimeDelta};

verus! {

/// Day number of the earliest date chrono represents (-262143-01-01).
pub const MIN_DAY: i32 = -95746129i32;

/// Day number of the latest date chrono represents (262142-12-31).
pub const MAX_DAY: i32 = 95745399i32;

/// `d` is the day number of a date chrono can represent.
pub open spec fn valid_day(d: int) -> bool {
    MIN_DAY <= d <= MAX_DAY
}

/// Calls chrono: builds the date numbered `day`, adds `delta` whole days with
/// `NaiveDate::checked_add_signed` and numbers the result again. Claims that
/// the result is the day `day + delta` exactly when both days lie within
/// chrono's range, and that there is no result otherwise.
#[verifier::external_body]
fn chrono_add_days(day: i32, delta: i64) -> (r: Option<i32>)
    ensures
        r == (if valid_day(day as int) && valid_day(day + delta) {
            Some((day + delta) as i32)
        } else {
            None::<i32>
        }),
{
    match NaiveDate::from_num_days_from_ce_opt(day) {
        Some(date) => match TimeDelta::try_days(delta) {
            Some(td) => match date.checked_add_signed(td) {
                Some(shifted) => Some(shifted.num_days_from_ce()),
                None => None,
            },
            None => None,
        },
        None => None,
    }
}

/// The date `delta` days after `day`, if chrono can represent both.
pub fn shift_day(day: i32, delta: i64) -> (r: Option<i32>)
    ensures
        r == (if valid_day(day as int) && valid_day(day + delta) {
            Some((day + delta) as i32)
        } else {
            None::<i32>
        }),
{
    chrono_add_days(day, delta)
}

/// Whole days from `earlier` to `later` (negative when `later` is earlier).
pub fn days_between(later: i32, earlier: i32) -> (r: i64)
    ensures
        r == later - earlier,
{
    later as i64 - earlier as i64
}

} // verus!
