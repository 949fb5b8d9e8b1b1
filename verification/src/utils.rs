//! Conversions between calendar dates and day counts.

use vstd::prelude::*;
use crate::time::{date_in_range, CalendarDate};

verus! {

/// The date that many days after 1970-01-01.
pub fn date_of_days_since_epoch(days: i32) -> (r: CalendarDate)
    requires
        date_in_range(days as int),
    ensures
        r@ == days,
        r.wf(),
{
    CalendarDate::from_days_since_epoch(days).unwrap()
}

/// The days from 1970-01-01 to the given date.
pub fn date_to_days_since_epoch(date: CalendarDate) -> (r: i32)
    ensures
        r == date@,
{
    date.days_since_epoch()
}

} // verus!
