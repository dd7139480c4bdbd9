//! The one place the engine reads a clock.

use vstd::prelude::*;

use chrono::Datelike;

use crate::period::Date;

verus! {

/// Relies on chrono's `Utc::now` and `NaiveDate`'s `year`/`month`/`day`
/// accessors: whatever instant the clock reports, the returned year, month
/// and day name a real calendar date.
#[verifier::external_body]
pub fn today_utc() -> (d: Date)
    ensures
        d.valid(),
{
    let now = chrono::Utc::now().date_naive();
    Date { year: now.year(), month: now.month() as u8, day: now.day() as u8 }
}

} // verus!
