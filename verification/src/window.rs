//! The reporting window: a month given as plain year and month numbers is
//! widened to the half-open range of UTC day boundaries
//! `[first day of the month, first day of the next month)`.

use vstd::prelude::*;

verus! {

/// A UTC day boundary as plain values: year, month (1 to 12) and day.
#[derive(Clone, Copy, PartialEq, Eq, Structural, Debug)]
pub struct Date {
    pub year: i32,
    pub month: u32,
    pub day: u32,
}

/// The half-open window for the given month: midnight of day 1 of that month
/// (inclusive) up to midnight of day 1 of the next month (exclusive), with
/// December rolling over to January of the following year.
pub fn month_window(year: i32, month: u32) -> (r: (Date, Date))
    requires
        1 <= month <= 12,
        year < i32::MAX,
    ensures
        r.0 == (Date { year, month, day: 1 }),
        month == 12 ==> r.1 == (Date { year: (year + 1) as i32, month: 1u32, day: 1u32 }),
        month < 12 ==> r.1 == (Date { year, month: (month + 1) as u32, day: 1u32 }),
{
    let since = Date { year, month, day: 1 };
    let until = if month == 12 {
        Date { year: year + 1, month: 1, day: 1 }
    } else {
        Date { year, month: month + 1, day: 1 }
    };
    (since, until)
}

} // verus!
