//! Period calculus: pure functions mapping a date to a fiscal quarter and a
//! quarter plus year to an inclusive date range.

use vstd::prelude::*;

use crate::errors::CoreError;

verus! {

/// One of the four fixed calendar-quarter buckets used to scope rating
/// rounds.  Derived from a date's month: Q1 covers January through March,
/// Q2 April through June, Q3 July through September, Q4 October through
/// December.
#[derive(Clone, Copy, Debug, PartialEq, Eq, Structural)]
pub enum Period {
    Q1,
    Q2,
    Q3,
    Q4,
}

/// A calendar date in the proleptic Gregorian calendar, held as plain year,
/// month and day numbers.
#[derive(Clone, Copy, Debug, PartialEq, Eq, Structural)]
pub struct Date {
    pub year: i32,
    pub month: u8,
    pub day: u8,
}

pub open spec fn is_leap_year(year: int) -> bool {
    (year % 4 == 0 && year % 100 != 0) || year % 400 == 0
}

pub open spec fn days_in_month(year: int, month: int) -> int {
    if month == 2 {
        if is_leap_year(year) {
            29
        } else {
            28
        }
    } else if month == 4 || month == 6 || month == 9 || month == 11 {
        30
    } else {
        31
    }
}

/// The quarter a month belongs to.
pub open spec fn period_of_month(month: int) -> Period {
    if month <= 3 {
        Period::Q1
    } else if month <= 6 {
        Period::Q2
    } else if month <= 9 {
        Period::Q3
    } else {
        Period::Q4
    }
}

impl Date {
    /// A real calendar date: month in range and day in range for that month.
    pub open spec fn valid(self) -> bool {
        &&& 1 <= self.month <= 12
        &&& 1 <= self.day <= days_in_month(self.year as int, self.month as int)
    }

    /// Chronological order, as the lexicographic order on (year, month, day).
    pub open spec fn spec_le(self, other: Date) -> bool {
        ||| self.year < other.year
        ||| (self.year == other.year && self.month < other.month)
        ||| (self.year == other.year && self.month == other.month && self.day <= other.day)
    }

    /// Builds a date, rejecting year/month/day combinations that do not name
    /// a real calendar date.
    pub fn new(year: i32, month: u8, day: u8) -> (r: Option<Date>)
        ensures
            ({ let d = Date { year, month, day };
                if d.valid() {
                    r == Some(d)
                } else {
                    r is None
                }
            }),
    {
        if 1 <= month && month <= 12 && 1 <= day && day <= days_in_month_of(year, month) {
            Some(Date { year, month, day })
        } else {
            None
        }
    }

    /// Chronological comparison.
    pub fn le(self, other: Date) -> (r: bool)
        ensures
            r == self.spec_le(other),
    {
        self.year < other.year || (self.year == other.year && (self.month < other.month || (
        self.month == other.month && self.day <= other.day)))
    }
}

/// Whether `year` is a leap year.
#[verifier::rlimit(60)]
pub fn leap_year(year: i32) -> (r: bool)
    ensures
        r == is_leap_year(year as int),
{
    (year % 4 == 0 && year % 100 != 0) || year % 400 == 0
}

/// The number of days in the given month of the given year.
pub fn days_in_month_of(year: i32, month: u8) -> (d: u8)
    requires
        1 <= month <= 12,
    ensures
        d == days_in_month(year as int, month as int),
{
    if month == 2 {
        if leap_year(year) {
            29
        } else {
            28
        }
    } else if month == 4 || month == 6 || month == 9 || month == 11 {
        30
    } else {
        31
    }
}

impl Period {
    /// The position of the quarter within the year, counting from zero.
    pub open spec fn ordinal(self) -> int {
        match self {
            Period::Q1 => 0,
            Period::Q2 => 1,
            Period::Q3 => 2,
            Period::Q4 => 3,
        }
    }

    /// The first month of the quarter.
    pub open spec fn spec_first_month(self) -> int {
        match self {
            Period::Q1 => 1,
            Period::Q2 => 4,
            Period::Q3 => 7,
            Period::Q4 => 10,
        }
    }

    /// The last month of the quarter.
    pub open spec fn spec_last_month(self) -> int {
        match self {
            Period::Q1 => 3,
            Period::Q2 => 6,
            Period::Q3 => 9,
            Period::Q4 => 12,
        }
    }

    /// The day the quarter ends on: the last day of its last month.  No
    /// quarter ends in February, so leap years play no role.
    pub open spec fn spec_last_day(self) -> int {
        match self {
            Period::Q1 => 31,
            Period::Q2 => 30,
            Period::Q3 => 30,
            Period::Q4 => 31,
        }
    }

    /// The inclusive date range the quarter covers in the given year.  The
    /// range of Q4 ends on December 31 of the same year.
    pub open spec fn spec_range(self, year: i32) -> (Date, Date) {
        (
            Date { year, month: self.spec_first_month() as u8, day: 1 },
            Date { year, month: self.spec_last_month() as u8, day: self.spec_last_day() as u8 },
        )
    }

    /// The quarter at a position within the year, counting from zero; any
    /// other number names no quarter.
    pub fn from_ordinal(n: i32) -> (r: Option<Period>)
        ensures
            match r {
                Some(p) => 0 <= n <= 3 && p.ordinal() == n as int,
                None => !(0 <= n <= 3),
            },
    {
        match n {
            0 => Some(Period::Q1),
            1 => Some(Period::Q2),
            2 => Some(Period::Q3),
            3 => Some(Period::Q4),
            _ => None,
        }
    }

    /// The position of the quarter within the year, counting from zero.
    pub fn ordinal_index(&self) -> (n: u8)
        ensures
            n as int == self.ordinal(),
    {
        match self {
            Period::Q1 => 0,
            Period::Q2 => 1,
            Period::Q3 => 2,
            Period::Q4 => 3,
        }
    }

    /// The quarter containing the given date.
    pub fn from_date(date: Date) -> (p: Period)
        requires
            1 <= date.month <= 12,
        ensures
            p == period_of_month(date.month as int),
    {
        if date.month <= 3 {
            Period::Q1
        } else if date.month <= 6 {
            Period::Q2
        } else if date.month <= 9 {
            Period::Q3
        } else {
            Period::Q4
        }
    }

    /// The first and last month of the quarter.
    pub fn to_month_range(&self) -> (r: (u32, u32))
        ensures
            r.0 == self.spec_first_month(),
            r.1 == self.spec_last_month(),
    {
        match self {
            Period::Q1 => (1, 3),
            Period::Q2 => (4, 6),
            Period::Q3 => (7, 9),
            Period::Q4 => (10, 12),
        }
    }

    /// The inclusive date range the quarter covers in the given year.  The
    /// `Result` mirrors the defensive shape of the operation: for this date
    /// representation every quarter of every year has a range, so the
    /// `InvalidDate` failure cannot arise.
    pub fn to_date_range(&self, year: i32) -> (r: Result<(Date, Date), CoreError>)
        ensures
            r == Ok::<(Date, Date), CoreError>(self.spec_range(year)),
    {
        let (first, last): (u32, u32) = self.to_month_range();
        let last_day: u8 = match self {
            Period::Q1 => 31,
            Period::Q2 => 30,
            Period::Q3 => 30,
            Period::Q4 => 31,
        };
        Ok((
            Date { year, month: first as u8, day: 1 },
            Date { year, month: last as u8, day: last_day },
        ))
    }

    /// The current year, quarter and quarter range, derived from one given
    /// notion of "today" so that every query issued for one request sees the
    /// same current period.
    pub fn period_info(today: Date) -> (r: (i32, Period, (Date, Date)))
        requires
            today.valid(),
        ensures
            r.0 == today.year,
            r.1 == period_of_month(today.month as int),
            r.2 == r.1.spec_range(today.year),
    {
        let p = Period::from_date(today);
        let range = match p.to_date_range(today.year) {
            Ok(range) => range,
            Err(_) => (today, today),
        };
        (today.year, p, range)
    }

    /// The current year, quarter and quarter range, read once from the
    /// clock so that every query issued for one request can share it.
    /// Whatever day the clock reports, the range is that quarter's range.
    pub fn current_period_info() -> (r: (i32, Period, (Date, Date)))
        ensures
            r.2 == r.1.spec_range(r.0),
    {
        let today = crate::clock::today_utc();
        Period::period_info(today)
    }

    /// The quarter range containing the clock's current day.
    pub fn current_period_date_range() -> (r: (Date, Date))
        ensures
            exists|p: Period, y: i32| r == #[trigger] p.spec_range(y),
    {
        let info = Period::current_period_info();
        proof {
            assert(info.2 == info.1.spec_range(info.0));
        }
        info.2
    }

    /// The quarter range containing the given date.
    pub fn period_date_range(today: Date) -> (r: (Date, Date))
        requires
            today.valid(),
        ensures
            r == period_of_month(today.month as int).spec_range(today.year),
    {
        Period::period_info(today).2
    }
}

/// Whether a date lies inside an inclusive date range.
pub open spec fn date_in_range(d: Date, range: (Date, Date)) -> bool {
    range.0.spec_le(d) && d.spec_le(range.1)
}

/// The quarter is always one of four values, its position in the year is
/// between 0 and 3, and within one year it never decreases as the month
/// grows.
pub proof fn lemma_period_monotonic(d1: Date, d2: Date)
    requires
        d1.valid(),
        d2.valid(),
        d1.year == d2.year,
        d1.month <= d2.month,
    ensures
        0 <= period_of_month(d1.month as int).ordinal() <= 3,
        period_of_month(d1.month as int).ordinal() <= period_of_month(d2.month as int).ordinal(),
{
}

/// The quarter range round-trips: a valid date lies in the range of quarter
/// `p` of year `year` exactly when its month belongs to `p` and its year is
/// `year`.  The Q4 range ends on December 31 of the same year, never rolling
/// into the next one.
pub proof fn lemma_date_range_round_trip(p: Period, year: i32, d: Date)
    requires
        d.valid(),
    ensures
        date_in_range(d, p.spec_range(year)) <==> (period_of_month(d.month as int) == p
            && d.year == year),
        p.spec_range(year).1.year == year,
        p == Period::Q4 ==> p.spec_range(year).1 == (Date { year, month: 12, day: 31 }),
{
}

} // verus!
