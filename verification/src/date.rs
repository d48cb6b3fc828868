use vstd::prelude::*;

verus! {

/// Lowest day number a calendar date may carry. Day numbers count days of the
/// proleptic Gregorian calendar, with January 1 of year 1 as day 1, so this
/// covers every date within roughly 270,000 years around the common era --
/// far beyond what any date library in use represents.
pub const DAY_MIN: i64 = -100_000_000;

/// Highest day number a calendar date may carry.
pub const DAY_MAX: i64 = 100_000_000;

/// A day number denotes a calendar date within the supported range.
pub open spec fn valid_day(day: int) -> bool {
    DAY_MIN as int <= day <= DAY_MAX as int
}

/// A calendar date, stored as its day number in the proleptic Gregorian
/// calendar: January 1 of year 1 is day 1, and consecutive dates differ by 1.
/// All interval arithmetic on visits is plain integer arithmetic on this
/// representation.
#[derive(Clone, Copy, Debug, PartialEq, Eq, Structural)]
pub struct Date {
    pub day: i64,
}

pub open spec fn spec_is_leap_year(y: int) -> bool {
    (y % 4 == 0 && y % 100 != 0) || y % 400 == 0
}

pub open spec fn spec_days_in_month(y: int, m: int) -> int {
    if m == 2 {
        if spec_is_leap_year(y) {
            29
        } else {
            28
        }
    } else if m == 4 || m == 6 || m == 9 || m == 11 {
        30
    } else {
        31
    }
}

/// A year, month and day name a real calendar date with a four-digit year,
/// the `YYYY-MM-DD` surface form the application accepts.
pub open spec fn spec_ymd_valid(y: int, m: int, d: int) -> bool {
    &&& 1 <= y <= 9999
    &&& 1 <= m <= 12
    &&& 1 <= d <= spec_days_in_month(y, m)
}

/// The day number of the calendar date `y`-`m`-`d`: a shifted-era rendering of
/// the Gregorian leap rule, counting complete 400-year eras and the day of a
/// March-anchored year within the era.
pub open spec fn spec_day_number(y: int, m: int, d: int) -> int {
    let yy = if m <= 2 {
        y - 1
    } else {
        y
    };
    let era = yy / 400;
    let yoe = yy - era * 400;
    let mp = if m > 2 {
        m - 3
    } else {
        m + 9
    };
    let doy = (153 * mp + 2) / 5 + d - 1;
    let doe = yoe * 365 + yoe / 4 - yoe / 100 + doy;
    era * 146097 + doe - 305
}

impl Date {
    /// A date is well formed when its day number lies in the supported range.
    pub open spec fn wf(self) -> bool {
        valid_day(self.day as int)
    }

    pub fn from_day(day: i64) -> (r: Date)
        requires
            valid_day(day as int),
        ensures
            r.day == day,
            r.wf(),
    {
        Date { day }
    }

    /// Builds the date named by a year, month and day of month.
    pub fn from_ymd(y: i64, m: i64, d: i64) -> (r: Date)
        requires
            spec_ymd_valid(y as int, m as int, d as int),
        ensures
            r.day == spec_day_number(y as int, m as int, d as int),
            r.wf(),
    {
        let yy: u64 = if m <= 2 {
            (y - 1) as u64
        } else {
            y as u64
        };
        let era: u64 = yy / 400;
        let yoe: u64 = yy - era * 400;
        let mp: u64 = if m > 2 {
            (m - 3) as u64
        } else {
            (m + 9) as u64
        };
        let doy: u64 = (153 * mp + 2) / 5 + (d as u64) - 1;
        let doe: u64 = yoe * 365 + yoe / 4 - yoe / 100 + doy;
        let day: i64 = (era as i64) * 146097 + (doe as i64) - 305;
        Date { day }
    }
}

/// True exactly for leap years of the Gregorian calendar.
pub fn is_leap_year(y: i64) -> (r: bool)
    requires
        1 <= y,
    ensures
        r == spec_is_leap_year(y as int),
{
    (y % 4 == 0 && y % 100 != 0) || y % 400 == 0
}

/// The number of days in month `m` of year `y`.
pub fn days_in_month(y: i64, m: i64) -> (r: i64)
    requires
        1 <= y,
        1 <= m <= 12,
    ensures
        r == spec_days_in_month(y as int, m as int),
{
    if m == 2 {
        if is_leap_year(y) {
            29
        } else {
            28
        }
    } else if m == 4 || m == 6 || m == 9 || m == 11 {
        30
    } else {
        31
    }
}

/// True exactly when `y`-`m`-`d` names a real calendar date that
/// `Date::from_ymd` accepts.
pub fn ymd_valid(y: i64, m: i64, d: i64) -> (r: bool)
    ensures
        r == spec_ymd_valid(y as int, m as int, d as int),
{
    1 <= y && y <= 9999 && 1 <= m && m <= 12 && 1 <= d && d <= days_in_month(y, m)
}

} // verus!
