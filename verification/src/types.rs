//! Identifiers and calendar dates.
//!
//! Records are keyed by 128-bit random identifiers.  Dates are plain
//! year/month/day triples with a well-formedness predicate
//! ([`Date::wf`]), so that all month arithmetic used by the loan
//! schedule is ordinary verified integer arithmetic.
use vstd::prelude::*;

use chrono::Datelike;

verus! {

/// A record identifier: the 128 bits of a version-4 UUID.
pub type Id = u128;

/// Relies on `uuid::Uuid::new_v4` (via `Uuid::as_u128`): a freshly drawn
/// random identifier.  Nothing is promised of the value; stores detect
/// collisions and report them as conflicts.
#[verifier::external_body]
pub(crate) fn new_id() -> (r: Id) {
    uuid::Uuid::new_v4().as_u128()
}

/// Relies on chrono's `Utc::now` and `NaiveDate` (via `Datelike`): the
/// returned year, month and day always form a real calendar date, with
/// the year far below this library's year bound.  Requires a system
/// clock at or after the Unix epoch.
#[verifier::external_body]
pub(crate) fn system_today() -> (r: Date)
    ensures
        r.wf(),
{
    let today = chrono::Utc::now().date_naive();
    Date { year: today.year(), month: today.month() as u8, day: today.day() as u8 }
}

/// Whether `year` is a leap year in the proleptic Gregorian calendar.
pub open spec fn is_leap_year(year: int) -> bool {
    year % 4 == 0 && (year % 100 != 0 || year % 400 == 0)
}

/// Number of days in the given month of the given year.
pub open spec fn days_in_month(year: int, month: int) -> int {
    if month == 2 {
        if is_leap_year(year) {
            29
        } else {
            28
        }
    } else if month == 4 || month == 6 || month == 9 || month == 11 {
        30
    } else {
        31
    }
}

/// Largest year the ledger works with; far above any calendar source,
/// and small enough that month arithmetic never overflows an `i32`.
pub const MAX_YEAR: i32 = 1_000_000;

/// A calendar date.
#[derive(Clone, Copy, PartialEq, Eq, Structural, Debug, Hash)]
pub struct Date {
    pub year: i32,
    pub month: u8,
    pub day: u8,
}

/// Year of `d` after adding `n` months, days left alone.
pub open spec fn add_months_year(d: Date, n: int) -> int {
    d.year + (d.month - 1 + n) / 12
}

/// Month of `d` after adding `n` months, days left alone.
pub open spec fn add_months_month(d: Date, n: int) -> int {
    (d.month - 1 + n) % 12 + 1
}

/// Signed number of whole months from `a` to `b`, days ignored.
pub open spec fn months_between(a: Date, b: Date) -> int {
    (b.year - a.year) * 12 + (b.month - a.month)
}

/// The date `n` months after `d`, same day of the month.
pub open spec fn spec_add_months(d: Date, n: int) -> Date {
    Date {
        year: add_months_year(d, n) as i32,
        month: add_months_month(d, n) as u8,
        day: d.day,
    }
}

/// Lexicographic order on dates: `a` is on or before `b`.
pub open spec fn date_le(a: Date, b: Date) -> bool {
    if a.year != b.year {
        a.year < b.year
    } else if a.month != b.month {
        a.month < b.month
    } else {
        a.day <= b.day
    }
}

/// Strict version of [`date_le`].
pub open spec fn date_lt(a: Date, b: Date) -> bool {
    date_le(a, b) && a != b
}

impl Date {
    /// A well-formed date: a real day of a real month, in a year the
    /// ledger can do month arithmetic on.
    pub open spec fn wf(self) -> bool {
        &&& 0 <= self.year <= MAX_YEAR
        &&& 1 <= self.month <= 12
        &&& 1 <= self.day <= days_in_month(self.year as int, self.month as int)
    }

    /// The date of the given year, month and day.
    pub fn from_ymd(year: i32, month: u32, day: u32) -> (r: Date)
        requires
            0 <= year <= MAX_YEAR,
            1 <= month <= 12,
            1 <= day <= days_in_month(year as int, month as int),
        ensures
            r == (Date { year, month: month as u8, day: day as u8 }),
            r.wf(),
    {
        Date { year, month: month as u8, day: day as u8 }
    }

    /// Whether `self` is on or before `other`.
    pub fn le(&self, other: &Date) -> (r: bool)
        ensures
            r == date_le(*self, *other),
    {
        if self.year != other.year {
            self.year < other.year
        } else if self.month != other.month {
            self.month < other.month
        } else {
            self.day <= other.day
        }
    }

    /// Whether `self` is strictly before `other`.
    pub fn lt(&self, other: &Date) -> (r: bool)
        ensures
            r == date_lt(*self, *other),
    {
        let r = self.le(other)
            && !(self.year == other.year && self.month == other.month && self.day == other.day);
        r
    }

    /// The date is well formed, adding `n` months keeps the year in
    /// range, and its day exists in the target month.
    pub open spec fn can_add_months(self, n: int) -> bool {
        &&& self.wf()
        &&& 0 <= n
        &&& add_months_year(self, n) <= MAX_YEAR
        &&& self.day <= days_in_month(add_months_year(self, n), add_months_month(self, n))
    }

    /// The same day of the month, `num_months` months later.
    pub fn increment_date_by_months(&self, num_months: u16) -> (r: Date)
        requires
            self.can_add_months(num_months as int),
        ensures
            r == spec_add_months(*self, num_months as int),
            r.wf(),
    {
        let total: u32 = (self.month - 1) as u32 + num_months as u32;
        let year: i32 = self.year + (total / 12) as i32;
        let month: u8 = (total % 12) as u8 + 1;
        Date { year, month, day: self.day }
    }

    /// Number of days in the given month.
    pub fn days_in(year: i32, month: u8) -> (r: u8)
        requires
            0 <= year,
            1 <= month <= 12,
        ensures
            r as int == days_in_month(year as int, month as int),
    {
        if month == 2 {
            let leap = year % 4 == 0 && (year % 100 != 0 || year % 400 == 0);
            if leap {
                29
            } else {
                28
            }
        } else if month == 4 || month == 6 || month == 9 || month == 11 {
            30
        } else {
            31
        }
    }

    /// Whether the date is well formed.
    pub fn valid(&self) -> (r: bool)
        ensures
            r == self.wf(),
    {
        0 <= self.year && self.year <= MAX_YEAR && 1 <= self.month && self.month <= 12 && 1
            <= self.day && self.day <= Date::days_in(self.year, self.month)
    }

    /// Signed number of whole months from `self` to `other`, days
    /// ignored.
    pub fn months_until(&self, other: &Date) -> (r: i64)
        ensures
            r == months_between(*self, *other),
    {
        let years: i64 = (other.year as i64) - (self.year as i64);
        years * 12 + (other.month as i64) - (self.month as i64)
    }

    /// The same day of the month, `num_months` months later, or `None`
    /// when the result is no real date (the day does not exist in the
    /// target month, or the year leaves the supported range).
    pub fn checked_add_months(&self, num_months: u16) -> (r: Option<Date>)
        ensures
            match r {
                Some(d) => self.can_add_months(num_months as int) && d == spec_add_months(
                    *self,
                    num_months as int,
                ) && d.wf(),
                None => !self.can_add_months(num_months as int),
            },
    {
        if !self.valid() {
            return None;
        }
        let total: u32 = (self.month - 1) as u32 + num_months as u32;
        let year_i64: i64 = (self.year as i64) + (total / 12) as i64;
        if year_i64 > MAX_YEAR as i64 {
            return None;
        }
        let year: i32 = year_i64 as i32;
        let month: u8 = (total % 12) as u8 + 1;
        if self.day > Date::days_in(year, month) {
            return None;
        }
        Some(Date { year, month, day: self.day })
    }
}

} // verus!
