//! Calendar dates and the single step backward that the fallback search takes.

use vstd::prelude::*;

verus! {

/// A calendar date in the proleptic Gregorian calendar, years 1 through 9999.
#[derive(Clone, Copy, PartialEq, Eq, Structural, Debug, Hash)]
pub struct Date {
    pub year: u16,
    pub month: u8,
    pub day: u8,
}

pub open spec fn is_leap_year(y: int) -> bool {
    (y % 4 == 0 && y % 100 != 0) || y % 400 == 0
}

pub open spec fn days_in_month(y: int, m: int) -> int {
    if m == 2 {
        if is_leap_year(y) {
            29
        } else {
            28
        }
    } else if m == 4 || m == 6 || m == 9 || m == 11 {
        30
    } else {
        31
    }
}

/// A date is well formed when its fields name an actual calendar day.
pub open spec fn date_wf(d: Date) -> bool {
    &&& 1 <= d.year <= 9999
    &&& 1 <= d.month <= 12
    &&& 1 <= d.day <= days_in_month(d.year as int, d.month as int)
}

/// Strict calendar order: year first, then month, then day.
pub open spec fn date_lt(a: Date, b: Date) -> bool {
    ||| a.year < b.year
    ||| (a.year == b.year && a.month < b.month)
    ||| (a.year == b.year && a.month == b.month && a.day < b.day)
}

pub open spec fn date_le(a: Date, b: Date) -> bool {
    date_lt(a, b) || a == b
}

/// The earliest date this calendar represents.
pub open spec fn min_date() -> Date {
    Date { year: 1, month: 1, day: 1 }
}

/// The calendar day immediately before `d` (meaningful when `d` is well
/// formed and not the minimum date).
pub open spec fn pred_date(d: Date) -> Date {
    if d.day > 1 {
        Date { year: d.year, month: d.month, day: (d.day - 1) as u8 }
    } else if d.month > 1 {
        Date {
            year: d.year,
            month: (d.month - 1) as u8,
            day: days_in_month(d.year as int, d.month - 1) as u8,
        }
    } else {
        Date { year: (d.year - 1) as u16, month: 12, day: 31 }
    }
}

pub fn leap_year(y: u16) -> (r: bool)
    ensures
        r == is_leap_year(y as int),
{
    (y % 4 == 0 && y % 100 != 0) || y % 400 == 0
}

pub fn month_days(y: u16, m: u8) -> (r: u8)
    requires
        1 <= m <= 12,
    ensures
        r as int == days_in_month(y as int, m as int),
{
    if m == 2 {
        if leap_year(y) {
            29
        } else {
            28
        }
    } else if m == 4 || m == 6 || m == 9 || m == 11 {
        30
    } else {
        31
    }
}

impl Date {
    /// Builds a date, rejecting field values that name no calendar day.
    pub fn new(year: u16, month: u8, day: u8) -> (r: Option<Date>)
        ensures
            match r {
                Some(d) => d == (Date { year, month, day }) && date_wf(d),
                None => !date_wf(Date { year, month, day }),
            },
    {
        if 1 <= year && year <= 9999 && 1 <= month && month <= 12 && 1 <= day
            && day <= month_days(year, month) {
            Some(Date { year, month, day })
        } else {
            None
        }
    }

    /// Calendar order: true when `self` is on or before `other`.
    pub fn le(&self, other: &Date) -> (r: bool)
        ensures
            r == date_le(*self, *other),
    {
        self.year < other.year || (self.year == other.year && (self.month < other.month || (
        self.month == other.month && self.day <= other.day)))
    }

    /// The previous calendar day, or `None` at the calendar's lower bound.
    pub fn pred(&self) -> (r: Option<Date>)
        requires
            date_wf(*self),
        ensures
            r == if *self == min_date() {
                Option::<Date>::None
            } else {
                Option::<Date>::Some(pred_date(*self))
            },
    {
        if self.day > 1 {
            Some(Date { year: self.year, month: self.month, day: self.day - 1 })
        } else if self.month > 1 {
            Some(
                Date {
                    year: self.year,
                    month: self.month - 1,
                    day: month_days(self.year, self.month - 1),
                },
            )
        } else if self.year > 1 {
            Some(Date { year: self.year - 1, month: 12, day: 31 })
        } else {
            None
        }
    }
}

/// Stepping one day back stays well formed, goes strictly down, and lands on
/// the immediate predecessor: no well-formed date fits strictly between.
pub proof fn lemma_pred_date(d: Date)
    requires
        date_wf(d),
        d != min_date(),
    ensures
        date_wf(pred_date(d)),
        date_lt(pred_date(d), d),
        forall|e: Date| date_wf(e) && date_lt(e, d) ==> date_le(e, pred_date(d)),
{
    assert forall|e: Date| date_wf(e) && date_lt(e, d) implies date_le(e, pred_date(d)) by {
        let p = pred_date(d);
        if d.day > 1 {
            assert(date_le(e, p));
        } else if d.month > 1 {
            assert(e.day <= days_in_month(e.year as int, e.month as int));
            assert(date_le(e, p));
        } else {
            assert(e.day <= days_in_month(e.year as int, e.month as int));
            assert(days_in_month(e.year as int, e.month as int) <= 31);
            assert(date_le(e, p));
        }
    }
}

} // verus!
