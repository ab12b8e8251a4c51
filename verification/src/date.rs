//! Calendar dates of the proleptic Gregorian calendar.

use vstd::prelude::*;

verus! {

/// Whether `year` has a 29th of February.
pub open spec fn leap_year(year: int) -> bool {
    year % 4 == 0 && (year % 100 != 0 || year % 400 == 0)
}

/// The number of days of `month` in `year`; `0` where `month` is no month.
pub open spec fn month_length(year: int, month: int) -> int {
    if month == 2 {
        if leap_year(year) { 29 } else { 28 }
    } else if month == 4 || month == 6 || month == 9 || month == 11 {
        30
    } else if 1 <= month <= 12 {
        31
    } else {
        0
    }
}

/// Whether the calendar has a day `day` of `month` in `year`.
pub open spec fn calendar_date(year: int, month: int, day: int) -> bool {
    1 <= month <= 12 && 1 <= day <= month_length(year, month)
}

/// Whether `year` has a 29th of February.
pub fn is_leap_year(year: i32) -> (leap: bool)
    ensures
        leap == leap_year(year as int),
{
    let y: i64 = if year < 0 { 0 - (year as i64) } else { year as i64 };
    assert((year as int) % 4 == 0 <==> (y as int) % 4 == 0) by {
        if year < 0 {
            assert(y as int == 0 - year as int);
            assert((0 - (year as int)) % 4 == 0 <==> (year as int) % 4 == 0) by (nonlinear_arith);
        }
    }
    assert((year as int) % 100 == 0 <==> (y as int) % 100 == 0) by {
        if year < 0 {
            assert((0 - (year as int)) % 100 == 0 <==> (year as int) % 100 == 0)
                by (nonlinear_arith);
        }
    }
    assert((year as int) % 400 == 0 <==> (y as int) % 400 == 0) by {
        if year < 0 {
            assert((0 - (year as int)) % 400 == 0 <==> (year as int) % 400 == 0)
                by (nonlinear_arith);
        }
    }
    y % 4 == 0 && (y % 100 != 0 || y % 400 == 0)
}

/// The number of days of `month` in `year`; `0` where `month` is no month.
pub fn days_in_month(year: i32, month: u32) -> (days: u32)
    ensures
        days as int == month_length(year as int, month as int),
{
    if month == 2 {
        if is_leap_year(year) { 29 } else { 28 }
    } else if month == 4 || month == 6 || month == 9 || month == 11 {
        30
    } else if 1 <= month && month <= 12 {
        31
    } else {
        0
    }
}

/// The date made of the given year, month and day. It says something only
/// of parts that the calendar has, with a year that 32 bits hold.
pub closed spec fn date_of(year: int, month: int, day: int) -> Date {
    Date { year: year as i32, month: month as u32, day: day as u32 }
}

/// The date made of a year, a month and a day of the calendar has these
/// parts, and is on the calendar.
pub proof fn lemma_date_of_parts(year: int, month: int, day: int)
    requires
        i32::MIN <= year <= i32::MAX,
        calendar_date(year, month, day),
    ensures
        date_of(year, month, day).wf(),
        date_of(year, month, day).spec_year() == year,
        date_of(year, month, day).spec_month() == month,
        date_of(year, month, day).spec_day() == day,
{
}

/// A day of the calendar.
#[derive(Clone, Copy, Debug, PartialEq, Eq, Structural)]
pub struct Date {
    year: i32,
    month: u32,
    day: u32,
}

impl Date {
    /// The year; years before the year 1 are zero and negative.
    pub closed spec fn spec_year(self) -> int {
        self.year as int
    }

    /// The month of the year, from 1.
    pub closed spec fn spec_month(self) -> int {
        self.month as int
    }

    /// The day of the month, from 1.
    pub closed spec fn spec_day(self) -> int {
        self.day as int
    }

    /// The value names a day that the calendar has. Every `Date` that the
    /// program holds does.
    #[verifier::type_invariant]
    pub open spec fn wf(self) -> bool {
        calendar_date(self.spec_year(), self.spec_month(), self.spec_day())
    }

    /// A number that grows with the calendar: of two well-formed dates the
    /// earlier one has the smaller rank, and equal ranks mean the same day.
    /// It counts no days.
    pub open spec fn rank(self) -> int {
        (self.spec_year() * 12 + (self.spec_month() - 1)) * 31 + (self.spec_day() - 1)
    }

    /// The date of the given year, month and day, where the calendar has it.
    pub fn new(year: i32, month: u32, day: u32) -> (date: Option<Date>)
        ensures
            date.is_some() == calendar_date(year as int, month as int, day as int),
            date matches Some(d) ==> d == date_of(year as int, month as int, day as int) && d.wf()
                && d.spec_year() == year && d.spec_month() == month && d.spec_day() == day,
    {
        if 1 <= month && month <= 12 && 1 <= day && day <= days_in_month(year, month) {
            Some(Date { year, month, day })
        } else {
            None
        }
    }

    /// The year.
    pub fn year(&self) -> (year: i32)
        ensures
            year as int == self.spec_year(),
    {
        self.year
    }

    /// The month of the year, from 1.
    pub fn month(&self) -> (month: u32)
        ensures
            month as int == self.spec_month(),
    {
        self.month
    }

    /// The day of the month, from 1.
    pub fn day(&self) -> (day: u32)
        ensures
            day as int == self.spec_day(),
    {
        self.day
    }

    /// Whether this day comes before `other` in the calendar.
    pub fn is_before(&self, other: &Date) -> (before: bool)
        ensures
            before == (self.rank() < other.rank()),
    {
        proof {
            use_type_invariant(self);
            use_type_invariant(other);
        }
        self.year < other.year || (self.year == other.year && (self.month < other.month || (
        self.month == other.month && self.day < other.day)))
    }
}

/// The rank orders dates as the calendar does: by year, then month, then day.
pub proof fn lemma_rank_orders_by_calendar(a: Date, b: Date)
    requires
        a.wf(),
        b.wf(),
    ensures
        a.rank() < b.rank() <==> (a.spec_year() < b.spec_year() || (a.spec_year() == b.spec_year()
            && (a.spec_month() < b.spec_month() || (a.spec_month() == b.spec_month()
            && a.spec_day() < b.spec_day())))),
        a.rank() == b.rank() <==> a == b,
{
}

} // verus!
