//! Calendar dates and fiscal-year ends.

use vstd::prelude::*;

use crate::text::{digits, pad_zeros};

verus! {

/// A calendar date of the proleptic Gregorian calendar.
#[derive(Debug, Clone, Copy, PartialEq, Eq, Structural)]
pub struct Date {
    pub year: i32,
    pub month: u8,
    pub day: u8,
}

/// Leap years of the proleptic Gregorian calendar.
pub open spec fn is_leap_year(year: int) -> bool {
    year % 4 == 0 && (year % 100 != 0 || year % 400 == 0)
}

/// The number of days of month `month` (1 to 12) in `year`.
pub open spec fn month_length(month: int, year: int) -> int {
    if month == 2 {
        if is_leap_year(year) {
            29
        } else {
            28
        }
    } else if month == 4 || month == 6 || month == 9 || month == 11 {
        30
    } else {
        31
    }
}

/// A date that the calendar has, with a year of at most four digits.
pub open spec fn valid_date(year: int, month: int, day: int) -> bool {
    &&& -9999 <= year <= 9999
    &&& 1 <= month <= 12
    &&& 1 <= day <= month_length(month, year)
}

/// The ISO 8601 text of a date: `YYYY-MM-DD`, with a minus sign before a negative year.
pub open spec fn date_text(d: Date) -> Seq<char> {
    let y = d.year as int;
    let sign = if y < 0 { seq!['-'] } else { Seq::<char>::empty() };
    let ay = if y < 0 { (-y) as nat } else { y as nat };
    sign + pad_zeros(digits(ay), 4) + seq!['-'] + pad_zeros(digits(d.month as nat), 2) + seq!['-']
        + pad_zeros(digits(d.day as nat), 2)
}

/// Relies on `time::util::days_in_month`: the length of a month of the proleptic
/// Gregorian calendar.
#[verifier::external_body]
fn days_in_month(month: u8, year: i32) -> (r: u8)
    requires
        1 <= month <= 12,
    ensures
        r as int == month_length(month as int, year as int),
{
    time::util::days_in_month(time::Month::try_from(month).unwrap(), year)
}

/// Relies on `time::Date::from_calendar_date` and `time`'s `Display` for `Date`, which
/// writes the four-digit year (signed when negative), the month and the day, with two
/// digits each, joined by `-`.
#[verifier::external_body]
fn iso_text(d: Date) -> (r: String)
    requires
        valid_date(d.year as int, d.month as int, d.day as int),
    ensures
        r@ == date_text(d),
{
    let month = time::Month::try_from(d.month).unwrap();
    time::Date::from_calendar_date(d.year, month, d.day).unwrap().to_string()
}

impl Date {
    pub open spec fn wf(&self) -> bool {
        valid_date(self.year as int, self.month as int, self.day as int)
    }

    /// The date of `day` of `month` (1 to 12) in `year`, if the calendar has it.
    pub fn new(year: i32, month: u8, day: u8) -> (r: Option<Date>)
        ensures
            r is Some <==> valid_date(year as int, month as int, day as int),
            r matches Some(d) ==> d.year == year && d.month == month && d.day == day,
    {
        if year < -9999 || year > 9999 || month < 1 || month > 12 || day < 1 {
            return None;
        }
        if day > days_in_month(month, year) {
            return None;
        }
        Some(Date { year, month, day })
    }

    /// The ISO 8601 text of the date.
    pub fn to_text(&self) -> (r: String)
        requires
            self.wf(),
        ensures
            r@ == date_text(*self),
    {
        iso_text(*self)
    }
}

/// Month and day that specify the end of the fiscal year.
#[derive(Debug, Clone, Copy, PartialEq, Eq, Structural)]
pub struct FiscalYearEnd(pub u8, pub u8);

impl FiscalYearEnd {
    /// The end of the calendar year, December 31.
    pub fn end_of_year() -> (r: FiscalYearEnd)
        ensures
            r == FiscalYearEnd(12, 31),
    {
        FiscalYearEnd(12, 31)
    }

    /// Whether this is the end of the calendar year.
    pub fn is_end_of_year(&self) -> (r: bool)
        ensures
            r == (*self == FiscalYearEnd(12, 31)),
    {
        self.0 == 12 && self.1 == 31
    }

    /// Actual month of the year.
    pub fn month_of_year(&self) -> (r: u8)
        requires
            1 <= self.0,
        ensures
            r as int == (self.0 - 1) % 12 + 1,
    {
        (self.0 - 1) % 12 + 1
    }

    /// Whether this fiscal year end supports fiscal quarters: it is the last day of its
    /// month (in 2001, a common year).
    pub fn has_quarters(&self) -> (r: bool)
        requires
            1 <= self.0,
        ensures
            r == (self.1 as int == month_length((self.0 - 1) % 12 + 1, 2001)),
    {
        self.1 == days_in_month(self.month_of_year(), 2001)
    }

    /// Number of years that this is offset into the future.
    pub fn year_offset(&self) -> (r: u8)
        requires
            1 <= self.0,
        ensures
            r as int == (self.0 - 1) / 12,
    {
        (self.0 - 1) / 12
    }
}

} // verus!
