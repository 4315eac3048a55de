//! Calendar dates as plain values, within the range of chrono's dates; text
//! is read into them through chrono.
use vstd::prelude::*;

use chrono::Datelike;

use crate::errors::{ApplicationError, ErrorKind};

verus! {

/// The earliest year that chrono's `NaiveDate` can hold.
pub const MIN_YEAR: i32 = -262143;

/// The latest year that chrono's `NaiveDate` can hold.
pub const MAX_YEAR: i32 = 262142;

/// The text layout of a date in the directory's input: `YYYY-MM-DD`.
pub const DATE_FORMAT: &'static str = "%Y-%m-%d";

/// Leap years of the proleptic Gregorian calendar.
pub open spec fn is_leap_year(y: int) -> bool {
    y % 4 == 0 && (y % 100 != 0 || y % 400 == 0)
}

pub open spec fn days_in_month(y: int, m: int) -> int {
    if m == 2 {
        if is_leap_year(y) {
            29
        } else {
            28
        }
    } else if m == 4 || m == 6 || m == 9 || m == 11 {
        30
    } else {
        31
    }
}

/// A day of the proleptic Gregorian calendar within chrono's range of years.
pub open spec fn is_calendar_date(y: int, m: int, d: int) -> bool {
    &&& MIN_YEAR <= y <= MAX_YEAR
    &&& 1 <= m <= 12
    &&& 1 <= d <= days_in_month(y, m)
}

/// The date that chrono's `NaiveDate::parse_from_str` reads from a text in a
/// format, as year, month and day; `None` where it reports an error.
pub uninterp spec fn chrono_parsed_date(s: Seq<char>, fmt: Seq<char>) -> Option<(i32, u32, u32)>;

proof fn lemma_leap_shift(y: int, u: int)
    requires
        u == y + 262400,
    ensures
        is_leap_year(y) == is_leap_year(u),
{
    assert(u % 4 == y % 4) by {
        vstd::arithmetic::div_mod::lemma_mod_multiples_vanish(65600, y, 4);
    }
    assert(u % 100 == y % 100) by {
        vstd::arithmetic::div_mod::lemma_mod_multiples_vanish(2624, y, 100);
    }
    assert(u % 400 == y % 400) by {
        vstd::arithmetic::div_mod::lemma_mod_multiples_vanish(656, y, 400);
    }
}

/// Whether a year, month and day name an existing calendar day in chrono's
/// range of years.
fn calendar_day_exists(year: i32, month: u32, day: u32) -> (r: bool)
    ensures
        r == is_calendar_date(year as int, month as int, day as int),
{
    if year < MIN_YEAR || year > MAX_YEAR || month < 1 || month > 12 || day < 1 {
        return false;
    }
    let shifted: u32 = (year as i64 + 262400) as u32;
    proof {
        lemma_leap_shift(year as int, shifted as int);
    }
    let leap = shifted % 4 == 0 && (shifted % 100 != 0 || shifted % 400 == 0);
    let last: u32 = if month == 2 {
        if leap {
            29
        } else {
            28
        }
    } else if month == 4 || month == 6 || month == 9 || month == 11 {
        30
    } else {
        31
    };
    day <= last
}

/// Relies on chrono's `NaiveDate::parse_from_str`, read back through
/// `Datelike::{year, month, day}`: the date a text spells in a format, which,
/// being a `NaiveDate`, is an existing calendar day.
#[verifier::external_body]
fn chrono_parse_date(s: &str, fmt: &str) -> (r: Option<(i32, u32, u32)>)
    ensures
        r == chrono_parsed_date(s@, fmt@),
        r matches Some((y, m, d)) ==> is_calendar_date(y as int, m as int, d as int),
{
    match chrono::NaiveDate::parse_from_str(s, fmt) {
        Ok(d) => Some((d.year(), d.month(), d.day())),
        Err(_) => None,
    }
}

/// A calendar date: year, month (1 to 12) and day of the month.
#[derive(Clone, Copy, Debug, PartialEq, Eq)]
pub struct Date {
    year: i32,
    month: u32,
    day: u32,
}

impl View for Date {
    type V = (i32, u32, u32);

    closed spec fn view(&self) -> (i32, u32, u32) {
        (self.year, self.month, self.day)
    }
}

impl Date {
    #[verifier::type_invariant]
    closed spec fn inv(self) -> bool {
        is_calendar_date(self.year as int, self.month as int, self.day as int)
    }

    /// The date of a year, month and day; `None` where no such day exists.
    pub fn from_ymd(year: i32, month: u32, day: u32) -> (r: Option<Date>)
        ensures
            r is Some <==> is_calendar_date(year as int, month as int, day as int),
            r matches Some(dt) ==> dt@ == (year, month, day),
    {
        if calendar_day_exists(year, month, day) {
            Some(Date { year, month, day })
        } else {
            None
        }
    }

    /// Reads a date written `YYYY-MM-DD`, as chrono reads it; any other text
    /// is an `InvalidDate` error.
    pub fn parse(s: &str) -> (r: Result<Date, ApplicationError>)
        ensures
            match chrono_parsed_date(s@, DATE_FORMAT@) {
                Some(ymd) => r matches Ok(dt) && dt@ == ymd,
                None => r == Err::<Date, ApplicationError>(ApplicationError(ErrorKind::InvalidDate)),
            },
    {
        match chrono_parse_date(s, DATE_FORMAT) {
            Some((year, month, day)) => Ok(Date { year, month, day }),
            None => Err(ApplicationError(ErrorKind::InvalidDate)),
        }
    }

    pub fn year(&self) -> (r: i32)
        ensures
            r == self@.0,
            MIN_YEAR <= r <= MAX_YEAR,
    {
        proof { use_type_invariant(self); }
        self.year
    }

    pub fn month(&self) -> (r: u32)
        ensures
            r == self@.1,
            1 <= r <= 12,
    {
        proof { use_type_invariant(self); }
        self.month
    }

    pub fn day(&self) -> (r: u32)
        ensures
            r == self@.2,
            1 <= r <= days_in_month(self@.0 as int, self@.1 as int),
    {
        proof { use_type_invariant(self); }
        self.day
    }
}

} // verus!
