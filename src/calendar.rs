use vstd::prelude::*;
use chrono::Datelike;
use num_traits::FromPrimitive;

verus! {

/// A calendar date (proleptic Gregorian), without a time of day.
#[derive(Clone, Copy, Debug, PartialEq, Eq, Structural)]
pub struct Date {
    pub year: i32,
    /// 1 to 12.
    pub month: u32,
    /// 1 to the length of the month.
    pub day: u32,
}

pub open spec fn is_leap_year(y: int) -> bool {
    (y % 4 == 0 && y % 100 != 0) || y % 400 == 0
}

pub open spec fn days_in_month(y: int, m: int) -> int {
    if m == 2 {
        if is_leap_year(y) { 29 } else { 28 }
    } else if m == 4 || m == 6 || m == 9 || m == 11 {
        30
    } else {
        31
    }
}

/// A (year, month, day) triple that names a real day.
pub open spec fn valid_ymd(ymd: (i32, u32, u32)) -> bool {
    1 <= ymd.1 <= 12 && 1 <= ymd.2 <= days_in_month(ymd.0 as int, ymd.1 as int)
}

impl Date {
    pub open spec fn ymd(self) -> (i32, u32, u32) {
        (self.year, self.month, self.day)
    }

    pub open spec fn valid(self) -> bool {
        valid_ymd(self.ymd())
    }

    pub open spec fn from_ymd(ymd: (i32, u32, u32)) -> Date {
        Date { year: ymd.0, month: ymd.1, day: ymd.2 }
    }
}

/// A (year, month, day) triple, where there is one, as a `Date`.
pub open spec fn as_date(o: Option<(i32, u32, u32)>) -> Option<Date> {
    match o {
        Some(ymd) => Some(Date::from_ymd(ymd)),
        None => None,
    }
}

/// Full English name of month `m` (1 = January).
pub open spec fn month_name(m: int) -> Seq<char> {
    if m == 1 {
        "January"@
    } else if m == 2 {
        "February"@
    } else if m == 3 {
        "March"@
    } else if m == 4 {
        "April"@
    } else if m == 5 {
        "May"@
    } else if m == 6 {
        "June"@
    } else if m == 7 {
        "July"@
    } else if m == 8 {
        "August"@
    } else if m == 9 {
        "September"@
    } else if m == 10 {
        "October"@
    } else if m == 11 {
        "November"@
    } else {
        "December"@
    }
}

/// Relies on chrono's `Month::from_u32` (num_traits' `FromPrimitive`), which
/// gives `Some` for 1 to 12, and `Month::name`, which gives the English name.
#[verifier::external_body]
pub fn month_name_text(m: u32) -> (r: &'static str)
    requires
        1 <= m <= 12,
    ensures
        r@ == month_name(m as int),
{
    chrono::Month::from_u32(m).unwrap().name()
}

/// The UTC calendar day of a count of seconds since 1970-01-01 00:00:00 UTC,
/// or `None` outside chrono's range of dates.
pub uninterp spec fn utc_day_of(secs: int) -> Option<(i32, u32, u32)>;

/// Relies on chrono's `DateTime::<Utc>::from_timestamp`: `None` when the day
/// is out of its range, else a `DateTime` whose `year`, `month` and `day`
/// (`Datelike`) name a valid date.
#[verifier::external_body]
fn utc_day_of_timestamp(secs: i64) -> (r: Option<(i32, u32, u32)>)
    ensures
        r == utc_day_of(secs as int),
        r matches Some(ymd) ==> valid_ymd(ymd),
{
    chrono::DateTime::from_timestamp(secs, 0).map(|t| (t.year(), t.month(), t.day()))
}

/// The date that chrono reads from `text` with the format
/// `%Y-%m-%d %H:%M:%S`, or `None` where the text does not match it.
pub uninterp spec fn parsed_day_of(text: Seq<char>) -> Option<(i32, u32, u32)>;

/// Relies on chrono's `NaiveDate::parse_from_str` with the format
/// `%Y-%m-%d %H:%M:%S`: an error where the text does not match, else a valid
/// `NaiveDate`, read through `Datelike`.
#[verifier::external_body]
fn parse_date_time_text(text: &str) -> (r: Option<(i32, u32, u32)>)
    ensures
        r == parsed_day_of(text@),
        r matches Some(ymd) ==> valid_ymd(ymd),
{
    chrono::NaiveDate::parse_from_str(text, "%Y-%m-%d %H:%M:%S")
        .ok()
        .map(|d| (d.year(), d.month(), d.day()))
}

/// The UTC date of a modification time given in whole seconds since the Unix
/// epoch (rounded towards minus infinity); `None` outside the range of dates.
pub fn date_of_timestamp(secs: i64) -> (r: Option<Date>)
    ensures
        r == as_date(utc_day_of(secs as int)),
        r matches Some(d) ==> d.valid(),
{
    match utc_day_of_timestamp(secs) {
        Some(ymd) => Some(Date { year: ymd.0, month: ymd.1, day: ymd.2 }),
        None => None,
    }
}

/// The date part of a `YYYY-MM-DD HH:MM:SS` timestamp; `None` where the text
/// does not have that form.
pub fn date_of_date_time_text(text: &str) -> (r: Option<Date>)
    ensures
        r == as_date(parsed_day_of(text@)),
        r matches Some(d) ==> d.valid(),
{
    match parse_date_time_text(text) {
        Some(ymd) => Some(Date { year: ymd.0, month: ymd.1, day: ymd.2 }),
        None => None,
    }
}

} // verus!
