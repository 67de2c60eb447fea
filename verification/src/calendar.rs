//! Calendar days. A day is its number in the proleptic Gregorian calendar,
//! January 1 of year 1 being day 1, the numbering that chrono's
//! `Datelike::num_days_from_ce` uses; chrono does the calendar work.
use chrono::{Datelike, Local, NaiveDate};
use vstd::prelude::*;

verus! {

/// The first day number that chrono's `NaiveDate` can hold (January 1 of year -262143).
pub const FIRST_DAY: i32 = -95_746_129;

/// The last day number that chrono's `NaiveDate` can hold (December 31 of year 262142).
pub const LAST_DAY: i32 = 95_745_399;

pub open spec fn is_calendar_day(day: int) -> bool {
    FIRST_DAY <= day <= LAST_DAY
}

/// The `dd/mm` text that chrono writes for the day with this number.
pub uninterp spec fn day_month_text(day: int) -> Seq<char>;

/// The weekday of a day, Monday being 0: day 1 was a Monday.
pub open spec fn weekday_from_monday(day: int) -> int {
    (day - 1) % 7
}

/// `NaiveDate::from_num_days_from_ce_opt` and `format("%d/%m")`: the day of
/// the month and the month, two digits each, with `/` between them. Which
/// digits they are is left to the name `day_month_text`.
#[verifier::external_body]
pub(crate) fn format_day_month(day: i32) -> (r: String)
    requires
        is_calendar_day(day as int),
    ensures
        r@ == day_month_text(day as int),
        r@.len() == 5,
        r@[2] == '/',
{
    NaiveDate::from_num_days_from_ce_opt(day).unwrap().format("%d/%m").to_string()
}

/// `NaiveDate::parse_from_str(text, "%d/%m")`. The format has a day and a
/// month but no year, and chrono's `Parsed::to_naive_date` answers
/// `NOT_ENOUGH` whenever no year is given, so no text parses.
#[verifier::external_body]
pub(crate) fn parse_day_month(text: &str) -> (r: Option<i32>)
    ensures
        r is None,
{
    match NaiveDate::parse_from_str(text, "%d/%m") {
        Ok(d) => Some(d.num_days_from_ce()),
        Err(_) => None,
    }
}

/// `Local::now().date_naive()`: the machine's local date, as a day number.
/// Which day it is depends on the clock; it is always one that `NaiveDate` holds.
#[verifier::external_body]
pub(crate) fn local_today() -> (day: i32)
    ensures
        is_calendar_day(day as int),
{
    Local::now().date_naive().num_days_from_ce()
}

/// `weekday().num_days_from_monday()` of the day with this number.
#[verifier::external_body]
pub(crate) fn days_from_monday(day: i32) -> (r: u32)
    requires
        is_calendar_day(day as int),
    ensures
        r as int == weekday_from_monday(day as int),
{
    NaiveDate::from_num_days_from_ce_opt(day).unwrap().weekday().num_days_from_monday()
}

} // verus!
