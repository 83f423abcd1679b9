//! The timestamps that are stored with prices, and the day in each.

use chrono::Datelike;
use chrono::TimeZone;
use vstd::prelude::*;
use crate::date::Date;

verus! {

/// The layout of a stored timestamp: a date, a time and milliseconds.
pub const FORMAT: &'static str = "%Y-%m-%d %H:%M:%S.%3f";

/// `chrono::ParseError`: why chrono could not read a text. The library
/// carries it through and never looks inside.
#[verifier::external_type_specification]
#[verifier::external_body]
pub struct ExParseError(chrono::ParseError);

/// The day that chrono reads out of the text `s` laid out as `format` says,
/// where it reads one.
pub uninterp spec fn parsed_day(s: Seq<char>, format: Seq<char>) -> Option<Date>;

/// `chrono::TimeZone::datetime_from_str` on `chrono::Utc`: reads `s` as a
/// date and time in UTC, laid out as `format` says. What it returns depends
/// on the two texts alone; of the date and time read, the day is handed on.
#[verifier::external_body]
#[allow(deprecated)]
pub(crate) fn parse_day(s: &str, format: &str) -> (r: Result<Date, chrono::ParseError>)
    ensures
        match r {
            Ok(d) => parsed_day(s@, format@) == Some(d),
            Err(_) => parsed_day(s@, format@) is None,
        },
{
    match chrono::Utc.datetime_from_str(s, format) {
        Ok(at) => Ok(Date { year: at.year(), month: at.month(), day: at.day() }),
        Err(e) => Err(e),
    }
}

/// Why a stored timestamp could not be read.
#[derive(Debug)]
pub struct TimestampError {
    /// The cause, as chrono reports it.
    pub cause: chrono::ParseError,
}

/// Reads the day out of a stored timestamp.
pub fn deserialize(s: &str) -> (r: Result<Date, TimestampError>)
    ensures
        match r {
            Ok(d) => parsed_day(s@, FORMAT@) == Some(d),
            Err(_) => parsed_day(s@, FORMAT@) is None,
        },
{
    match parse_day(s, FORMAT) {
        Ok(d) => Ok(d),
        Err(cause) => Err(TimestampError { cause }),
    }
}

} // verus!
