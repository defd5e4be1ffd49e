//! Calendar timestamps and the export's date format.
use vstd::prelude::*;
use chrono::{Datelike, Timelike};

verus! {

/// A calendar date and time of day, to the second, without a time zone.
#[derive(Debug, Clone, Copy, PartialEq, Eq, Structural)]
pub struct Timestamp {
    pub year: i32,
    pub month: u32,
    pub day: u32,
    pub hour: u32,
    pub minute: u32,
    pub second: u32,
}

/// The export's date format: `Tuesday, March 5, 2024 7:42:10 PM`.
pub const DATE_FORMAT: &'static str = "%A, %B %-e, %Y %-l:%M:%S %p";

/// What chrono's strict parse of `text` in `format` gives: year, month, day,
/// hour, minute and second, or nothing when `text` does not follow `format`.
pub uninterp spec fn datetime_of(text: Seq<char>, format: Seq<char>) -> Option<(i32, u32, u32, u32, u32, u32)>;

pub open spec fn timestamp_from(t: Option<(i32, u32, u32, u32, u32, u32)>) -> Option<Timestamp> {
    match t {
        Some((year, month, day, hour, minute, second)) => Some(
            Timestamp { year, month, day, hour, minute, second },
        ),
        None => None,
    }
}

/// The timestamp that `text` writes in the export's date format.
pub open spec fn timestamp_of(text: Seq<char>) -> Option<Timestamp> {
    timestamp_from(datetime_of(text, DATE_FORMAT@))
}

/// Relies on chrono's `NaiveDateTime::parse_from_str`, which parses `text`
/// strictly against `format`, and on its calendar getters.
#[verifier::external_body]
fn parse_date_time(text: &str, format: &str) -> (r: Option<Timestamp>)
    ensures
        r == timestamp_from(datetime_of(text@, format@)),
{
    match chrono::NaiveDateTime::parse_from_str(text, format) {
        Ok(d) => Some(Timestamp {
            year: d.year(),
            month: d.month(),
            day: d.day(),
            hour: d.hour(),
            minute: d.minute(),
            second: d.second(),
        }),
        Err(_) => None,
    }
}

/// Parses a date written in the export's format.
pub fn parse_timestamp(text: &str) -> (r: Option<Timestamp>)
    ensures
        r == timestamp_of(text@),
{
    parse_date_time(text, DATE_FORMAT)
}

} // verus!
