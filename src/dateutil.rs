//! The bounds of a time window, given as a date and a wall-clock time in the
//! machine's time zone.

use vstd::prelude::*;
use crate::timestamp::Timestamp;

verus! {

/// How a date and a wall-clock time are written: `2019-01-31 23:59:59.999999`.
pub const DATETIME_FORMAT: &'static str = "%Y-%m-%d %H:%M:%S%.f";

#[verifier::external_type_specification]
#[verifier::external_body]
pub struct ExNaiveDateTime(chrono::NaiveDateTime);

/// Whether chrono reads the text as a date and time written in the format.
pub uninterp spec fn wall_clock_parses(s: Seq<char>, fmt: Seq<char>) -> bool;

/// Relies on chrono's `NaiveDateTime::parse_from_str`: it reads a date and a
/// time without a zone; whether it succeeds depends on the two texts alone.
#[verifier::external_body]
fn parse_wall_clock(s: &str, fmt: &str) -> (r: Option<chrono::NaiveDateTime>)
    ensures
        r is Some <==> wall_clock_parses(s@, fmt@),
{
    chrono::NaiveDateTime::parse_from_str(s, fmt).ok()
}

/// Relies on chrono's `TimeZone::from_local_datetime` for `Local` and on
/// `LocalResult::single`: the instant that a wall-clock time names in the
/// machine's time zone, or `None` where the zone skips or repeats that time.
#[verifier::external_body]
fn local_instant(t: &chrono::NaiveDateTime) -> (r: Option<Timestamp>) {
    match chrono::TimeZone::from_local_datetime(&chrono::Local, t).single() {
        Some(d) => Some(Timestamp { secs: d.timestamp(), nanos: d.timestamp_subsec_nanos() }),
        None => None,
    }
}

/// Why a date and time could not be read.
#[derive(Debug, PartialEq, Eq, Structural)]
pub enum DateError {
    /// The text is not a date and time in `DATETIME_FORMAT`.
    InvalidFormat,
    /// The machine's time zone skips or repeats that wall-clock time.
    NotSingleLocalTime,
}

/// The instant that `date` and `time`, joined by a space and written in
/// `DATETIME_FORMAT`, name in the machine's time zone.
pub fn naive_str_to_utc(date: &str, time: &str) -> (r: Result<Timestamp, DateError>)
    ensures
        (r == Err::<Timestamp, DateError>(DateError::InvalidFormat)) <==> !wall_clock_parses(
            date@ + " "@ + time@,
            DATETIME_FORMAT@,
        ),
{
    let mut text = String::from_str(date);
    text.append(" ");
    text.append(time);
    match parse_wall_clock(text.as_str(), DATETIME_FORMAT) {
        None => Err(DateError::InvalidFormat),
        Some(wall) => match local_instant(&wall) {
            Some(t) => Ok(t),
            None => Err(DateError::NotSingleLocalTime),
        },
    }
}

} // verus!
