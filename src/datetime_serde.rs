//! Text encoding of the points in time stored in a project record.
//!
//! A point in time is written `YYYY-MM-DDTHH:MM:SS`. On reading, the form
//! `YYYY-MM-DD HH:MM:SS` and the older date-only form `YYYY-MM-DD` (taken as
//! midnight) are accepted too.
use vstd::prelude::*;

verus! {

/// The form in which points in time are written.
pub const ISO_FORMAT: &'static str = "%Y-%m-%dT%H:%M:%S";

/// The same with a space between date and time.
pub const SPACED_FORMAT: &'static str = "%Y-%m-%d %H:%M:%S";

/// The date-only form of older records.
pub const DATE_FORMAT: &'static str = "%Y-%m-%d";

pub const SECONDS_PER_DAY: i64 = 86_400;

/// What chrono's `NaiveDateTime::parse_from_str` reads from text `s` in
/// format `fmt`, as seconds from 1970-01-01T00:00:00.
pub uninterp spec fn datetime_parsed(s: Seq<char>, fmt: Seq<char>) -> Option<i64>;

/// What chrono's `NaiveDate::parse_from_str` reads from text `s` in format
/// `fmt`, as days from 1970-01-01.
pub uninterp spec fn date_parsed(s: Seq<char>, fmt: Seq<char>) -> Option<i32>;

/// What chrono writes for the point `secs` seconds from
/// 1970-01-01T00:00:00 in format `fmt`; `None` outside chrono's range.
pub uninterp spec fn datetime_formatted(secs: i64, fmt: Seq<char>) -> Option<Seq<char>>;

/// Relies on chrono::NaiveDateTime::parse_from_str, read back as a Unix
/// timestamp: `None` when the text does not match the format.
#[verifier::external_body]
fn parse_datetime(s: &str, fmt: &str) -> (r: Option<i64>)
    ensures
        r == datetime_parsed(s@, fmt@),
{
    match chrono::NaiveDateTime::parse_from_str(s, fmt) {
        Ok(dt) => Some(dt.and_utc().timestamp()),
        Err(_) => None,
    }
}

/// Relies on chrono::NaiveDate::parse_from_str, read back as days from
/// 1970-01-01: `None` when the text does not match the format.
#[verifier::external_body]
fn parse_date(s: &str, fmt: &str) -> (r: Option<i32>)
    ensures
        r == date_parsed(s@, fmt@),
{
    match chrono::NaiveDate::parse_from_str(s, fmt) {
        Ok(d) => Some(d.to_epoch_days()),
        Err(_) => None,
    }
}

/// Relies on chrono::DateTime::from_timestamp, which yields `None` outside
/// chrono's range, and on formatting the point in a valid format.
#[verifier::external_body]
fn format_datetime(secs: i64, fmt: &str) -> (r: Option<String>)
    requires
        fmt@ == ISO_FORMAT@,
    ensures
        match r {
            Some(t) => datetime_formatted(secs, fmt@) == Some(t@),
            None => datetime_formatted(secs, fmt@).is_none(),
        },
{
    match chrono::DateTime::from_timestamp(secs, 0) {
        Some(dt) => Some(dt.naive_utc().format(fmt).to_string()),
        None => None,
    }
}

/// The point in time that a text denotes, given what each accepted form
/// reads from it: the first form that matches wins, and a bare date stands
/// for its midnight.
pub open spec fn first_decoded(full: Option<i64>, spaced: Option<i64>, date_only: Option<i32>) -> Option<i64> {
    match (full, spaced, date_only) {
        (Some(t), _, _) => Some(t),
        (None, Some(t), _) => Some(t),
        (None, None, Some(d)) => Some((d * SECONDS_PER_DAY) as i64),
        (None, None, None) => None,
    }
}

/// Picks the point in time from what each accepted form read from a text.
pub fn resolve_decoded(full: Option<i64>, spaced: Option<i64>, date_only: Option<i32>) -> (r: Option<i64>)
    ensures
        r == first_decoded(full, spaced, date_only),
{
    match (full, spaced, date_only) {
        (Some(t), _, _) => Some(t),
        (None, Some(t), _) => Some(t),
        (None, None, Some(d)) => Some(d as i64 * SECONDS_PER_DAY),
        (None, None, None) => None,
    }
}

/// A text that none of the accepted forms reads.
#[derive(Debug, Clone)]
pub struct DateTimeDecodeError {
    /// The offending text.
    pub input: String,
}

/// Writes a point in time in the form `YYYY-MM-DDTHH:MM:SS`; `None` when it
/// lies outside the calendar range that can be written.
pub fn serialize(dt: i64) -> (r: Option<String>)
    ensures
        match r {
            Some(t) => datetime_formatted(dt, ISO_FORMAT@) == Some(t@),
            None => datetime_formatted(dt, ISO_FORMAT@).is_none(),
        },
{
    format_datetime(dt, ISO_FORMAT)
}

/// Reads a point in time in any of the accepted forms; an unreadable text is
/// an error that carries it.
pub fn deserialize(s: &str) -> (r: Result<i64, DateTimeDecodeError>)
    ensures
        ({
            let d = first_decoded(
                datetime_parsed(s@, ISO_FORMAT@),
                datetime_parsed(s@, SPACED_FORMAT@),
                date_parsed(s@, DATE_FORMAT@),
            );
            match r {
                Ok(t) => d == Some(t),
                Err(e) => d.is_none() && e.input@ == s@,
            }
        }),
{
    let full = parse_datetime(s, ISO_FORMAT);
    let spaced = parse_datetime(s, SPACED_FORMAT);
    let date_only = parse_date(s, DATE_FORMAT);
    match resolve_decoded(full, spaced, date_only) {
        Some(t) => Ok(t),
        None => Err(DateTimeDecodeError { input: s.to_owned() }),
    }
}

} // verus!
