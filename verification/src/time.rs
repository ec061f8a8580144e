//! Dates and times of day as text.

use vstd::prelude::*;

use crate::model::Timestamp;

verus! {

/// What `chrono` reads as a date in `text` under `format`, written back as an ISO
/// date; `None` where the text is no such date.
pub uninterp spec fn read_date(text: Seq<char>, format: Seq<char>) -> Option<Seq<char>>;

/// Calls `chrono::NaiveDate::parse_from_str` and prints the date with `Display`,
/// which is ISO 8601. The outcome is a function of the two texts.
#[verifier::external_body]
fn parse_date_as(text: &str, format: &str) -> (date: Option<String>)
    ensures
        match date {
            Some(d) => read_date(text@, format@) == Some(d@),
            None => read_date(text@, format@) is None,
        },
{
    chrono::NaiveDate::parse_from_str(text, format).ok().map(|d| d.to_string())
}

/// The ISO date that a text holds: read as `YYYY-MM-DD`, else as `DD/MM/YYYY`.
pub open spec fn date_of(text: Seq<char>) -> Option<Seq<char>> {
    if read_date(text, "%Y-%m-%d"@) is Some {
        read_date(text, "%Y-%m-%d"@)
    } else {
        read_date(text, "%d/%m/%Y"@)
    }
}

/// The ISO date that a text holds.
pub fn find_date(text: &str) -> (date: Option<String>)
    ensures
        match date {
            Some(d) => date_of(text@) == Some(d@),
            None => date_of(text@) is None,
        },
{
    if let Some(date) = parse_date_as(text, "%Y-%m-%d") {
        return Some(date);
    }
    parse_date_as(text, "%d/%m/%Y")
}

/// The date in an ISO text.
pub fn read_iso_date(text: &str) -> (date: Option<String>)
    ensures
        match date {
            Some(d) => read_date(text@, "%Y-%m-%d"@) == Some(d@),
            None => read_date(text@, "%Y-%m-%d"@) is None,
        },
{
    parse_date_as(text, "%Y-%m-%d")
}

/// The number of days from the first day of the common era to the ISO date that
/// `chrono` reads in `text`; `None` where the text is no such date.
pub uninterp spec fn day_number(text: Seq<char>) -> Option<i32>;

/// Calls `chrono::NaiveDate::parse_from_str` with `%Y-%m-%d`, then
/// `chrono::Datelike::num_days_from_ce`. The number is a function of the text.
#[verifier::external_body]
pub(crate) fn day_of(text: &str) -> (day: Option<i32>)
    ensures
        day == day_number(text@),
{
    chrono::NaiveDate::parse_from_str(text, "%Y-%m-%d").ok().map(
        |d| chrono::Datelike::num_days_from_ce(&d),
    )
}

/// The first and last seconds of the years that RFC 3339 can write.
pub const FIRST_SECOND: i64 = -62167219200;

pub const LAST_SECOND: i64 = 253402300799;

/// A time that RFC 3339 can write.
pub open spec fn writable(t: Timestamp) -> bool {
    FIRST_SECOND <= t.seconds <= LAST_SECOND && t.nanos < 1_000_000_000
}

/// What `chrono` reads as a time in an RFC 3339 text, in UTC.
pub uninterp spec fn read_time(text: Seq<char>) -> Option<Timestamp>;

/// Calls `chrono::DateTime::parse_from_rfc3339` and converts to UTC. The outcome
/// is a function of the text.
#[verifier::external_body]
fn read_rfc3339(text: &str) -> (time: Option<Timestamp>)
    ensures
        time == read_time(text@),
{
    chrono::DateTime::parse_from_rfc3339(text).ok().map(|t| Timestamp {
        seconds: t.timestamp(),
        nanos: t.timestamp_subsec_nanos(),
    })
}

/// The time in an RFC 3339 text.
pub fn parse_datetime(text: &str) -> (time: Option<Timestamp>)
    ensures
        time == read_time(text@),
{
    read_rfc3339(text)
}

/// Calls `chrono::DateTime::to_rfc3339` on the time in UTC, which writes the
/// nanoseconds in full; reading the text gives the time back.
#[verifier::external_body]
fn write_time(time: Timestamp) -> (text: String)
    requires
        writable(time),
    ensures
        read_time(text@) == Some(time),
{
    chrono::DateTime::from_timestamp(time.seconds, time.nanos).map(
        |t| t.to_rfc3339(),
    ).unwrap_or_default()
}

/// The time as RFC 3339 text; `None` for times that have no such text. Reading
/// the text gives the time back.
pub fn datetime_text(time: Timestamp) -> (text: Option<String>)
    ensures
        text is Some <==> writable(time),
        text matches Some(t) ==> read_time(t@) == Some(time),
{
    if FIRST_SECOND <= time.seconds && time.seconds <= LAST_SECOND && time.nanos < 1_000_000_000 {
        Some(write_time(time))
    } else {
        None
    }
}

} // verus!
