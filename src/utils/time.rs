use vstd::prelude::*;
use crate::text::{decimal, decimal_text};

verus! {

/// An instant, in whole seconds since 1970-01-01 00:00:00 UTC.
#[derive(Clone, Copy, Debug, PartialEq, Eq, Structural)]
pub struct Timestamp {
    pub seconds: i64,
}

/// The seconds of an optional instant.
pub open spec fn seconds_of(t: Option<Timestamp>) -> Option<int> {
    match t {
        Some(t) => Some(t.seconds as int),
        None => None,
    }
}

/// The layout of a timestamp in a log line: `YYYY-MM-DD HH:MM:SS`.
pub const TIMESTAMP_FORMAT: &'static str = "%Y-%m-%d %H:%M:%S";

/// The instant that chrono reads from `text` with the strftime-style `format`, taken as UTC,
/// in seconds since the epoch; `None` where chrono rejects the text.
pub uninterp spec fn datetime_seconds(text: Seq<char>, format: Seq<char>) -> Option<int>;

/// Relies on chrono's `NaiveDateTime::parse_from_str`, read as UTC (`and_utc().timestamp()`):
/// the instant that `text` spells in `format`, or none.
#[verifier::external_body]
pub(crate) fn parse_timestamp(text: &str, format: &str) -> (r: Option<Timestamp>)
    ensures
        seconds_of(r) == datetime_seconds(text@, format@),
{
    match chrono::NaiveDateTime::parse_from_str(text, format) {
        Ok(t) => Some(Timestamp { seconds: t.and_utc().timestamp() }),
        Err(_) => None,
    }
}

/// A number of seconds as text: `N seconds` under a minute, `Mm Ss` under an hour, and
/// `Hh Mm Ss` from an hour on.
pub open spec fn duration_text(seconds: int) -> Seq<char> {
    if seconds < 60 {
        decimal(seconds) + " seconds"@
    } else {
        let minutes = seconds / 60;
        let rest = seconds % 60;
        if minutes < 60 {
            decimal(minutes) + "m "@ + decimal(rest) + "s"@
        } else {
            decimal(minutes / 60) + "h "@ + decimal(minutes % 60) + "m "@ + decimal(rest) + "s"@
        }
    }
}

/// Writes a duration for people to read.
pub fn format_duration(seconds: i64) -> (r: String)
    ensures
        r@ == duration_text(seconds as int),
{
    if seconds < 60 {
        return decimal_text(seconds as i128).concat(" seconds");
    }
    let minutes = seconds / 60;
    let rest = seconds % 60;
    if minutes < 60 {
        return decimal_text(minutes as i128).concat("m ").concat(decimal_text(rest as i128).as_str()).concat("s");
    }
    let hours = minutes / 60;
    let rest_minutes = minutes % 60;
    decimal_text(hours as i128).concat("h ").concat(decimal_text(rest_minutes as i128).as_str()).concat(
        "m ",
    ).concat(decimal_text(rest as i128).as_str()).concat("s")
}

/// The time from `start` to `end`, written for people to read.
pub fn time_difference(start: Timestamp, end: Timestamp) -> (r: String)
    requires
        i64::MIN <= end.seconds - start.seconds <= i64::MAX,
    ensures
        r@ == duration_text(end.seconds - start.seconds),
{
    format_duration(end.seconds - start.seconds)
}

} // verus!
