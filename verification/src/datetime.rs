//! Datetime text and timestamps.
//!
//! A value keeps a datetime as the text it was given. A binary document
//! keeps a timestamp: milliseconds since 1970-01-01 00:00:00 UTC. The
//! calendar stands between the two.
use chrono::{DateTime, Utc};
use vstd::prelude::*;

verus! {

/// The timestamp that `chrono` reads from a text with
/// `DateTime::<Utc>::from_str`, in milliseconds; `None` where it rejects
/// the text.
pub uninterp spec fn datetime_parsed(text: Seq<char>) -> Option<i64>;

/// The text that `chrono` displays for the `DateTime<Utc>` at a timestamp
/// in milliseconds; `None` where its calendar does not reach that far.
pub uninterp spec fn datetime_rendered(millis: i64) -> Option<Seq<char>>;

/// Parses a datetime with `DateTime::<Utc>::from_str` and takes its
/// `timestamp_millis`.
#[verifier::external_body]
pub(crate) fn parse_datetime(text: &str) -> (r: Option<i64>)
    ensures
        r == datetime_parsed(text@),
{
    match text.parse::<DateTime<Utc>>() {
        Ok(moment) => Some(moment.timestamp_millis()),
        Err(_) => None,
    }
}

/// Builds the moment with `DateTime::<Utc>::from_timestamp_millis` and
/// writes it out with its `Display`.
#[verifier::external_body]
pub(crate) fn render_datetime(millis: i64) -> (r: Option<String>)
    ensures
        match r {
            Some(text) => datetime_rendered(millis) == Some(text@),
            None => datetime_rendered(millis).is_none(),
        },
{
    match DateTime::<Utc>::from_timestamp_millis(millis) {
        Some(moment) => Some(moment.to_string()),
        None => None,
    }
}

} // verus!
