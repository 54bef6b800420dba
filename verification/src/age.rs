//! How long ago something happened, in words.
//!
//! A point in time is held as plain numbers. Reading a timestamp, taking the
//! span between two points and wording a span are done by `chrono` and
//! `chrono_humanize`; what they return is given a name here, and the rules
//! of this crate are stated over those names.

use chrono::{DateTime, TimeDelta, Utc};
use chrono_humanize::HumanTime;
use vstd::prelude::*;

verus! {

/// A point in time: whole seconds since 1970-01-01T00:00:00Z, and the
/// nanoseconds since the last whole second.
#[derive(Clone, Copy, Debug)]
pub struct Instant {
    pub seconds: i64,
    pub nanos: u32,
}

/// The point in time that a text denotes when it is read as an RFC 3339
/// timestamp, as seconds and nanoseconds; `None` for a text that is none.
pub uninterp spec fn rfc3339_instant(text: Seq<char>) -> Option<(i64, u32)>;

/// The whole seconds from the second point in time to the first, negative
/// when the first lies before the second; `None` when one of the two is no
/// point in time that the calendar holds: its seconds lie outside the range
/// of the calendar, or its nanoseconds are more than a second can have.
pub uninterp spec fn elapsed_seconds(
    seconds: i64,
    nanos: u32,
    since_seconds: i64,
    since_nanos: u32,
) -> Option<i64>;

/// The words for a span of whole seconds, such as `3 hours ago` for a
/// negative span and `in 3 hours` for a positive one; `None` for a span that
/// is too long to be held.
pub uninterp spec fn humanized(seconds: i64) -> Option<Seq<char>>;

/// The point in time that a text denotes, if it is an RFC 3339 timestamp.
pub open spec fn instant_of(text: Seq<char>) -> Option<Instant> {
    match rfc3339_instant(text) {
        Some((seconds, nanos)) => Some(Instant { seconds, nanos }),
        None => None,
    }
}

/// The words for the span from `now` to `at`; empty where there is no point
/// in time to start from, or where the span cannot be taken or worded.
pub open spec fn age_label(at: Option<Instant>, now: Instant) -> Seq<char> {
    match at {
        None => Seq::empty(),
        Some(at) => match elapsed_seconds(at.seconds, at.nanos, now.seconds, now.nanos) {
            None => Seq::empty(),
            Some(seconds) => match humanized(seconds) {
                None => Seq::empty(),
                Some(words) => words,
            },
        },
    }
}

/// The words for the span from `now` to the timestamp written in `text`;
/// empty for a text that is no RFC 3339 timestamp.
pub open spec fn updated_label_of(text: Seq<char>, now: Instant) -> Seq<char> {
    age_label(instant_of(text), now)
}

/// Calls `chrono::DateTime::parse_from_rfc3339` and hands out the point in
/// time as `timestamp()` and `timestamp_subsec_nanos()` give it.
///
/// Not proved: that the outcome depends on the text alone, which is what
/// naming it `rfc3339_instant` says.
#[verifier::external_body]
fn read_rfc3339(text: &str) -> (at: Option<Instant>)
    ensures
        match at {
            Some(at) => rfc3339_instant(text@) == Some((at.seconds, at.nanos)),
            None => rfc3339_instant(text@) is None,
        },
{
    match DateTime::parse_from_rfc3339(text) {
        Ok(at) => Some(Instant { seconds: at.timestamp(), nanos: at.timestamp_subsec_nanos() }),
        Err(_) => None,
    }
}

/// Calls `chrono::Utc::now` and hands out the point in time as `timestamp()`
/// and `timestamp_subsec_nanos()` give it. Nothing is promised of the
/// result: it is whatever the clock says.
#[verifier::external_body]
fn read_clock() -> (now: Instant) {
    let now = Utc::now();
    Instant { seconds: now.timestamp(), nanos: now.timestamp_subsec_nanos() }
}

/// Calls `chrono::DateTime::signed_duration_since` on the two points in
/// time, rebuilt by `DateTime::from_timestamp`, and hands out the whole
/// seconds of the result as `num_seconds()` gives them. `None` where
/// `from_timestamp` refuses one of the two.
///
/// Not proved: that the outcome depends on the four numbers alone, which is
/// what naming it `elapsed_seconds` says.
#[verifier::external_body]
fn span_between(at: Instant, since: Instant) -> (span: Option<i64>)
    ensures
        span == elapsed_seconds(at.seconds, at.nanos, since.seconds, since.nanos),
{
    let at = DateTime::from_timestamp(at.seconds, at.nanos)?;
    let since = DateTime::from_timestamp(since.seconds, since.nanos)?;
    Some(at.signed_duration_since(since).num_seconds())
}

/// Formats `chrono_humanize::HumanTime::from` of a span of whole seconds,
/// made by `TimeDelta::try_seconds`, with its `Display`. `None` where
/// `try_seconds` refuses the number. The plain `Display` form is the rough
/// one, which reads nothing of a span but its whole seconds.
///
/// Not proved: that the outcome depends on the number alone, which is what
/// naming it `humanized` says.
#[verifier::external_body]
fn word_span(seconds: i64) -> (words: Option<String>)
    ensures
        match words {
            Some(text) => humanized(seconds) == Some(text@),
            None => humanized(seconds) is None,
        },
{
    let span = TimeDelta::try_seconds(seconds)?;
    Some(HumanTime::from(span).to_string())
}

impl Instant {
    /// Reads an RFC 3339 timestamp such as `1996-12-19T16:39:57-08:00`.
    pub fn parse_rfc3339(text: &str) -> (at: Option<Instant>)
        ensures
            at == instant_of(text@),
    {
        read_rfc3339(text)
    }

    /// The current time by the clock of the machine.
    pub fn now() -> Instant {
        read_clock()
    }
}

/// Words a span of whole seconds; the text is empty for a span that is too
/// long to be held.
pub fn humanize_seconds(seconds: i64) -> (words: String)
    ensures
        words@ == match humanized(seconds) {
            Some(text) => text,
            None => Seq::empty(),
        },
{
    match word_span(seconds) {
        Some(text) => text,
        None => String::new(),
    }
}

/// Says how long before `now` the point in time `at` lies; the text is empty
/// where there is no such point.
pub fn label_since(at: Option<Instant>, now: Instant) -> (label: String)
    ensures
        label@ == age_label(at, now),
        at is None ==> label@.len() == 0,
{
    match at {
        None => String::new(),
        Some(at) => match span_between(at, now) {
            None => String::new(),
            Some(seconds) => humanize_seconds(seconds),
        },
    }
}

/// Says how long before `now` the timestamp written in `created_at` lies;
/// the text is empty where `created_at` is no RFC 3339 timestamp.
pub fn updated_label(created_at: &str, now: Instant) -> (label: String)
    ensures
        label@ == updated_label_of(created_at@, now),
        instant_of(created_at@) is None ==> label@.len() == 0,
{
    label_since(Instant::parse_rfc3339(created_at), now)
}

} // verus!
