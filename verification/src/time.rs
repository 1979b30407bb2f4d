//! Instants in UTC and the clock, text parsing and formatting that the
//! `chrono` crate provides for them.
use vstd::prelude::*;

verus! {

/// An instant in UTC: seconds since the Unix epoch and a nanosecond part.
#[derive(Debug, Clone, Copy, PartialEq, Eq, Structural)]
pub struct Timestamp {
    pub secs: i64,
    pub nanos: u32,
}

/// A span of time.
#[derive(Debug, Clone, Copy, PartialEq, Eq, Structural)]
pub struct Duration {
    pub secs: u64,
    pub nanos: u32,
}

impl Duration {
    pub fn from_secs(secs: u64) -> (r: Self)
        ensures
            r.secs == secs,
            r.nanos == 0,
    {
        Duration { secs, nanos: 0 }
    }
}

/// The instant that `chrono::DateTime::parse_from_rfc3339` reads from a
/// text, converted to UTC, or `None` where it reports an error.
pub uninterp spec fn rfc3339_instant(text: Seq<char>) -> Option<(i64, u32)>;

/// The text that `chrono` formats for the UTC instant `(secs, nanos)` with a
/// `strftime` pattern, or `None` where the instant is out of its range.
pub uninterp spec fn utc_format_text(secs: i64, nanos: u32, pattern: Seq<char>) -> Option<
    Seq<char>,
>;

/// The text that `chrono::DateTime::to_rfc3339` gives for the UTC instant
/// `(secs, nanos)`, or `None` where `DateTime::from_timestamp` refuses the
/// instant.
pub uninterp spec fn rfc3339_text(secs: i64, nanos: u32) -> Option<Seq<char>>;

pub open spec fn instant_of(p: Option<(i64, u32)>) -> Option<Timestamp> {
    match p {
        Some(v) => Some(Timestamp { secs: v.0, nanos: v.1 }),
        None => None,
    }
}

/// Calls `chrono::Utc::now`; the current time, of which nothing is promised.
#[verifier::external_body]
pub(crate) fn utc_now() -> (r: Timestamp)
    ensures
        r.nanos < 2_000_000_000,
{
    let now = chrono::Utc::now();
    Timestamp { secs: now.timestamp(), nanos: now.timestamp_subsec_nanos() }
}

/// Calls `chrono::DateTime::parse_from_rfc3339` and converts the result to UTC.
#[verifier::external_body]
pub(crate) fn parse_rfc3339(text: &str) -> (r: Option<Timestamp>)
    ensures
        r == instant_of(rfc3339_instant(text@)),
{
    chrono::DateTime::parse_from_rfc3339(text).ok().map(
        |d| Timestamp { secs: d.timestamp(), nanos: d.timestamp_subsec_nanos() },
    )
}

/// Calls `chrono::DateTime::format` on the UTC instant `t`.
#[verifier::external_body]
pub(crate) fn format_utc(t: Timestamp, pattern: &str) -> (r: Option<String>)
    requires
        pattern@ == "%Y-%m-%d"@ || pattern@ == "%Y-%m-%dT%H:%M:%SZ"@,
    ensures
        match r {
            Some(s) => utc_format_text(t.secs, t.nanos, pattern@) == Some(s@),
            None => utc_format_text(t.secs, t.nanos, pattern@) is None,
        },
{
    chrono::DateTime::from_timestamp(t.secs, t.nanos).map(|d| d.format(pattern).to_string())
}

/// Calls `chrono::DateTime::from_timestamp` and `to_rfc3339` on the UTC
/// instant `t`; the contract only names the text.
#[verifier::external_body]
pub(crate) fn format_rfc3339(t: Timestamp) -> (r: Option<String>)
    ensures
        match r {
            Some(s) => rfc3339_text(t.secs, t.nanos) == Some(s@),
            None => rfc3339_text(t.secs, t.nanos) is None,
        },
{
    chrono::DateTime::from_timestamp(t.secs, t.nanos).map(|d| d.to_rfc3339())
}

/// The RFC 3339 text of an optional instant, as the API shows it.
pub open spec fn opt_rfc3339(t: Option<Timestamp>) -> Option<Seq<char>> {
    match t {
        Some(x) => rfc3339_text(x.secs, x.nanos),
        None => None,
    }
}

/// The RFC 3339 text of an optional instant; an instant that chrono cannot
/// represent has none.
pub fn rfc3339_of(t: Option<Timestamp>) -> (r: Option<String>)
    ensures
        match r {
            Some(s) => opt_rfc3339(t) == Some(s@),
            None => opt_rfc3339(t) is None,
        },
{
    match t {
        Some(x) => format_rfc3339(x),
        None => None,
    }
}

} // verus!
