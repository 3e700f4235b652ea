//! The boundary to chrono. Dates and instants are carried through the library
//! as Unix timestamps in seconds (UTC); what chrono computes from or into a
//! string is given a name here, and everything downstream is proved over
//! those names.

use vstd::prelude::*;

verus! {

/// The instant (seconds since the Unix epoch, midnight UTC of the named day)
/// that a calendar-date string of the form year-month-day denotes, or `None`
/// where the string is not of that form.
pub uninterp spec fn ymd_timestamp(s: Seq<char>) -> Option<i64>;

/// The instant that a full timestamp-with-offset string denotes, or `None`
/// where the string is not of that form.
pub uninterp spec fn rfc3339_timestamp(s: Seq<char>) -> Option<i64>;

/// The year-month-day rendering of an instant (empty for an instant outside
/// chrono's representable range).
pub uninterp spec fn ymd_format(t: i64) -> Seq<char>;

/// The year-month-day hour:minute rendering of an instant (empty for an
/// instant outside chrono's representable range).
pub uninterp spec fn ymd_hm_format(t: i64) -> Seq<char>;

/// Relies on chrono's `NaiveDate::parse_from_str` with the `%Y-%m-%d` format:
/// the result depends on the characters alone; the parsed day is taken at
/// midnight UTC and converted to a Unix timestamp.
#[verifier::external_body]
pub(crate) fn parse_ymd(s: &str) -> (r: Option<i64>)
    ensures
        r == ymd_timestamp(s@),
{
    chrono::NaiveDate::parse_from_str(s, "%Y-%m-%d")
        .ok()
        .and_then(|d| d.and_hms_opt(0, 0, 0))
        .map(|dt| dt.and_utc().timestamp())
}

/// Relies on chrono's `DateTime::parse_from_rfc3339`: the result depends on
/// the characters alone; the parsed instant is converted to a Unix timestamp.
#[verifier::external_body]
pub(crate) fn parse_rfc3339(s: &str) -> (r: Option<i64>)
    ensures
        r == rfc3339_timestamp(s@),
{
    chrono::DateTime::parse_from_rfc3339(s).ok().map(|dt| dt.timestamp())
}

/// Relies on chrono's `DateTime::<Utc>::from_timestamp` and its `%Y-%m-%d`
/// formatting: the rendering depends on the instant alone.
#[verifier::external_body]
pub(crate) fn format_ymd(t: i64) -> (r: String)
    ensures
        r@ == ymd_format(t),
{
    match chrono::DateTime::<chrono::Utc>::from_timestamp(t, 0) {
        Some(dt) => dt.format("%Y-%m-%d").to_string(),
        None => String::new(),
    }
}

/// Relies on chrono's `DateTime::<Utc>::from_timestamp` and its
/// `%Y-%m-%d %H:%M` formatting: the rendering depends on the instant alone.
#[verifier::external_body]
pub(crate) fn format_ymd_hm(t: i64) -> (r: String)
    ensures
        r@ == ymd_hm_format(t),
{
    match chrono::DateTime::<chrono::Utc>::from_timestamp(t, 0) {
        Some(dt) => dt.format("%Y-%m-%d %H:%M").to_string(),
        None => String::new(),
    }
}

} // verus!
