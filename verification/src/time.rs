//! Timestamp parsing for the listing filters.

use vstd::prelude::*;

verus! {

/// The epoch second an RFC 3339 timestamp string denotes, if it is valid.
/// It is a function of the characters alone.
pub uninterp spec fn rfc3339_epoch(s: Seq<char>) -> Option<i64>;

/// Relies on chrono's `DateTime::parse_from_rfc3339`: whether a string is
/// a valid RFC 3339 timestamp, and which instant it denotes, depend on the
/// characters alone; the instant is reported as its epoch second.
#[verifier::external_body]
pub fn parse_rfc3339_epoch(s: &str) -> (r: Option<i64>)
    ensures
        r == rfc3339_epoch(s@),
{
    match chrono::DateTime::parse_from_rfc3339(s) {
        Ok(dt) => Some(dt.timestamp()),
        Err(_) => None,
    }
}

} // verus!
