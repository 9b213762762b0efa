//! The points where the library meets the clock and RFC 3339 timestamps,
//! through chrono.

use vstd::prelude::*;
use chrono::{DateTime, Utc};

verus! {

/// Whether `DateTime::parse_from_rfc3339` accepts the text.
pub uninterp spec fn rfc3339_accepts(text: Seq<char>) -> bool;

/// Calls `DateTime::parse_from_rfc3339` on `text` and, when it parses,
/// `Utc::now`, `DateTime::signed_duration_since` and `TimeDelta::num_seconds`:
/// the whole seconds that have passed since that instant (negative when it
/// lies ahead). The contract claims only that a number comes back exactly when
/// the text parses; the number itself rests on the clock and is left unsaid.
/// `Utc::now` panics on a clock set before 1970.
#[verifier::external_body]
pub(crate) fn seconds_since_rfc3339(text: &str) -> (r: Option<i64>)
    ensures
        r is Some <==> rfc3339_accepts(text@),
{
    match DateTime::parse_from_rfc3339(text) {
        Ok(t) => Some(Utc::now().signed_duration_since(t.with_timezone(&Utc)).num_seconds()),
        Err(_) => None,
    }
}

/// Calls `Utc::now` and `DateTime::to_rfc3339`: the current time as an
/// RFC 3339 text. It reads the clock, so nothing is claimed of the result.
#[verifier::external_body]
pub(crate) fn now_rfc3339() -> (r: String) {
    Utc::now().to_rfc3339()
}

} // verus!
