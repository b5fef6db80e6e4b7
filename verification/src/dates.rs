//! Publication-date parsing.
//!
//! Items carry their publication date as an RFC 2822 string. Date-based
//! sorting and filtering compare the instants those strings denote, in
//! whole seconds since the Unix epoch; a string that does not parse as an
//! RFC 2822 date makes the whole operation fail with a typed error.

use vstd::prelude::*;

verus! {

/// The typed errors of the query operations.
#[derive(Clone, Copy, Debug, PartialEq, Eq)]
pub enum QueryError {
    /// A date-based sort or filter met a publication date, or was given a
    /// bound, that is not a well-formed RFC 2822 date.
    MalformedDate,
}

/// The instant an RFC 2822 date string denotes, in whole seconds since
/// the Unix epoch; `None` when the string is not a well-formed RFC 2822
/// date. The result depends on the characters alone.
pub uninterp spec fn rfc2822_timestamp(s: Seq<char>) -> Option<int>;

/// Relies on chrono's `DateTime::parse_from_rfc2822`, which parses a
/// string as an RFC 2822 date deterministically from its characters, and
/// on `DateTime::timestamp`, which projects the parsed instant to whole
/// seconds since the Unix epoch (RFC 2822 dates have no finer grain).
#[verifier::external_body]
pub(crate) fn parse_rfc2822(s: &str) -> (r: Option<i64>)
    ensures
        r is Some <==> rfc2822_timestamp(s@) is Some,
        r matches Some(t) ==> rfc2822_timestamp(s@) == Some(t as int),
{
    match chrono::DateTime::parse_from_rfc2822(s) {
        Ok(d) => Some(d.timestamp()),
        Err(_) => None,
    }
}

} // verus!
