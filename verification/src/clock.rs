//! Instants and RFC 3339 text.
//!
//! The pool reasons about instants as Unix epoch seconds, always handed in
//! by the caller: no function here reads the wall clock. Parsing RFC 3339
//! text and rendering an instant back to RFC 3339 are done by the `chrono`
//! crate behind trusted wrappers; what an RFC 3339 string denotes is
//! captured by the uninterpreted function [`rfc3339_epoch`].

use vstd::prelude::*;

verus! {

/// The epoch seconds an RFC 3339 date-and-time string denotes, or `None`
/// when the string is not a valid RFC 3339 date-and-time. This names the
/// result of `chrono::DateTime::parse_from_rfc3339`.
pub uninterp spec fn rfc3339_epoch(s: Seq<char>) -> Option<i64>;

/// Every instant `chrono` can represent lies within this many seconds of the
/// epoch: its dates span roughly the years -262143 to 262142, about 8.27e12
/// seconds either way.
pub open spec fn chrono_epoch_bound() -> int {
    10_000_000_000_000
}

/// Instants the clock renders: the years 1970 to 9999. RFC 3339 writes
/// the year in exactly four digits, so instants outside this window have
/// no rendering that parses back.
pub open spec fn renderable_epoch(t: i64) -> bool {
    0 <= t <= 253_402_300_799
}

/// Relies on `chrono::DateTime::parse_from_rfc3339` and
/// `DateTime::timestamp`: parses an RFC 3339 date-and-time string to epoch
/// seconds. The result depends on the characters alone.
#[verifier::external_body]
pub(crate) fn parse_rfc3339_epoch(s: &str) -> (r: Option<i64>)
    ensures
        r == rfc3339_epoch(s@),
        r matches Some(t) ==> -chrono_epoch_bound() <= t <= chrono_epoch_bound(),
{
    chrono::DateTime::parse_from_rfc3339(s).ok().map(|d| d.timestamp())
}

/// Relies on `chrono::DateTime::from_timestamp` and `DateTime::to_rfc3339`:
/// renders an instant of the years 1970 to 9999 as RFC 3339 text (four-digit
/// year, `+00:00` offset, whole seconds) that `parse_from_rfc3339` reads
/// back to the same instant; anything outside that window yields `None`.
#[verifier::external_body]
pub(crate) fn format_rfc3339_epoch(t: i64) -> (r: Option<String>)
    ensures
        r is Some <==> renderable_epoch(t),
        r matches Some(s) ==> rfc3339_epoch(s@) == Some(t),
{
    if !(0..=253_402_300_799).contains(&t) {
        return None;
    }
    chrono::DateTime::from_timestamp(t, 0).map(|d| d.to_rfc3339())
}

} // verus!
