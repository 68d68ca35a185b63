//! Time: the clock, and the text form of instants.
//!
//! Instants are UTC microseconds since the Unix epoch, within the range that
//! `chrono::DateTime<Utc>` can represent.

use vstd::prelude::*;

verus! {

/// First representable instant (January 1 of the year -262143, that is
/// 262144 BCE, 00:00:00 UTC).
pub const TIME_MIN_MICROS: i64 = -8334601315200000000;

/// Last representable instant (December 31, 262142 CE, 23:59:59.999999 UTC).
pub const TIME_MAX_MICROS: i64 = 8210266876799999999;

/// Microseconds in a second.
pub const MICROS_PER_SEC: i64 = 1000000;

/// An instant that `chrono::DateTime<Utc>` can hold.
pub open spec fn valid_time(us: i64) -> bool {
    TIME_MIN_MICROS <= us <= TIME_MAX_MICROS
}

/// Reads the system clock through `chrono::Utc::now`. The contract claims
/// only that the reading is a representable instant.
#[verifier::external_body]
pub(crate) fn now_micros() -> (r: i64)
    ensures
        valid_time(r),
{
    chrono::Utc::now().timestamp_micros()
}

/// The RFC 3339 text that chrono gives an instant.
pub uninterp spec fn spec_rfc3339(us: i64) -> Seq<char>;

/// Formats an instant with `chrono::DateTime::to_rfc3339`; the result is the
/// name `spec_rfc3339` of the instant.
#[verifier::external_body]
pub(crate) fn rfc3339(us: i64) -> (r: String)
    requires
        valid_time(us),
    ensures
        r@ == spec_rfc3339(us),
{
    chrono::DateTime::from_timestamp_micros(us).unwrap().to_rfc3339()
}

/// The instant that chrono parses from RFC 3339 text, if it parses.
pub uninterp spec fn spec_parse_rfc3339(s: Seq<char>) -> Option<i64>;

/// Parses RFC 3339 text with `chrono::DateTime::parse_from_rfc3339` and
/// takes its UTC microseconds. The result is the name `spec_parse_rfc3339`
/// of the text, and a parsed instant is representable.
#[verifier::external_body]
pub(crate) fn parse_rfc3339(s: &str) -> (r: Option<i64>)
    ensures
        r == spec_parse_rfc3339(s@),
        r matches Some(t) ==> valid_time(t),
{
    chrono::DateTime::parse_from_rfc3339(s).ok().map(|d| d.timestamp_micros())
}

/// Whole seconds of an instant, rounded down (what `DateTime::timestamp` gives).
pub open spec fn secs_of(us: i64) -> int {
    us as int / MICROS_PER_SEC as int
}

/// Whole seconds of an instant, rounded down.
pub fn seconds(us: i64) -> (r: i64)
    requires
        valid_time(us),
    ensures
        r == secs_of(us),
{
    let q = us / MICROS_PER_SEC;
    let rem = us % MICROS_PER_SEC;
    if rem < 0 {
        q - 1
    } else {
        q
    }
}

/// The instant `secs` seconds after `us`.
pub open spec fn plus_secs(us: i64, secs: u64) -> int {
    us + secs * MICROS_PER_SEC
}

} // verus!
