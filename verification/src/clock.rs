//! The wall clock, read as milliseconds since the Unix epoch.
//!
//! Nothing is assumed of what the clock returns: a timestamp is opaque data
//! that is folded into a block's digest and never compared with anything.

use vstd::prelude::*;

verus! {

/// `std::time::SystemTime`, a reading of the system clock, carried as an
/// opaque value.
#[verifier::external_type_specification]
#[verifier::external_body]
pub struct ExSystemTime(std::time::SystemTime);

/// `std::time::SystemTimeError`, what `SystemTime::duration_since` returns
/// when the second moment is the later one, carried as an opaque value.
#[verifier::external_type_specification]
#[verifier::external_body]
pub struct ExSystemTimeError(std::time::SystemTimeError);

/// `SystemTime::now` reads the system clock; nothing is assumed of the
/// reading.
pub assume_specification[ std::time::SystemTime::now ]() -> (now: std::time::SystemTime)
;

/// `Duration::as_millis` gives the whole milliseconds of a duration; nothing
/// is assumed of the number.
pub assume_specification[ std::time::Duration::as_millis ](span: &std::time::Duration) -> (millis:
    u128)
;

/// The time elapsed from the Unix epoch to `moment`, by
/// `SystemTime::duration_since`, or its error when `moment` lies before the
/// epoch. Nothing is assumed of which of the two comes back.
#[verifier::external_body]
pub(crate) fn since_unix_epoch(moment: &std::time::SystemTime) -> (elapsed: Result<
    std::time::Duration,
    std::time::SystemTimeError,
>) {
    moment.duration_since(std::time::UNIX_EPOCH)
}

} // verus!
