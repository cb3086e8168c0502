//! The system clock, which seeds the random number generator.
use vstd::prelude::*;

use std::time::{Duration, SystemTime, SystemTimeError};

verus! {

/// The clock's reading, opaque to the library.
#[verifier::external_type_specification]
#[verifier::external_body]
pub struct ExSystemTime(SystemTime);

/// The error of a clock reading earlier than the epoch asked about.
#[verifier::external_type_specification]
#[verifier::external_body]
pub struct ExSystemTimeError(SystemTimeError);

/// `SystemTime::now` reads the clock; nothing is claimed of the reading.
pub assume_specification[ SystemTime::now ]() -> SystemTime;

/// Returns `SystemTime::UNIX_EPOCH`, 1970-01-01 00:00:00 UTC; nothing is
/// claimed of it.
#[verifier::external_body]
pub(crate) fn unix_epoch() -> SystemTime {
    SystemTime::UNIX_EPOCH
}

/// `SystemTime::duration_since` measures from `earlier`; nothing is claimed of
/// the outcome, which depends on the clock.
pub assume_specification[ SystemTime::duration_since ](
    this: &SystemTime,
    earlier: SystemTime,
) -> Result<Duration, SystemTimeError>;

/// `Duration::subsec_nanos` is the fractional part of the duration in
/// nanoseconds, which its documentation says is always below one billion.
/// Only that bound is stated: which value it is goes unsaid, since a
/// `Duration` is opaque here.
pub assume_specification[ Duration::subsec_nanos ](this: &Duration) -> (nanos: u32)
    ensures
        nanos < 1_000_000_000,
;

} // verus!
