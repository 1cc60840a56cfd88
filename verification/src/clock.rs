//! The monotonic clock of the standard library, as far as timing a call needs it.

use vstd::prelude::*;

verus! {

/// `std::time::Instant`, a reading of the monotonic clock. What a reading
/// holds is not modelled.
#[verifier::external_type_specification]
#[verifier::external_body]
pub struct ExInstant(std::time::Instant);

/// `Instant::now` reads the clock. Nothing is claimed of the reading.
pub assume_specification[ std::time::Instant::now ]() -> (start: std::time::Instant)
;

/// `Instant::elapsed` gives the time that has passed since the reading.
/// Nothing is claimed of how long that is.
pub assume_specification[ std::time::Instant::elapsed ](start: &std::time::Instant) -> (used:
    std::time::Duration)
;

/// `Duration::as_millis` gives a duration in whole milliseconds. Nothing is
/// claimed of the number.
pub assume_specification[ std::time::Duration::as_millis ](used: &std::time::Duration) -> (millis:
    u128)
;

} // verus!
