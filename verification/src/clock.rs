//! The wall clock, read in milliseconds.
use vstd::prelude::*;

verus! {

/// Milliseconds since the Unix epoch, read from `std::time::SystemTime`
/// (0 if the clock reads before the epoch). Nothing is promised of the value:
/// it depends on the machine's clock, which may also move backwards.
#[verifier::external_body]
pub(crate) fn now_millis() -> u64 {
    match std::time::SystemTime::now().duration_since(std::time::UNIX_EPOCH) {
        Ok(d) => d.as_millis() as u64,
        Err(_) => 0,
    }
}

/// Microseconds since the Unix epoch, read from `std::time::SystemTime`
/// (0 if the clock reads before the epoch; the low 64 bits otherwise).
/// Nothing is promised of the value: it depends on the machine's clock.
#[verifier::external_body]
pub(crate) fn now_micros() -> u64 {
    match std::time::SystemTime::now().duration_since(std::time::UNIX_EPOCH) {
        Ok(d) => d.as_micros() as u64,
        Err(_) => 0,
    }
}

} // verus!
