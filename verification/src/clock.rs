use vstd::prelude::*;

verus! {

/// Reads the system clock as whole seconds since the Unix epoch, through
/// `std::time::SystemTime::elapsed` on `UNIX_EPOCH`; a clock set before the
/// epoch reads as 0. Nothing is claimed of the value: the clock may jump
/// either way between two readings.
#[verifier::external_body]
pub(crate) fn unix_now() -> (secs: u64) {
    std::time::UNIX_EPOCH.elapsed().map_or(0, |d| d.as_secs())
}

} // verus!
