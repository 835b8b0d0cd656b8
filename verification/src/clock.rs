//! The machine's clocks, read.

use vstd::prelude::*;

verus! {

/// `std::time::Instant`, carried as the origin a session's monotonic readings
/// are taken from.
#[verifier::external_type_specification]
#[verifier::external_body]
pub struct ExInstant(std::time::Instant);

/// `Instant::now`: the monotonic clock's current moment. Nothing is promised of
/// it; it depends on the machine and the time.
#[verifier::external_body]
pub(crate) fn instant_now() -> std::time::Instant {
    std::time::Instant::now()
}

/// `Instant::elapsed`, in nanoseconds, held at `u64::MAX`: how long ago
/// `origin` was. Nothing is promised of it; it depends on the time.
#[verifier::external_body]
pub(crate) fn nanos_since(origin: &std::time::Instant) -> u64 {
    u64::try_from(origin.elapsed().as_nanos()).unwrap_or(u64::MAX)
}

/// `SystemTime::now` as unix milliseconds, and 0 for a clock set before the
/// epoch. Nothing is promised of it; it depends on the time.
#[verifier::external_body]
pub(crate) fn now_ms() -> u64 {
    std::time::SystemTime::now()
        .duration_since(std::time::UNIX_EPOCH)
        .map(|d| d.as_millis() as u64)
        .unwrap_or(0)
}

} // verus!
