use vstd::prelude::*;

verus! {

/// Declares std::time::Instant so it can pass through signatures; its
/// values stay opaque.
#[verifier::external_type_specification]
#[verifier::external_body]
pub struct ExInstant(std::time::Instant);

/// Relies on std::time::Instant::now: an opaque monotonic timestamp.
/// Nothing is assumed of its value; it only anchors a later elapsed-time
/// reading.
#[verifier::external_body]
pub(crate) fn instant_now() -> std::time::Instant {
    std::time::Instant::now()
}

/// Relies on std::time::Instant::elapsed: the wall-clock time since `start`,
/// converted to whole milliseconds and truncated to 64 bits. The value
/// depends on the clock, so nothing is assumed of it.
#[verifier::external_body]
pub(crate) fn elapsed_ms(start: &std::time::Instant) -> u64 {
    start.elapsed().as_millis() as u64
}

} // verus!
