//! How long a piece of work took, by the machine's clock.
use vstd::prelude::*;

verus! {

/// `std::time::Instant`, a moment of the machine's clock.
#[verifier::external_type_specification]
#[verifier::external_body]
pub struct ExInstant(std::time::Instant);

/// `std::time::Instant::now`: the moment of the call, whichever it is.
pub assume_specification[ std::time::Instant::now ]() -> (now: std::time::Instant);

/// `std::time::Instant::elapsed`: the time since a moment. How long it was depends
/// on the machine.
pub assume_specification[ std::time::Instant::elapsed ](since: &std::time::Instant) -> (elapsed:
    std::time::Duration);

/// `std::time::Duration::as_nanos`: the nanoseconds of a span. Nothing is stated of
/// them, since nothing is known of the span.
pub assume_specification[ std::time::Duration::as_nanos ](span: &std::time::Duration) -> (nanos:
    u128);

/// A watch that was started.
#[derive(Clone, Copy, Debug)]
pub struct Stopwatch {
    started: std::time::Instant,
}

impl Stopwatch {
    /// Starts a watch.
    pub fn start() -> (w: Self) {
        Stopwatch { started: std::time::Instant::now() }
    }

    /// The low 64 bits of the nanoseconds since the start, whatever they are.
    pub fn elapsed_nanos(&self) -> (nanos: u64) {
        let nanos: u128 = self.started.elapsed().as_nanos();
        (nanos % 0x1_0000_0000_0000_0000) as u64
    }
}

} // verus!
