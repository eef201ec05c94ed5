//! Phase timing for performance analysis.
use std::time::Instant;
use vstd::prelude::*;

verus! {

/// The monotonic clock reading type.
#[verifier::external_type_specification]
#[verifier::external_body]
pub struct ExInstant(Instant);

/// Trusted: `Instant::now`.  The clock reading depends on the time of the
/// call, so nothing is stated of it.
#[verifier::external_body]
fn instant_now() -> Instant {
    Instant::now()
}

/// Trusted: `Instant::elapsed` followed by `Duration::as_micros`: the whole
/// microseconds since `start`.  It depends on the time of the call, so nothing
/// is stated of it.
#[verifier::external_body]
fn micros_since(start: &Instant) -> u128 {
    start.elapsed().as_micros()
}

/// Phase timing accumulator.
pub struct PhaseTimer {
    name: &'static str,
    start: Instant,
}

impl PhaseTimer {
    /// The phase name this timer was started with.
    pub closed spec fn name(&self) -> Seq<char> {
        self.name@
    }

    /// Starts timing the phase `name` now.
    pub fn new(name: &'static str) -> (t: Self)
        ensures
            t.name() == name@,
    {
        PhaseTimer { name, start: instant_now() }
    }

    /// The phase name.
    pub fn phase_name(&self) -> (r: &'static str)
        ensures
            r@ == self.name(),
    {
        self.name
    }

    /// Microseconds elapsed since the timer started, truncated to 64 bits.
    pub fn elapsed_us(&self) -> u64 {
        micros_to_u64(micros_since(&self.start))
    }
}

/// The truncating conversion of a microsecond count to 64 bits (what
/// `as u64` does).
pub fn micros_to_u64(micros: u128) -> (r: u64)
    ensures
        r == micros % 0x1_0000_0000_0000_0000,
{
    let r = micros as u64;
    assert(micros as u64 == micros % 0x1_0000_0000_0000_0000) by (bit_vector);
    r
}

} // verus!
