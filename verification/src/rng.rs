//! Randomness for the particle subsystems.
//!
//! Every draw goes through one of these two wrappers.  Nothing is
//! assumed about which value comes back beyond its range, so everything
//! proved about the particle systems holds for every outcome.

use vstd::prelude::*;

verus! {

/// Relies on fastrand::u32 over the range below `bound`: the result is
/// drawn from `0..bound`, and the call panics only on an empty range,
/// which the precondition excludes.
#[verifier::external_body]
pub fn rand_below(bound: u32) -> (r: u32)
    requires
        bound >= 1,
    ensures
        r < bound,
{
    fastrand::u32(..bound)
}

/// A random value in `0..=1000`, used where a fraction in thousandths
/// is drawn.
pub fn rand1000() -> (r: u32)
    ensures
        r <= 1000,
{
    rand_below(1001)
}

} // verus!
