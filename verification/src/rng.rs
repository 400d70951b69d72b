//! The randomness source behind the jittered timbres.
//!
//! Jitter draws from the thread-local generator of the `rand` crate,
//! which neither blocks nor takes a global lock, so a draw on the
//! real-time path cannot stall rendering.  Nothing is assumed about
//! the values drawn: every contract downstream holds for every
//! possible outcome.

use vstd::prelude::*;

verus! {

/// Relies on rand::random: one value from the thread-local generator.
/// No clause constrains the result; a random draw promises nothing.
pub assume_specification<T>[ rand::random::<T> ]() -> (r: T)
    where
        rand::distr::StandardUniform: rand::distr::Distribution<T>,
;

/// A uniform-ish draw reduced into `[0, n]`, used for jitter offsets.
pub fn random_at_most(n: u32) -> (r: u32)
    requires
        n < 0xffff_ffff,
    ensures
        r <= n,
{
    let raw = rand::random::<u32>();
    raw % (n + 1)
}

} // verus!
