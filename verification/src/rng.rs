//! The random number generator behind sampling decisions.
//!
//! Randomness enters the library through one bounded draw from a seeded
//! generator of the `rand` crate.  Callers own the generator state and
//! thread it through explicitly, so a fixed seed reproduces a run exactly.

use vstd::prelude::*;

verus! {

/// Declares rand's standard generator so that its state can be owned and
/// passed through verified code; the type stays opaque and nothing is
/// assumed about the values it produces beyond each call's own contract.
#[verifier::external_type_specification]
#[verifier::external_body]
pub struct ExStdRng(rand::rngs::StdRng);

/// Relies on rand::Rng::gen_range over the half-open range `0..bound`:
/// the sample lies in the range, which is non-empty because `bound > 0`.
#[verifier::external_body]
pub(crate) fn rand_below(rng: &mut rand::rngs::StdRng, bound: u32) -> (r: u32)
    requires
        bound > 0,
    ensures
        r < bound,
{
    rand::Rng::gen_range(rng, 0..bound)
}

} // verus!
