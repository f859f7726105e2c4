//! Trusted boundary to the `rand` crate: the thread-local generator and a
//! single bounded uniform draw.  Every claim about randomness the rest of the
//! crate makes is conditioned on nothing more than the range bound stated
//! here.

use vstd::prelude::*;

verus! {

/// Declares rand's thread-local generator handle so that values of it can
/// flow through signatures; its contents are opaque to verification.
#[verifier::external_type_specification]
#[verifier::external_body]
pub struct ExThreadRng(rand::rngs::ThreadRng);

/// Relies on rand::thread_rng: hands back the thread-local generator.
/// Nothing is assumed about the values it will produce.
#[verifier::external_body]
pub(crate) fn new_rng() -> rand::rngs::ThreadRng {
    rand::thread_rng()
}

/// Relies on rand::Rng::gen_range over the half-open range `0..bound`: the
/// sample lies in `[0, bound)`.  The call panics on an empty range, which the
/// precondition rules out.  Which value comes back is not assumed; two draws
/// with equal arguments may differ.
#[verifier::external_body]
pub(crate) fn draw_sample(rng: &mut rand::rngs::ThreadRng, bound: u32) -> (s: u32)
    requires
        bound > 0,
    ensures
        s < bound,
{
    rand::Rng::gen_range(rng, 0..bound)
}

} // verus!
