//! The random number generator of the `rand` crate, as far as seeding needs
//! it. Nothing in this file is proved: the contracts below are taken from
//! the crate's documentation and source.

use vstd::prelude::*;
use rand::rngs::ThreadRng;
use rand::Rng;

verus! {

/// `rand::rngs::ThreadRng`, the handle to the generator of the current
/// thread. Nothing is known of what it holds.
#[verifier::external_type_specification]
#[verifier::external_body]
pub struct ExThreadRng(ThreadRng);

/// `rand::thread_rng` hands out the handle to the generator of the current
/// thread. Nothing is claimed of it. The call panics where the operating
/// system cannot seed the generator.
pub assume_specification[ rand::thread_rng ]() -> (rng: ThreadRng)
;

/// `Rng::gen_range` on `usize` bounds. The crate documents a value in the
/// range from `low`, included, to `high`, excluded, and a panic unless
/// `low < high`. Which value comes is left open, and two calls may differ.
#[verifier::external_body]
pub(crate) fn gen_range(rng: &mut ThreadRng, low: usize, high: usize) -> (n: usize)
    requires
        low < high,
    ensures
        low <= n < high,
{
    rng.gen_range(low, high)
}

} // verus!
