//! The random numbers that place entities and steer enemies.
//!
//! They come from the thread-local generator of the `rand` crate. Nothing is
//! proved of that crate: the contracts in this file are taken on trust.

use vstd::prelude::*;
use rand::rngs::ThreadRng;
use rand::seq::SliceRandom;
use rand::Rng;

verus! {

/// The handle to `rand`'s thread-local generator. Nothing is known of what it
/// holds.
#[verifier::external_type_specification]
#[verifier::external_body]
pub struct ExThreadRng(rand::rngs::ThreadRng);

/// `rand::thread_rng` hands out the handle to the thread-local generator.
/// Nothing is claimed of it.
pub assume_specification[ rand::thread_rng ]() -> (rng: rand::rngs::ThreadRng);

/// `rand::Rng::gen_range` on the inclusive range from `low` to `high`. It
/// panics on an empty range, which the precondition leaves out; whatever it
/// draws lies in the range.
#[verifier::external_body]
pub(crate) fn gen_range(rng: &mut ThreadRng, low: i32, high: i32) -> (r: i32)
    requires
        low <= high,
    ensures
        low <= r <= high,
{
    rng.gen_range(low..=high)
}

/// `rand::seq::SliceRandom::choose` on a slice of integers. It gives nothing
/// exactly when the slice is empty, and otherwise one of the slice's entries.
#[verifier::external_body]
pub(crate) fn choose_one(rng: &mut ThreadRng, samples: &[i32]) -> (r: Option<i32>)
    ensures
        r is None <==> samples@.len() == 0,
        r matches Some(v) ==> samples@.contains(v),
{
    samples.choose(rng).copied()
}

} // verus!
