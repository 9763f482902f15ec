//! Random draws, taken from the `rand` crate's generator of the current
//! thread.

use vstd::prelude::*;
use rand::Rng;

verus! {

/// The handle of `rand` to the random number generator of the current
/// thread. Nothing is known of its inside.
#[verifier::external_type_specification]
#[verifier::external_body]
pub struct ExThreadRng(rand::rngs::ThreadRng);

/// `rand::thread_rng` returns the handle to the generator of the current
/// thread. Nothing is claimed of it. Its first use panics on a machine
/// that gives no entropy, which no argument can prevent.
pub assume_specification[ rand::thread_rng ]() -> (rng: rand::rngs::ThreadRng)
;

/// Calls `Rng::gen_range` of `rand` on the inclusive range from `low` to
/// `high`. The crate documents that the value lies in the range and that
/// the call panics on an empty range, which is excluded here. Which value
/// comes is not known. Besides, a draw panics where the generator cannot
/// be reseeded from the system, which depends on the machine and on no
/// argument.
#[verifier::external_body]
pub(crate) fn draw_between(rng: &mut rand::rngs::ThreadRng, low: i32, high: i32) -> (value: i32)
    requires
        low <= high,
    ensures
        low <= value <= high,
{
    rng.gen_range(low..=high)
}

} // verus!
