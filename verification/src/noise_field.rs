//! Samples of the noise field.
//!
//! The field is a function from a point of the plane to a value between -1
//! and 1, evaluated by the caller: the library says at which points it
//! needs the field and takes the values as a list, in the same order. A
//! value outside that interval is limited to it, and a value that the
//! list does not hold counts as 0.

use vstd::prelude::*;

verus! {

/// The `i`-th sample of a list.
pub open spec fn sample_at(noise: Seq<i32>, i: int) -> int {
    if 0 <= i < noise.len() {
        if noise[i] < -1000 {
            -1000
        } else if noise[i] > 1000 {
            1000
        } else {
            noise[i] as int
        }
    } else {
        0
    }
}

/// The `i`-th sample of a list.
pub fn noise_sample(noise: &Vec<i32>, i: usize) -> (n: i32)
    ensures
        n == sample_at(noise@, i as int),
        -1000 <= n <= 1000,
{
    if i < noise.len() {
        let v: i32 = noise[i];
        if v < -1000 {
            -1000
        } else if v > 1000 {
            1000
        } else {
            v
        }
    } else {
        0
    }
}

} // verus!
