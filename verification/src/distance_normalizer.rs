//! The distance normalizer: a raw distance becomes a closeness between 0
//! (at or beyond the far bound) and 1000 (at or within the near bound).

use vstd::prelude::*;
use vstd::arithmetic::div_mod::{
    lemma_div_is_ordered,
    lemma_div_multiples_vanish,
    lemma_div_plus_one,
};
use crate::fixed::clamp_int;

verus! {

/// Closeness of a raw distance `d` between the bounds `low < high`:
/// `1 - (clamp(d, low, high) - low) / (high - low)`, in thousandths,
/// rounded down.
pub open spec fn normalized(d: int, low: int, high: int) -> int {
    ((high - clamp_int(d, low, high)) * 1000) / (high - low)
}

/// The exact closeness is the fraction of this number over `high - low`.
pub open spec fn closeness_numerator(d: int, low: int, high: int) -> int {
    high - clamp_int(d, low, high)
}

/// The coarse proximity signal: the distance is less than half the
/// threshold.
pub open spec fn within_half(d: int, threshold: int) -> bool {
    2 * d < threshold
}

/// At or below the near bound the closeness is 1.
pub proof fn lemma_normalized_at_near_bound(d: int, low: int, high: int)
    requires
        low < high,
        d <= low,
    ensures
        normalized(d, low, high) == 1000,
{
    lemma_div_multiples_vanish(1000, high - low);
    assert((high - low) * 1000 == (high - low) * 1000int);
}

/// At or beyond the far bound the closeness is 0.
pub proof fn lemma_normalized_at_far_bound(d: int, low: int, high: int)
    requires
        low < high,
        d >= high,
    ensures
        normalized(d, low, high) == 0,
{
    lemma_div_multiples_vanish(0, high - low);
}

/// The closeness always lies between 0 and 1.
pub proof fn lemma_normalized_in_unit_interval(d: int, low: int, high: int)
    requires
        low < high,
    ensures
        0 <= normalized(d, low, high) <= 1000,
{
    let c = clamp_int(d, low, high);
    lemma_normalized_at_near_bound(low, low, high);
    lemma_normalized_at_far_bound(high, low, high);
    lemma_div_is_ordered((high - c) * 1000, (high - low) * 1000, high - low);
    lemma_div_is_ordered((high - high) * 1000, (high - c) * 1000, high - low);
}

/// A greater distance never gives a greater closeness.
pub proof fn lemma_normalized_decreasing(d1: int, d2: int, low: int, high: int)
    requires
        low < high,
        d1 <= d2,
    ensures
        normalized(d2, low, high) <= normalized(d1, low, high),
{
    let c1 = clamp_int(d1, low, high);
    let c2 = clamp_int(d2, low, high);
    lemma_div_is_ordered((high - c2) * 1000, (high - c1) * 1000, high - low);
}

/// Between the bounds the closeness strictly decreases from one distance to
/// a greater one, once the two differ by a thousandth of the span. (Closer
/// distances may share one value, since values are whole thousandths.)
pub proof fn lemma_normalized_strictly_decreasing(d1: int, d2: int, low: int, high: int)
    requires
        low < high,
        low <= d1 < d2 <= high,
        (d2 - d1) * 1000 >= high - low,
    ensures
        normalized(d2, low, high) < normalized(d1, low, high),
{
    let span = high - low;
    let n2 = (high - d2) * 1000;
    let n1 = (high - d1) * 1000;
    lemma_div_plus_one(n2, span);
    lemma_div_is_ordered(n2 + span, n1, span);
}

/// Between the bounds the exact closeness strictly decreases from every
/// distance to every greater one.
pub proof fn lemma_exact_closeness_strictly_decreasing(d1: int, d2: int, low: int, high: int)
    requires
        low < high,
        low <= d1 < d2 <= high,
    ensures
        closeness_numerator(d2, low, high) < closeness_numerator(d1, low, high),
        closeness_numerator(low, low, high) == high - low,
        closeness_numerator(high, low, high) == 0,
{
}

/// The closeness is the exact closeness in thousandths, rounded down to a
/// whole number.
pub proof fn lemma_normalized_rounds_exact_fraction(d: int, low: int, high: int)
    requires
        low < high,
    ensures
        normalized(d, low, high) * (high - low) <= closeness_numerator(d, low, high) * 1000,
        closeness_numerator(d, low, high) * 1000 < (normalized(d, low, high) + 1) * (high - low),
{
    let n = (high - clamp_int(d, low, high)) * 1000;
    let span = high - low;
    vstd::arithmetic::div_mod::lemma_fundamental_div_mod(n, span);
    vstd::arithmetic::div_mod::lemma_mod_bound(n, span);
    assert(span * (n / span) == (n / span) * span) by (nonlinear_arith);
    assert((n / span + 1) * span == (n / span) * span + span) by (nonlinear_arith);
}

/// Maps a raw distance to its closeness between the bounds `low` and
/// `high`.
pub fn normalize(raw_distance: i64, low: i64, high: i64) -> (closeness: i32)
    requires
        low < high,
    ensures
        closeness == normalized(raw_distance as int, low as int, high as int),
        0 <= closeness <= 1000,
{
    let clamped: i64 = if raw_distance < low {
        low
    } else if raw_distance > high {
        high
    } else {
        raw_distance
    };
    let span: i128 = high as i128 - low as i128;
    let numerator: i128 = (high as i128 - clamped as i128) * 1000;
    proof {
        lemma_normalized_in_unit_interval(raw_distance as int, low as int, high as int);
    }
    let quotient: i128 = numerator / span;
    quotient as i32
}

/// Whether a raw distance counts as near under a proximity threshold.
pub fn in_proximity_of(raw_distance: i64, proximity_threshold: i64) -> (near: bool)
    ensures
        near == within_half(raw_distance as int, proximity_threshold as int),
{
    2 * (raw_distance as i128) < proximity_threshold as i128
}

} // verus!
