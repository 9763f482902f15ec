//! The colour model: a pulsing, distance-gated colour, and the
//! interpolation helpers it is built from.
//!
//! The sine of the creature's time is supplied by the caller. Channels are
//! mixed in millionths by a factor in units of 10^-9 and rounded to the
//! nearest thousandth at the end.

use vstd::prelude::*;
use crate::fixed::{
    clamp_int,
    div_floor,
    div_round,
    lemma_round_div_bound,
    lemma_round_div_exact,
    lemma_round_div_sign,
    round_div,
};
use crate::geometry::Color;

verus! {

/// The canonical cutoff between the near and the very near palette, on the
/// intensity scale.
pub const PROXIMITY_COLOR_CUTOFF: i32 = 7000;

/// The factor 1 of an interpolation: factors are in units of 10^-9.
pub const WHOLE: i64 = 1_000_000_000;

/// Linear interpolation from `a` (at a factor of 0 or less) to `b` (at a
/// factor of 1 or more), rounded to the nearest whole number; the factor
/// `t` is in units of 10^-9.
pub open spec fn lerp_value(a: int, b: int, t: int) -> int {
    a + round_div((b - a) * clamp_int(t, 0, 1_000_000_000), 1_000_000_000)
}

/// Channel-wise interpolation between two colours given as triples.
pub open spec fn mixed(c1: (i32, i32, i32), c2: (i32, i32, i32), factor: int) -> (i32, i32, i32) {
    (
        lerp_value(c1.0 as int, c2.0 as int, factor) as i32,
        lerp_value(c1.1 as int, c2.1 as int, factor) as i32,
        lerp_value(c1.2 as int, c2.2 as int, factor) as i32,
    )
}

/// A triple of channels in millionths as thousandths, each rounded to the
/// nearest.
pub open spec fn in_thousandths(c: (i32, i32, i32)) -> (i32, i32, i32) {
    (
        round_div(c.0 as int, 1000) as i32,
        round_div(c.1 as int, 1000) as i32,
        round_div(c.2 as int, 1000) as i32,
    )
}

/// The pulsing channel for a given sine, in millionths:
/// `(sin * 0.25 + 0.75) * 0.5 + 0.5`, which is `0.875 + 0.125 sin`. A
/// sine below -1 or above 1 is limited to that interval.
pub open spec fn pulse(sin_time: int) -> int {
    875_000 + 125 * clamp_int(sin_time, -1000, 1000)
}

/// The intensity that selects the palette: `0.6 + closeness * 10`.
pub open spec fn intensity(normalized_distance: int) -> int {
    600 + normalized_distance * 10
}

/// How far the intensity lies below the cutoff, as a share of 6.4, in
/// units of 10^-9.
pub open spec fn below_cutoff(check: int, cutoff: int) -> int {
    ((cutoff - check) * 1_000_000_000) / 6400
}

/// How far the intensity lies above the cutoff, as a share of 3, in units
/// of 10^-9.
pub open spec fn above_cutoff(check: int, cutoff: int) -> int {
    ((check - cutoff) * 1_000_000_000) / 3000
}

/// The red, green and blue of the pulsing colour, in millionths.
pub open spec fn dynamic_rgb_fine(
    sin_time: int,
    normalized_distance: int,
    in_proximity: bool,
    cutoff: int,
) -> (i32, i32, i32) {
    let check = intensity(normalized_distance);
    let green = pulse(sin_time) as i32;
    if !in_proximity {
        mixed((100_000, 100_000, 800_000), (1_000_000, green, 0), below_cutoff(check, cutoff))
    } else if check < cutoff {
        mixed((100_000, 100_000, 800_000), (500_000, green, 900_000), below_cutoff(check, cutoff))
    } else {
        mixed((0, 0, 700_000), (1_000_000, 300_000, 200_000), above_cutoff(check, cutoff))
    }
}

/// The red, green and blue of the pulsing colour.
pub open spec fn dynamic_rgb(
    sin_time: int,
    normalized_distance: int,
    in_proximity: bool,
    cutoff: int,
) -> (i32, i32, i32) {
    in_thousandths(dynamic_rgb_fine(sin_time, normalized_distance, in_proximity, cutoff))
}

/// The red, green and blue of the plain three-palette colour, in
/// millionths.
pub open spec fn dynamic_rgb2_fine(normalized_distance: int, in_proximity: bool, cutoff: int) -> (
    i32,
    i32,
    i32,
) {
    let check = intensity(normalized_distance);
    if !in_proximity {
        (1_000_000, 1_000_000, 0)
    } else if check < cutoff {
        mixed((900_000, 900_000, 0), (1_000_000, 1_000_000, 0), below_cutoff(check, cutoff))
    } else {
        mixed((1_000_000, 0, 0), (900_000, 900_000, 0), above_cutoff(check, cutoff))
    }
}

/// The red, green and blue of the plain three-palette colour.
pub open spec fn dynamic_rgb2(normalized_distance: int, in_proximity: bool, cutoff: int) -> (
    i32,
    i32,
    i32,
) {
    in_thousandths(dynamic_rgb2_fine(normalized_distance, in_proximity, cutoff))
}

/// The polynomial `t^3 (6 t^2 - 15 t + 10)` of a `t` in millionths, in
/// units of 10^-30.
pub open spec fn smoother_numerator(t: int) -> int {
    t * t * t * (t * (t * 6 - 15_000_000) + 10_000_000_000_000)
}

/// Where `x` lies between the edges `edge0 < edge1`, in millionths: 0 at
/// and below the lower edge, 1 at and above the upper one.
pub open spec fn edge_position(edge0: int, edge1: int, x: int) -> int {
    clamp_int(((x - edge0) * 1_000_000) / (edge1 - edge0), 0, 1_000_000)
}

/// `smootherstep` of `x` between the edges `edge0 < edge1`, rounded to the
/// nearest thousandth.
pub open spec fn smootherstep_value(edge0: int, edge1: int, x: int) -> int {
    round_div(
        smoother_numerator(edge_position(edge0, edge1, x)),
        1_000_000_000_000_000_000_000_000_000,
    )
}

/// An interpolated value lies between its two ends, and is an end where
/// the factor is at or beyond 0 or 1.
pub proof fn lemma_lerp_between(a: int, b: int, t: int)
    ensures
        a <= b ==> a <= lerp_value(a, b, t) <= b,
        b <= a ==> b <= lerp_value(a, b, t) <= a,
        t <= 0 ==> lerp_value(a, b, t) == a,
        t >= 1_000_000_000 ==> lerp_value(a, b, t) == b,
{
    let c = clamp_int(t, 0, 1_000_000_000);
    let n = (b - a) * c;
    lemma_round_div_sign(n, 1_000_000_000);
    if a <= b {
        assert(0 <= n <= (b - a) * 1_000_000_000) by (nonlinear_arith)
            requires
                n == (b - a) * c,
                0 <= b - a,
                0 <= c <= 1_000_000_000,
        ;
        lemma_round_div_bound(n, 1_000_000_000, b - a);
    } else {
        assert(-((a - b) * 1_000_000_000) <= n <= 0) by (nonlinear_arith)
            requires
                n == (b - a) * c,
                b - a <= 0,
                0 <= c <= 1_000_000_000,
        ;
        lemma_round_div_bound(n, 1_000_000_000, a - b);
    }
    if t <= 0 {
        assert(n == 0) by (nonlinear_arith)
            requires
                n == (b - a) * c,
                c == 0,
        ;
    }
    if t >= 1_000_000_000 {
        lemma_round_div_exact(b - a, 1_000_000_000);
    }
}

/// The pulse stays between 0.75 and 1.
pub proof fn lemma_pulse_range(sin_time: int)
    ensures
        750_000 <= pulse(sin_time) <= 1_000_000,
{
}

/// A channel between 0 and 1 in millionths is between 0 and 1 in
/// thousandths.
pub proof fn lemma_in_thousandths_gamut(c: int)
    requires
        0 <= c <= 1_000_000,
    ensures
        0 <= round_div(c, 1000) <= 1000,
{
    lemma_round_div_bound(c, 1000, 1000);
    lemma_round_div_sign(c, 1000);
}

/// The pulsing colour has every channel between 0 and 1.
pub proof fn lemma_dynamic_rgb_in_gamut(
    sin_time: int,
    normalized_distance: int,
    in_proximity: bool,
    cutoff: int,
)
    ensures
        ({
            let f = dynamic_rgb_fine(sin_time, normalized_distance, in_proximity, cutoff);
            let c = dynamic_rgb(sin_time, normalized_distance, in_proximity, cutoff);
            &&& 0 <= f.0 <= 1_000_000 && 0 <= f.1 <= 1_000_000 && 0 <= f.2 <= 1_000_000
            &&& 0 <= c.0 <= 1000 && 0 <= c.1 <= 1000 && 0 <= c.2 <= 1000
        }),
{
    let check = intensity(normalized_distance);
    let green = pulse(sin_time);
    let low = below_cutoff(check, cutoff);
    let high = above_cutoff(check, cutoff);
    lemma_lerp_between(100_000, 1_000_000, low);
    lemma_lerp_between(100_000, green, low);
    lemma_lerp_between(800_000, 0, low);
    lemma_lerp_between(100_000, 500_000, low);
    lemma_lerp_between(800_000, 900_000, low);
    lemma_lerp_between(0, 1_000_000, high);
    lemma_lerp_between(0, 300_000, high);
    lemma_lerp_between(700_000, 200_000, high);
    let f = dynamic_rgb_fine(sin_time, normalized_distance, in_proximity, cutoff);
    lemma_in_thousandths_gamut(f.0 as int);
    lemma_in_thousandths_gamut(f.1 as int);
    lemma_in_thousandths_gamut(f.2 as int);
}

/// The plain colour has every channel between 0 and 1.
pub proof fn lemma_dynamic_rgb2_in_gamut(normalized_distance: int, in_proximity: bool, cutoff: int)
    ensures
        ({
            let f = dynamic_rgb2_fine(normalized_distance, in_proximity, cutoff);
            let c = dynamic_rgb2(normalized_distance, in_proximity, cutoff);
            &&& 0 <= f.0 <= 1_000_000 && 0 <= f.1 <= 1_000_000 && 0 <= f.2 <= 1_000_000
            &&& 0 <= c.0 <= 1000 && 0 <= c.1 <= 1000 && 0 <= c.2 <= 1000
        }),
{
    let check = intensity(normalized_distance);
    let low = below_cutoff(check, cutoff);
    let high = above_cutoff(check, cutoff);
    lemma_lerp_between(900_000, 1_000_000, low);
    lemma_lerp_between(0, 0, low);
    lemma_lerp_between(1_000_000, 900_000, high);
    lemma_lerp_between(0, 900_000, high);
    lemma_lerp_between(0, 0, high);
    let f = dynamic_rgb2_fine(normalized_distance, in_proximity, cutoff);
    lemma_in_thousandths_gamut(f.0 as int);
    lemma_in_thousandths_gamut(f.1 as int);
    lemma_in_thousandths_gamut(f.2 as int);
}

/// `smootherstep` is 0 at and below the lower edge and 1 at and above the
/// upper edge.
pub proof fn lemma_smootherstep_ends(edge0: int, edge1: int, x: int)
    requires
        edge0 < edge1,
    ensures
        x <= edge0 ==> smootherstep_value(edge0, edge1, x) == 0,
        x >= edge1 ==> smootherstep_value(edge0, edge1, x) == 1000,
{
    let span = edge1 - edge0;
    let q = ((x - edge0) * 1_000_000) / span;
    if x <= edge0 {
        vstd::arithmetic::div_mod::lemma_div_is_ordered((x - edge0) * 1_000_000, 0, span);
        assert(0int / span == 0) by (nonlinear_arith)
            requires
                span > 0,
        ;
        assert(q <= 0);
        assert(smoother_numerator(0) == 0) by (nonlinear_arith);
        lemma_round_div_sign(0, 1_000_000_000_000_000_000_000_000_000);
    }
    if x >= edge1 {
        vstd::arithmetic::div_mod::lemma_div_is_ordered(
            span * 1_000_000,
            (x - edge0) * 1_000_000,
            span,
        );
        vstd::arithmetic::div_mod::lemma_div_multiples_vanish(1_000_000, span);
        assert(span * 1_000_000 == 1_000_000 * span);
        assert(q >= 1_000_000);
        assert(smoother_numerator(1_000_000) == 1000 * 1_000_000_000_000_000_000_000_000_000)
            by (nonlinear_arith);
        lemma_round_div_exact(1000, 1_000_000_000_000_000_000_000_000_000);
    }
}

/// The polynomial of `smootherstep` lies between 0 and 1.
pub proof fn lemma_smoother_numerator_range(t: int)
    requires
        0 <= t <= 1_000_000,
    ensures
        0 <= smoother_numerator(t) <= 1000 * 1_000_000_000_000_000_000_000_000_000,
{
    let u = 1_000_000 - t;
    assert(smoother_numerator(t) >= 0) by (nonlinear_arith)
        requires
            0 <= t <= 1_000_000,
    {
        assert(t * (t * 6 - 15_000_000) + 10_000_000_000_000 >= 0);
        assert(t * t * t >= 0);
    }
    assert(smoother_numerator(u) >= 0) by (nonlinear_arith)
        requires
            0 <= u <= 1_000_000,
    {
        assert(u * (u * 6 - 15_000_000) + 10_000_000_000_000 >= 0);
        assert(u * u * u >= 0);
    }
    assert(smoother_numerator(t) + smoother_numerator(u) == 1000
        * 1_000_000_000_000_000_000_000_000_000) by (nonlinear_arith)
        requires
            u == 1_000_000 - t,
    ;
}

/// `smootherstep` stays between 0 and 1.
pub proof fn lemma_smootherstep_range(edge0: int, edge1: int, x: int)
    requires
        edge0 < edge1,
    ensures
        0 <= smootherstep_value(edge0, edge1, x) <= 1000,
{
    let t = edge_position(edge0, edge1, x);
    lemma_smoother_numerator_range(t);
    lemma_round_div_sign(smoother_numerator(t), 1_000_000_000_000_000_000_000_000_000);
    lemma_round_div_bound(smoother_numerator(t), 1_000_000_000_000_000_000_000_000_000, 1000);
}

/// Linear interpolation between `a` and `b` by the factor `t` in units of
/// 10^-9, which is limited to the interval from 0 to 1.
pub fn lerp(a: i32, b: i32, t: i64) -> (r: i32)
    ensures
        r == lerp_value(a as int, b as int, t as int),
{
    let c: i64 = if t < 0 {
        0
    } else if t > 1_000_000_000 {
        1_000_000_000
    } else {
        t
    };
    let span: i64 = b as i64 - a as i64;
    proof {
        lemma_lerp_between(a as int, b as int, t as int);
        assert(-0x1_0000_0000 * 1_000_000_000 <= span * c <= 0x1_0000_0000 * 1_000_000_000)
            by (nonlinear_arith)
            requires
                -0x1_0000_0000 <= span <= 0x1_0000_0000,
                0 <= c <= 1_000_000_000,
        ;
    }
    let r: i128 = a as i128 + div_round(span as i128 * c as i128, 1_000_000_000);
    r as i32
}

/// Channel-wise interpolation between two colours given as triples, by a
/// factor in units of 10^-9.
pub fn interpolate_colors(color1: (i32, i32, i32), color2: (i32, i32, i32), factor: i64) -> (c: (
    i32,
    i32,
    i32,
))
    ensures
        c == mixed(color1, color2, factor as int),
{
    let r: i32 = lerp(color1.0, color2.0, factor);
    let g: i32 = lerp(color1.1, color2.1, factor);
    let b: i32 = lerp(color1.2, color2.2, factor);
    (r, g, b)
}

/// The pulsing channel for the sine of the creature's time, in
/// millionths.
pub fn pulse_of(sin_time: i32) -> (p: i32)
    ensures
        p == pulse(sin_time as int),
        750_000 <= p <= 1_000_000,
{
    let s: i32 = if sin_time < -1000 {
        -1000
    } else if sin_time > 1000 {
        1000
    } else {
        sin_time
    };
    875_000 + 125 * s
}

/// The share of `part` in `whole` as a factor of an interpolation, limited
/// to the interval from 0 to 1.
pub fn share(part: i64, whole: i64) -> (factor: i64)
    requires
        0 < whole,
    ensures
        factor == clamp_int((part * 1_000_000_000) / (whole as int), 0, 1_000_000_000),
{
    let exact: i128 = crate::fixed::div_floor_wide(part as i128 * 1_000_000_000, whole as i128);
    if exact < 0 {
        0
    } else if exact > 1_000_000_000 {
        1_000_000_000
    } else {
        exact as i64
    }
}

/// A colour of the given channels in millionths, opaque.
pub fn opaque(channels: (i32, i32, i32)) -> (color: Color)
    requires
        0 <= channels.0 <= 1_000_000,
        0 <= channels.1 <= 1_000_000,
        0 <= channels.2 <= 1_000_000,
    ensures
        (color.r, color.g, color.b) == in_thousandths(channels),
        color.a == 1000,
        color.in_gamut(),
{
    proof {
        lemma_in_thousandths_gamut(channels.0 as int);
        lemma_in_thousandths_gamut(channels.1 as int);
        lemma_in_thousandths_gamut(channels.2 as int);
    }
    Color {
        r: div_round(channels.0 as i128, 1000) as i32,
        g: div_round(channels.1 as i128, 1000) as i32,
        b: div_round(channels.2 as i128, 1000) as i32,
        a: 1000,
    }
}

/// The colour of a creature: far creatures fade from blue towards a
/// pulsing yellow, near ones towards a pulsing violet, and those beyond the
/// cutoff from deep blue towards red. Opaque.
pub fn get_dynamic_color(
    sin_time: i32,
    normalized_distance: i32,
    in_proximity: bool,
    cutoff: i32,
) -> (color: Color)
    ensures
        (color.r, color.g, color.b) == dynamic_rgb(
            sin_time as int,
            normalized_distance as int,
            in_proximity,
            cutoff as int,
        ),
        color.a == 1000,
        color.in_gamut(),
{
    let check: i64 = 600 + normalized_distance as i64 * 10;
    let dynamic_green: i32 = pulse_of(sin_time);
    proof {
        lemma_dynamic_rgb_in_gamut(
            sin_time as int,
            normalized_distance as int,
            in_proximity,
            cutoff as int,
        );
    }
    let color: (i32, i32, i32) = if !in_proximity {
        let factor: i64 = share(cutoff as i64 - check, 6400);
        interpolate_colors((100_000, 100_000, 800_000), (1_000_000, dynamic_green, 0), factor)
    } else if check < cutoff as i64 {
        let factor: i64 = share(cutoff as i64 - check, 6400);
        interpolate_colors(
            (100_000, 100_000, 800_000),
            (500_000, dynamic_green, 900_000),
            factor,
        )
    } else {
        let factor: i64 = share(check - cutoff as i64, 3000);
        interpolate_colors((0, 0, 700_000), (1_000_000, 300_000, 200_000), factor)
    };
    opaque(color)
}

/// The plain colour of a creature, which does not pulse: yellow when far,
/// otherwise between two yellows below the cutoff and between red and
/// yellow beyond it. Opaque.
pub fn get_dynamic_color2(
    _sin_time: i32,
    normalized_distance: i32,
    in_proximity: bool,
    cutoff: i32,
) -> (color: Color)
    ensures
        (color.r, color.g, color.b) == dynamic_rgb2(
            normalized_distance as int,
            in_proximity,
            cutoff as int,
        ),
        color.a == 1000,
        color.in_gamut(),
{
    let check: i64 = 600 + normalized_distance as i64 * 10;
    proof {
        lemma_dynamic_rgb2_in_gamut(normalized_distance as int, in_proximity, cutoff as int);
    }
    let color: (i32, i32, i32) = if !in_proximity {
        (1_000_000, 1_000_000, 0)
    } else if check < cutoff as i64 {
        let factor: i64 = share(cutoff as i64 - check, 6400);
        interpolate_colors((900_000, 900_000, 0), (1_000_000, 1_000_000, 0), factor)
    } else {
        let factor: i64 = share(check - cutoff as i64, 3000);
        interpolate_colors((1_000_000, 0, 0), (900_000, 900_000, 0), factor)
    };
    opaque(color)
}

/// The smooth step `t^3 (6 t^2 - 15 t + 10)` of the position of `x`
/// between the two edges.
pub fn smootherstep(edge0: i32, edge1: i32, x: i32) -> (s: i32)
    requires
        edge0 < edge1,
    ensures
        s == smootherstep_value(edge0 as int, edge1 as int, x as int),
        0 <= s <= 1000,
{
    proof {
        lemma_smootherstep_range(edge0 as int, edge1 as int, x as int);
    }
    let span: i64 = edge1 as i64 - edge0 as i64;
    let q: i64 = div_floor((x as i64 - edge0 as i64) * 1_000_000, span);
    let t: i64 = if q < 0 {
        0
    } else if q > 1_000_000 {
        1_000_000
    } else {
        q
    };
    proof {
        lemma_smoother_numerator_range(t as int);
    }
    assert(0 <= t * t <= 1_000_000_000_000 && 0 <= t * t * t <= 1_000_000_000_000_000_000)
        by (nonlinear_arith)
        requires
            0 <= t <= 1_000_000,
    ;
    let cube: i64 = t * t * t;
    assert(-9_000_000_000_000 <= t * (t * 6 - 15_000_000) <= 0) by (nonlinear_arith)
        requires
            0 <= t <= 1_000_000,
    ;
    let poly: i64 = t * (t * 6 - 15_000_000) + 10_000_000_000_000;
    assert(0 <= cube * poly <= 10_000_000_000_000_000_000_000_000_000_000) by (nonlinear_arith)
        requires
            0 <= cube <= 1_000_000_000_000_000_000,
            0 <= poly <= 10_000_000_000_000,
    ;
    let s: i128 = div_round(cube as i128 * poly as i128, 1_000_000_000_000_000_000_000_000_000);
    s as i32
}

} // verus!
