//! Plain value types: points, axis-aligned boxes and colours, all in
//! thousandths.

use vstd::prelude::*;
use crate::fixed::{
    div_round,
    lemma_round_div_bound,
    round_div,
    COORD_LIMIT,
    is_sqrt_floor,
    isqrt,
    lemma_sqrt_floor_exists,
    sqrt_floor,
    square,
};

verus! {

/// A position or a displacement in the plane.
#[derive(Clone, Copy, Debug, PartialEq, Eq, Structural)]
pub struct Point {
    pub x: i32,
    pub y: i32,
}

/// A point in the fine unit, of which 10^15 make a thousandth. Products of
/// a length in millionths and a direction in units of 10^-12 are held in
/// it without rounding.
#[derive(Clone, Copy, Debug, PartialEq, Eq, Structural)]
pub struct FinePoint {
    pub x: i128,
    pub y: i128,
}

/// An axis-aligned box: its corner of least coordinates, width and height.
#[derive(Clone, Copy, Debug, PartialEq, Eq, Structural)]
pub struct Rect {
    pub x: i32,
    pub y: i32,
    pub w: i32,
    pub h: i32,
}

/// A colour; each channel runs from 0 to 1000.
#[derive(Clone, Copy, Debug, PartialEq, Eq, Structural)]
pub struct Color {
    pub r: i32,
    pub g: i32,
    pub b: i32,
    pub a: i32,
}

impl Point {
    /// The point `(x, y)`.
    pub fn new(x: i32, y: i32) -> (p: Point)
        ensures
            p == (Point { x, y }),
    {
        Point { x, y }
    }

    /// Both coordinates lie within the coordinate limit.
    pub open spec fn in_limits(self) -> bool {
        -COORD_LIMIT <= self.x <= COORD_LIMIT && -COORD_LIMIT <= self.y <= COORD_LIMIT
    }

    /// Whether both coordinates lie within the coordinate limit.
    pub fn is_in_limits(&self) -> (inside: bool)
        ensures
            inside == self.in_limits(),
    {
        -COORD_LIMIT <= self.x && self.x <= COORD_LIMIT && -COORD_LIMIT <= self.y && self.y
            <= COORD_LIMIT
    }
}

impl FinePoint {
    /// Rounded to thousandths, both coordinates fit the coordinates of a
    /// `Point`.
    pub open spec fn fits(self) -> bool {
        &&& -2_147_483_647 * 1_000_000_000_000_000 <= self.x <= 2_147_483_647
            * 1_000_000_000_000_000
        &&& -2_147_483_647 * 1_000_000_000_000_000 <= self.y <= 2_147_483_647
            * 1_000_000_000_000_000
    }
}

impl Rect {
    /// The box with corner `(x, y)`, width `w` and height `h`.
    pub fn new(x: i32, y: i32, w: i32, h: i32) -> (r: Rect)
        ensures
            r == (Rect { x, y, w, h }),
    {
        Rect { x, y, w, h }
    }

    /// Twice the horizontal coordinate of the centre.
    pub open spec fn doubled_center_x(self) -> int {
        2 * self.x + self.w
    }

    /// Twice the vertical coordinate of the centre.
    pub open spec fn doubled_center_y(self) -> int {
        2 * self.y + self.h
    }
}

/// Square of the distance between two points.
pub open spec fn distance_squared(from: Point, to: Point) -> int {
    (to.x - from.x) * (to.x - from.x) + (to.y - from.y) * (to.y - from.y)
}

/// Euclidean distance between two points, rounded down.
pub open spec fn distance(from: Point, to: Point) -> int {
    sqrt_floor(distance_squared(from, to))
}

/// Euclidean distance between two points in units of 10^-12, rounded
/// down.
pub open spec fn fine_distance(from: Point, to: Point) -> int {
    sqrt_floor(distance_squared(from, to) * 1_000_000_000_000_000_000)
}

/// The point that lies `forward` from `from` in the direction of `to` and
/// `sideways` to the left of that direction, each coordinate rounded to
/// the nearest thousandth; `from` itself where the two points coincide.
pub open spec fn displaced(from: Point, to: Point, forward: int, sideways: int) -> Point {
    let d = fine_distance(from, to);
    let dx = to.x - from.x;
    let dy = to.y - from.y;
    if d == 0 {
        from
    } else {
        Point {
            x: (from.x + round_div((dx * forward - dy * sideways) * 1_000_000_000, d)) as i32,
            y: (from.y + round_div((dy * forward + dx * sideways) * 1_000_000_000, d)) as i32,
        }
    }
}

/// Neither coordinate difference exceeds the distance, and the distance is
/// 0 only between coinciding points.
pub proof fn lemma_distance_bounds(from: Point, to: Point)
    ensures
        0 <= distance(from, to) <= 0x1_8000_0000,
        -distance(from, to) <= to.x - from.x <= distance(from, to),
        -distance(from, to) <= to.y - from.y <= distance(from, to),
        distance(from, to) == 0 <==> from == to,
{
    let dx = to.x - from.x;
    let dy = to.y - from.y;
    let n = distance_squared(from, to);
    assert(0 <= dx * dx && 0 <= dy * dy) by (nonlinear_arith);
    let d = distance(from, to);
    lemma_sqrt_floor_exists(n);
    assert(is_sqrt_floor(n, d));
    assert(-d <= dx <= d) by (nonlinear_arith)
        requires
            0 <= d,
            dx * dx <= n,
            n < (d + 1) * (d + 1),
    ;
    assert(-d <= dy <= d) by (nonlinear_arith)
        requires
            0 <= d,
            dy * dy <= n,
            n < (d + 1) * (d + 1),
    ;
    assert(d <= 0x1_8000_0000) by (nonlinear_arith)
        requires
            d * d <= n,
            n == dx * dx + dy * dy,
            -0x1_0000_0000 <= dx <= 0x1_0000_0000,
            -0x1_0000_0000 <= dy <= 0x1_0000_0000,
    ;
    if from == to {
        assert(dx * dx == 0 && dy * dy == 0) by (nonlinear_arith)
            requires
                dx == 0,
                dy == 0,
        ;
        assert(d == 0) by (nonlinear_arith)
            requires
                0 <= d,
                d * d <= 0,
        ;
    }
}

/// Neither coordinate difference exceeds the fine distance, and the fine
/// distance is 0 only between coinciding points.
pub proof fn lemma_fine_distance_bounds(from: Point, to: Point)
    ensures
        0 <= fine_distance(from, to) <= 7_000_000_000_000_000_000,
        -fine_distance(from, to) <= (to.x - from.x) * 1_000_000_000 <= fine_distance(from, to),
        -fine_distance(from, to) <= (to.y - from.y) * 1_000_000_000 <= fine_distance(from, to),
        fine_distance(from, to) == 0 <==> from == to,
{
    let a = (to.x - from.x) * 1_000_000_000;
    let b = (to.y - from.y) * 1_000_000_000;
    let n = distance_squared(from, to) * 1_000_000_000_000_000_000;
    assert(n == a * a + b * b && 0 <= a * a && 0 <= b * b) by (nonlinear_arith)
        requires
            n == ((to.x - from.x) * (to.x - from.x) + (to.y - from.y) * (to.y - from.y))
                * 1_000_000_000_000_000_000,
            a == (to.x - from.x) * 1_000_000_000,
            b == (to.y - from.y) * 1_000_000_000,
    ;
    let d = fine_distance(from, to);
    lemma_sqrt_floor_exists(n);
    assert(is_sqrt_floor(n, d));
    assert(-d <= a <= d) by (nonlinear_arith)
        requires
            0 <= d,
            a * a <= n,
            n < (d + 1) * (d + 1),
    ;
    assert(-d <= b <= d) by (nonlinear_arith)
        requires
            0 <= d,
            b * b <= n,
            n < (d + 1) * (d + 1),
    ;
    assert(d <= 7_000_000_000_000_000_000) by (nonlinear_arith)
        requires
            d * d <= n,
            n == a * a + b * b,
            -4_294_967_296_000_000_000 <= a <= 4_294_967_296_000_000_000,
            -4_294_967_296_000_000_000 <= b <= 4_294_967_296_000_000_000,
    ;
    if from == to {
        assert(a * a == 0 && b * b == 0) by (nonlinear_arith)
            requires
                a == 0,
                b == 0,
        ;
        assert(d == 0) by (nonlinear_arith)
            requires
                0 <= d,
                d * d <= 0,
        ;
    }
}

/// A displaced point is no farther from its origin, on either axis, than
/// the two displacements together.
pub proof fn lemma_displaced_bounds(from: Point, to: Point, forward: int, sideways: int)
    requires
        from.in_limits(),
        0 <= forward,
        forward + sideways <= 1_100_000_000,
        forward - sideways <= 1_100_000_000,
    ensures
        ({
            let dx = to.x - from.x;
            let dy = to.y - from.y;
            let d = fine_distance(from, to);
            let reach = if sideways < 0 {
                forward - sideways
            } else {
                forward + sideways
            };
            &&& d > 0 ==> -reach <= round_div(
                (dx * forward - dy * sideways) * 1_000_000_000,
                d,
            ) <= reach
            &&& d > 0 ==> -reach <= round_div(
                (dy * forward + dx * sideways) * 1_000_000_000,
                d,
            ) <= reach
            &&& from.x - reach <= displaced(from, to, forward, sideways).x <= from.x + reach
            &&& from.y - reach <= displaced(from, to, forward, sideways).y <= from.y + reach
            &&& from == to ==> displaced(from, to, forward, sideways) == from
        }),
{
    lemma_fine_distance_bounds(from, to);
    let dx = to.x - from.x;
    let dy = to.y - from.y;
    let d = fine_distance(from, to);
    let a = dx * 1_000_000_000;
    let b = dy * 1_000_000_000;
    let s = if sideways < 0 {
        -sideways
    } else {
        sideways
    };
    let reach = forward + s;
    if d > 0 {
        assert(-(reach * d) <= (dx * forward - dy * sideways) * 1_000_000_000 <= reach * d && -(
        reach * d) <= (dy * forward + dx * sideways) * 1_000_000_000 <= reach * d)
            by (nonlinear_arith)
            requires
                a == dx * 1_000_000_000,
                b == dy * 1_000_000_000,
                -d <= a <= d,
                -d <= b <= d,
                0 <= forward,
                0 <= s,
                s == sideways || s == -sideways,
                reach == forward + s,
        ;
        lemma_round_div_bound((dx * forward - dy * sideways) * 1_000_000_000, d, reach);
        lemma_round_div_bound((dy * forward + dx * sideways) * 1_000_000_000, d, reach);
    }
}

/// Euclidean distance between two points, rounded down.
pub fn distance_to(from: &Point, to: &Point) -> (d: i64)
    ensures
        d == distance(*from, *to),
        0 <= d <= 0x1_8000_0000,
{
    let sx: u128 = square(to.x as i64 - from.x as i64);
    let sy: u128 = square(to.y as i64 - from.y as i64);
    assert(sx <= 0x1_0000_0000_0000_0000 && sy <= 0x1_0000_0000_0000_0000) by (nonlinear_arith)
        requires
            -0x1_0000_0000 <= to.x - from.x <= 0x1_0000_0000,
            -0x1_0000_0000 <= to.y - from.y <= 0x1_0000_0000,
            sx == (to.x - from.x) * (to.x - from.x),
            sy == (to.y - from.y) * (to.y - from.y),
    ;
    let r: u64 = isqrt(sx + sy);
    proof {
        lemma_distance_bounds(*from, *to);
    }
    r as i64
}

/// Euclidean distance between two points in units of 10^-12, rounded
/// down.
pub fn fine_distance_to(from: &Point, to: &Point) -> (d: u64)
    ensures
        d == fine_distance(*from, *to),
        d <= 7_000_000_000_000_000_000,
{
    let dx: i64 = to.x as i64 - from.x as i64;
    let dy: i64 = to.y as i64 - from.y as i64;
    let sx: u128 = square(dx);
    let sy: u128 = square(dy);
    assert(sx <= 0x1_0000_0000_0000_0000 && sy <= 0x1_0000_0000_0000_0000) by (nonlinear_arith)
        requires
            -0x1_0000_0000 <= dx <= 0x1_0000_0000,
            -0x1_0000_0000 <= dy <= 0x1_0000_0000,
            sx == dx * dx,
            sy == dy * dy,
    ;
    proof {
        lemma_fine_distance_bounds(*from, *to);
    }
    isqrt((sx + sy) * 1_000_000_000_000_000_000)
}

/// The point that lies `forward` from `from` in the direction of `to` and
/// `sideways` to the left of that direction.
pub fn displace(from: &Point, to: &Point, forward: i64, sideways: i64) -> (p: Point)
    requires
        from.in_limits(),
        0 <= forward,
        forward + sideways <= 1_100_000_000,
        forward - sideways <= 1_100_000_000,
    ensures
        p == displaced(*from, *to, forward as int, sideways as int),
{
    let dx: i64 = to.x as i64 - from.x as i64;
    let dy: i64 = to.y as i64 - from.y as i64;
    let d: u64 = fine_distance_to(from, to);
    proof {
        lemma_displaced_bounds(*from, *to, forward as int, sideways as int);
    }
    if d == 0 {
        *from
    } else {
        assert(-0x8_0000_0000_0000_0000 <= dx * forward <= 0x8_0000_0000_0000_0000
            && -0x8_0000_0000_0000_0000 <= dy * sideways <= 0x8_0000_0000_0000_0000
            && -0x8_0000_0000_0000_0000 <= dy * forward <= 0x8_0000_0000_0000_0000
            && -0x8_0000_0000_0000_0000 <= dx * sideways <= 0x8_0000_0000_0000_0000)
            by (nonlinear_arith)
            requires
                -0x1_0000_0000 <= dx <= 0x1_0000_0000,
                -0x1_0000_0000 <= dy <= 0x1_0000_0000,
                0 <= forward <= 0x8000_0000,
                -0x8000_0000 <= sideways <= 0x8000_0000,
        ;
        let along: i128 = (dx as i128 * forward as i128 - dy as i128 * sideways as i128)
            * 1_000_000_000;
        let across: i128 = (dy as i128 * forward as i128 + dx as i128 * sideways as i128)
            * 1_000_000_000;
        let x: i128 = from.x as i128 + div_round(along, d as i128);
        let y: i128 = from.y as i128 + div_round(across, d as i128);
        Point { x: x as i32, y: y as i32 }
    }
}

impl Color {
    /// The colour of the given red, green, blue and opacity.
    pub fn new(r: i32, g: i32, b: i32, a: i32) -> (c: Color)
        ensures
            c == (Color { r, g, b, a }),
    {
        Color { r, g, b, a }
    }

    /// Every channel lies between 0 and 1000.
    pub open spec fn in_gamut(self) -> bool {
        0 <= self.r <= 1000 && 0 <= self.g <= 1000 && 0 <= self.b <= 1000 && 0 <= self.a <= 1000
    }
}

} // verus!
