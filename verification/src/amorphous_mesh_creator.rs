//! The blob generator: a closed polygon of twenty vertices around the
//! centre of a creature, pushed in and out by noise and smoothed once.
//!
//! The noise itself is sampled by the caller: `blob_sample_points` says
//! where, `create_amorphous_mesh` takes the samples.
//!
//! Directions are held in units of 10^-12 and radii in millionths, and
//! their products are not rounded. A coordinate is rounded once, to the
//! nearest thousandth, when the mean of three vertices is taken.

use vstd::prelude::*;
use crate::fixed::{div_round, lemma_round_div_bound, lemma_round_div_nearest, round_div};
use crate::geometry::{FinePoint, Point};
use crate::noise_field::{noise_sample, sample_at};

verus! {

/// Number of vertices of a blob.
pub const NUM_POINTS: usize = 20;

/// Cosine of `i` twentieths of a full turn, in units of 10^-12.
pub open spec fn unit_cos(i: int) -> int {
    let k = if i > 10 {
        20 - i
    } else {
        i
    };
    if k == 0 {
        1_000_000_000_000
    } else if k == 1 {
        951_056_516_295
    } else if k == 2 {
        809_016_994_375
    } else if k == 3 {
        587_785_252_292
    } else if k == 4 {
        309_016_994_375
    } else if k == 5 {
        0
    } else if k == 6 {
        -309_016_994_375
    } else if k == 7 {
        -587_785_252_292
    } else if k == 8 {
        -809_016_994_375
    } else if k == 9 {
        -951_056_516_295
    } else {
        -1_000_000_000_000
    }
}

/// Sine of `i` twentieths of a full turn, in units of 10^-12: the cosine a
/// quarter turn earlier.
pub open spec fn unit_sin(i: int) -> int {
    unit_cos((i + 15) % 20)
}

/// The polynomial `4 x^2 - 2 x - 1`, whose positive root is the cosine of
/// a tenth of a turn, for an `x` in units of 10^-12.
pub open spec fn tenth_turn_polynomial(x: int) -> int {
    4 * x * x - 2 * 1_000_000_000_000 * x - 1_000_000_000_000 * 1_000_000_000_000
}

/// The polynomial `4 x^2 + 2 x - 1`, whose positive root is the cosine of
/// a fifth of a turn, for an `x` in units of 10^-12.
pub open spec fn fifth_turn_polynomial(x: int) -> int {
    4 * x * x + 2 * 1_000_000_000_000 * x - 1_000_000_000_000 * 1_000_000_000_000
}

/// The polynomial `16 x^4 - 20 x^2 + 5`, whose positive roots are the
/// cosines of a twentieth and of three twentieths of a turn, for an `x` in
/// units of 10^-12.
pub open spec fn twentieth_turn_polynomial(x: int) -> int {
    16 * (x * x) * (x * x) - 20 * (1_000_000_000_000 * 1_000_000_000_000) * (x * x) + 5 * (
    1_000_000_000_000 * 1_000_000_000_000) * (1_000_000_000_000 * 1_000_000_000_000)
}

/// Every entry of the table lies within 10^-12 of the cosine that it
/// stands for: the polynomial of which that cosine is a root changes its
/// sign between the entry less one and the entry plus one.
pub proof fn lemma_unit_table_is_exact()
    ensures
        unit_cos(0) == 1_000_000_000_000,
        unit_cos(5) == 0,
        twentieth_turn_polynomial(unit_cos(1) - 1) < 0 < twentieth_turn_polynomial(unit_cos(1) + 1),
        tenth_turn_polynomial(unit_cos(2) - 1) < 0 < tenth_turn_polynomial(unit_cos(2) + 1),
        twentieth_turn_polynomial(unit_cos(3) + 1) < 0 < twentieth_turn_polynomial(unit_cos(3) - 1),
        fifth_turn_polynomial(unit_cos(4) - 1) < 0 < fifth_turn_polynomial(unit_cos(4) + 1),
        forall|i: int| 0 <= i <= 10 ==> unit_cos(10 + i) == -#[trigger] unit_cos(i),
        forall|i: int| 0 <= i <= 10 ==> unit_cos(10 - i) == -#[trigger] unit_cos(i),
{
    assert(twentieth_turn_polynomial(951_056_516_294) < 0 < twentieth_turn_polynomial(
        951_056_516_296,
    )) by (nonlinear_arith);
    assert(tenth_turn_polynomial(809_016_994_374) < 0 < tenth_turn_polynomial(809_016_994_376))
        by (nonlinear_arith);
    assert(twentieth_turn_polynomial(587_785_252_293) < 0 < twentieth_turn_polynomial(
        587_785_252_291,
    )) by (nonlinear_arith);
    assert(fifth_turn_polynomial(309_016_994_374) < 0 < fifth_turn_polynomial(309_016_994_376))
        by (nonlinear_arith);
}

/// The sum of the squares of a tabulated cosine and sine is 1 up to
/// 10^-12.
proof fn lemma_norm_of(c: int, s: int)
    by (nonlinear_arith)
    requires
        ((c == 1_000_000_000_000 || c == -1_000_000_000_000) && s == 0) || ((c == 951_056_516_295
            || c == -951_056_516_295) && (s == 309_016_994_375 || s == -309_016_994_375)) || ((c
            == 809_016_994_375 || c == -809_016_994_375) && (s == 587_785_252_292 || s
            == -587_785_252_292)) || ((c == 587_785_252_292 || c == -587_785_252_292) && (s
            == 809_016_994_375 || s == -809_016_994_375)) || ((c == 309_016_994_375 || c
            == -309_016_994_375) && (s == 951_056_516_295 || s == -951_056_516_295)) || (c == 0
            && (s == 1_000_000_000_000 || s == -1_000_000_000_000)),
    ensures
        999_999_999_999_000_000_000_000 <= c * c + s * s <= 1_000_000_000_001_000_000_000_000,
{
}

/// The tabulated directions are unit vectors up to rounding.
pub proof fn lemma_unit_directions(i: int)
    requires
        0 <= i < 20,
    ensures
        -1_000_000_000_000 <= unit_cos(i) <= 1_000_000_000_000,
        -1_000_000_000_000 <= unit_sin(i) <= 1_000_000_000_000,
        999_999_999_999_000_000_000_000 <= unit_cos(i) * unit_cos(i) + unit_sin(i) * unit_sin(i)
            <= 1_000_000_000_001_000_000_000_000,
{
    lemma_norm_of(unit_cos(i), unit_sin(i));
}

/// How the scales of the noise follow the agent.
#[derive(Clone, Copy, Debug, PartialEq, Eq, Structural)]
pub enum NoiseMode {
    /// The scales grow with the closeness, without a jump.
    Interpolated,
    /// The scales take the far values away from the agent and the near
    /// values in its proximity.
    Discrete,
}

/// Scale of the angle in noise space under the interpolated mode, in
/// millionths: from 0.3 at closeness 0 to 0.6 at closeness 1.
pub open spec fn noise_scale(closeness: int) -> int {
    300_000 + 300 * closeness
}

/// Speed of the drift through noise space under the interpolated mode, in
/// millionths: from 0.2 at closeness 0 to 0.6 at closeness 1.
pub open spec fn time_scale(closeness: int) -> int {
    200_000 + 400 * closeness
}

/// Scale of the angle in noise space, in millionths: interpolated, or 0.3
/// far from the agent and 0.6 in its proximity.
pub open spec fn noise_scale_in(mode: NoiseMode, in_proximity: bool, closeness: int) -> int {
    match mode {
        NoiseMode::Interpolated => noise_scale(closeness),
        NoiseMode::Discrete => if in_proximity {
            600_000
        } else {
            300_000
        },
    }
}

/// Speed of the drift through noise space, in millionths: interpolated, or
/// 0.2 far from the agent and, in its proximity, 0.6 and a tenth of the
/// closeness.
pub open spec fn time_scale_in(mode: NoiseMode, in_proximity: bool, closeness: int) -> int {
    match mode {
        NoiseMode::Interpolated => time_scale(closeness),
        NoiseMode::Discrete => if in_proximity {
            600_000 + 100 * closeness
        } else {
            200_000
        },
    }
}

/// Where the noise field is sampled for vertex `i` under the given scales:
/// on a circle of the radius `noise_scale` that has drifted along the
/// diagonal by the time multiplied by `time_scale`, each coordinate
/// rounded to the nearest thousandth.
pub open spec fn sample_point_at(i: int, time: int, noise_scale: int, time_scale: int) -> Point {
    let drift = time * time_scale * 1_000_000_000;
    Point {
        x: round_div(unit_cos(i) * noise_scale + drift, 1_000_000_000_000_000) as i32,
        y: round_div(unit_sin(i) * noise_scale + drift, 1_000_000_000_000_000) as i32,
    }
}

/// Where the noise field is sampled for vertex `i` under the interpolated
/// mode.
pub open spec fn sample_point(i: int, time: int, closeness: int) -> Point {
    sample_point_at(i, time, noise_scale(closeness), time_scale(closeness))
}

/// Where the noise field is sampled for vertex `i`.
pub open spec fn sample_point_in(
    mode: NoiseMode,
    i: int,
    time: int,
    in_proximity: bool,
    closeness: int,
) -> Point {
    sample_point_at(
        i,
        time,
        noise_scale_in(mode, in_proximity, closeness),
        time_scale_in(mode, in_proximity, closeness),
    )
}

/// Under the interpolated mode the proximity flag plays no part.
pub proof fn lemma_interpolated_ignores_proximity(
    i: int,
    time: int,
    in_proximity: bool,
    closeness: int,
)
    ensures
        sample_point_in(NoiseMode::Interpolated, i, time, in_proximity, closeness) == sample_point(
            i,
            time,
            closeness,
        ),
{
}

/// Half the size, in millionths.
pub open spec fn base_radius(size: int) -> int {
    size * 500
}

/// The least radius of a vertex, in millionths: 0.4 of the base radius.
pub open spec fn min_radius(size: int) -> int {
    size * 200
}

/// How far the noise sample `n` moves a vertex, in millionths: the sample
/// times the base radius times the closeness, rounded to the nearest.
pub open spec fn noise_offset(size: int, n: int, closeness: int) -> int {
    round_div(n * closeness * size, 2000)
}

/// Radius of a vertex whose noise sample is `n`, in millionths.
pub open spec fn blob_radius(size: int, n: int, closeness: int) -> int {
    let r = base_radius(size) + noise_offset(size, n, closeness);
    if r < min_radius(size) {
        min_radius(size)
    } else {
        r
    }
}

/// Vertex `i` before smoothing, in the fine unit.
pub open spec fn raw_vertex(i: int, size: int, n: int, closeness: int) -> FinePoint {
    let r = blob_radius(size, n, closeness);
    FinePoint { x: (r * unit_cos(i)) as i128, y: (r * unit_sin(i)) as i128 }
}

/// The twenty vertices before smoothing.
pub open spec fn raw_vertices(size: int, noise: Seq<i32>, closeness: int) -> Seq<FinePoint> {
    Seq::new(20, |i: int| raw_vertex(i, size, sample_at(noise, i), closeness))
}

/// Vertex `i` after smoothing: the mean of the vertex and its two
/// neighbours on the closed outline, each coordinate rounded to the
/// nearest thousandth.
pub open spec fn smoothed_at(points: Seq<FinePoint>, i: int) -> Point {
    let len = points.len() as int;
    let prev = points[(i + len - 1) % len];
    let next = points[(i + 1) % len];
    Point {
        x: round_div(prev.x + points[i].x + next.x, 3_000_000_000_000_000) as i32,
        y: round_div(prev.y + points[i].y + next.y, 3_000_000_000_000_000) as i32,
    }
}

/// The smoothed outline.
pub open spec fn smoothed(points: Seq<FinePoint>) -> Seq<Point> {
    Seq::new(points.len(), |i: int| smoothed_at(points, i))
}

/// The polygon of a creature of the given size under the given noise
/// samples and closeness.
pub open spec fn blob_polygon(size: int, noise: Seq<i32>, closeness: int) -> Seq<Point> {
    smoothed(raw_vertices(size, noise, closeness))
}

/// The noise moves a vertex by at most the base radius.
pub proof fn lemma_noise_offset_bounds(size: int, n: int, closeness: int)
    requires
        0 <= size,
        0 <= closeness <= 1000,
        -1000 <= n <= 1000,
    ensures
        -base_radius(size) <= noise_offset(size, n, closeness) <= base_radius(size),
        n == 0 || closeness == 0 ==> noise_offset(size, n, closeness) == 0,
{
    let p = n * closeness;
    assert(-1_000_000 <= p <= 1_000_000 && (n == 0 || closeness == 0 ==> p == 0))
        by (nonlinear_arith)
        requires
            p == n * closeness,
            0 <= closeness <= 1000,
            -1000 <= n <= 1000,
    ;
    assert(-((size * 500) * 2000) <= p * size <= (size * 500) * 2000 && (p == 0 ==> p * size
        == 0)) by (nonlinear_arith)
        requires
            -1_000_000 <= p <= 1_000_000,
            0 <= size,
    ;
    lemma_round_div_bound(p * size, 2000, size * 500);
}

/// Whatever the noise, no radius falls below 0.4 of the base radius, and
/// none exceeds twice the base radius.
pub proof fn lemma_blob_radius_bounds(size: int, n: int, closeness: int)
    requires
        0 <= size,
        0 <= closeness <= 1000,
        -1000 <= n <= 1000,
    ensures
        blob_radius(size, n, closeness) >= min_radius(size),
        5 * min_radius(size) == 2 * base_radius(size),
        0 <= blob_radius(size, n, closeness) <= 2 * base_radius(size),
{
    lemma_noise_offset_bounds(size, n, closeness);
}

/// Without noise, and at closeness 0, every radius is the base radius.
pub proof fn lemma_blob_radius_still(size: int, n: int, closeness: int)
    requires
        0 <= size,
        0 <= closeness <= 1000,
        -1000 <= n <= 1000,
        n == 0 || closeness == 0,
    ensures
        blob_radius(size, n, closeness) == base_radius(size),
{
    lemma_noise_offset_bounds(size, n, closeness);
}

/// A smoothed coordinate is the arithmetic mean of three coordinates,
/// rounded to the nearest thousandth: it differs from the exact mean by at
/// most half a thousandth.
pub proof fn lemma_smoothed_is_mean(points: Seq<FinePoint>, i: int)
    requires
        0 <= i < points.len(),
        forall|k: int| 0 <= k < points.len() ==> (#[trigger] points[k]).fits(),
    ensures
        ({
            let len = points.len() as int;
            let prev = points[(i + len - 1) % len];
            let next = points[(i + 1) % len];
            let s = smoothed_at(points, i);
            let sum_x = prev.x + points[i].x + next.x;
            let sum_y = prev.y + points[i].y + next.y;
            &&& 2 * sum_x - 3_000_000_000_000_000 < 2 * (3_000_000_000_000_000 * s.x) <= 2
                * sum_x + 3_000_000_000_000_000
            &&& 2 * sum_y - 3_000_000_000_000_000 < 2 * (3_000_000_000_000_000 * s.y) <= 2
                * sum_y + 3_000_000_000_000_000
        }),
{
    let len = points.len() as int;
    let prev = points[(i + len - 1) % len];
    let next = points[(i + 1) % len];
    assert(prev.fits() && next.fits() && points[i].fits());
    let sum_x = prev.x + points[i].x + next.x;
    let sum_y = prev.y + points[i].y + next.y;
    lemma_round_div_nearest(sum_x, 3_000_000_000_000_000);
    lemma_round_div_nearest(sum_y, 3_000_000_000_000_000);
    lemma_round_div_bound(sum_x, 3_000_000_000_000_000, 2_147_483_647);
    lemma_round_div_bound(sum_y, 3_000_000_000_000_000, 2_147_483_647);
}

/// How far a point lies from the centre in the direction of vertex `i`,
/// in units of 10^-15.
pub open spec fn outward(i: int, p: Point) -> int {
    unit_cos(i) * p.x + unit_sin(i) * p.y
}

/// Two neighbouring directions of the table enclose an angle whose cosine
/// is at least 0.95.
proof fn lemma_neighbours_product(c: int, s: int, cn: int, sn: int)
    by (nonlinear_arith)
    requires
        (c == 1_000_000_000_000 && s == 0 && cn == 951_056_516_295 && sn
            == 309_016_994_375)
            || (c == 951_056_516_295 && s == 309_016_994_375 && cn == 809_016_994_375 && sn
            == 587_785_252_292)
            || (c == 809_016_994_375 && s == 587_785_252_292 && cn == 587_785_252_292 && sn
            == 809_016_994_375)
            || (c == 587_785_252_292 && s == 809_016_994_375 && cn == 309_016_994_375 && sn
            == 951_056_516_295)
            || (c == 309_016_994_375 && s == 951_056_516_295 && cn == 0 && sn
            == 1_000_000_000_000)
            || (c == 0 && s == 1_000_000_000_000 && cn == -309_016_994_375 && sn
            == 951_056_516_295)
            || (c == -309_016_994_375 && s == 951_056_516_295 && cn == -587_785_252_292 && sn
            == 809_016_994_375)
            || (c == -587_785_252_292 && s == 809_016_994_375 && cn == -809_016_994_375 && sn
            == 587_785_252_292)
            || (c == -809_016_994_375 && s == 587_785_252_292 && cn == -951_056_516_295 && sn
            == 309_016_994_375)
            || (c == -951_056_516_295 && s == 309_016_994_375 && cn == -1_000_000_000_000 && sn
            == 0)
            || (c == -1_000_000_000_000 && s == 0 && cn == -951_056_516_295 && sn
            == -309_016_994_375)
            || (c == -951_056_516_295 && s == -309_016_994_375 && cn == -809_016_994_375 && sn
            == -587_785_252_292)
            || (c == -809_016_994_375 && s == -587_785_252_292 && cn == -587_785_252_292 && sn
            == -809_016_994_375)
            || (c == -587_785_252_292 && s == -809_016_994_375 && cn == -309_016_994_375 && sn
            == -951_056_516_295)
            || (c == -309_016_994_375 && s == -951_056_516_295 && cn == 0 && sn
            == -1_000_000_000_000)
            || (c == 0 && s == -1_000_000_000_000 && cn == 309_016_994_375 && sn
            == -951_056_516_295)
            || (c == 309_016_994_375 && s == -951_056_516_295 && cn == 587_785_252_292 && sn
            == -809_016_994_375)
            || (c == 587_785_252_292 && s == -809_016_994_375 && cn == 809_016_994_375 && sn
            == -587_785_252_292)
            || (c == 809_016_994_375 && s == -587_785_252_292 && cn == 951_056_516_295 && sn
            == -309_016_994_375)
            || (c == 951_056_516_295 && s == -309_016_994_375 && cn == 1_000_000_000_000 && sn
            == 0),
    ensures
        c * cn + s * sn >= 950_000_000_000_000_000_000_000,
        cn * c + sn * s >= 950_000_000_000_000_000_000_000,
        c * c + s * s >= 950_000_000_000_000_000_000_000,
{
}

/// Two neighbouring directions of the table enclose an angle whose cosine
/// is at least 0.95.
pub proof fn lemma_neighbour_directions(i: int)
    requires
        0 <= i < 20,
    ensures
        unit_cos(i) * unit_cos((i + 1) % 20) + unit_sin(i) * unit_sin((i + 1) % 20)
            >= 950_000_000_000_000_000_000_000,
        unit_cos(i) * unit_cos((i + 19) % 20) + unit_sin(i) * unit_sin((i + 19) % 20)
            >= 950_000_000_000_000_000_000_000,
        unit_cos(i) * unit_cos(i) + unit_sin(i) * unit_sin(i) >= 950_000_000_000_000_000_000_000,
{
    let j = (i + 19) % 20;
    lemma_neighbours_product(
        unit_cos(i),
        unit_sin(i),
        unit_cos((i + 1) % 20),
        unit_sin((i + 1) % 20),
    );
    assert((j + 1) % 20 == i);
    lemma_neighbours_product(unit_cos(j), unit_sin(j), unit_cos(i), unit_sin(i));
}

/// A vertex at radius `r >= m` in a direction `(c, s)` lies at least
/// `0.95 m` outward in a direction `(ci, si)` that is its own or a
/// neighbour's.
proof fn lemma_vertex_outward(r: int, m: int, c: int, s: int, ci: int, si: int)
    by (nonlinear_arith)
    requires
        0 <= m <= r,
        ci * c + si * s >= 950_000_000_000_000_000_000_000,
    ensures
        ci * (r * c) + si * (r * s) >= 950_000_000_000_000_000_000_000 * m,
{
}

/// Rounding a coordinate to the nearest thousandth moves a point inward by
/// at most half a thousandth.
proof fn lemma_rounding_outward(ci: int, n: int, q: int)
    by (nonlinear_arith)
    requires
        -1_000_000_000_000 <= ci <= 1_000_000_000_000,
        2 * n - 3_000_000_000_000_000 < 2 * (3_000_000_000_000_000 * q) <= 2 * n
            + 3_000_000_000_000_000,
    ensures
        2 * (3_000_000_000_000_000 * (ci * q)) >= 2 * (ci * n) - 1_000_000_000_000
            * 3_000_000_000_000_000,
{
}

/// Smoothing keeps every vertex of the polygon outward: in its own
/// direction it lies at least 0.95 of the least radius from the centre, up
/// to a thousandth of rounding.
pub proof fn lemma_polygon_reaches_outward(size: int, noise: Seq<i32>, closeness: int, i: int)
    requires
        0 <= size <= i32::MAX,
        0 <= closeness <= 1000,
        0 <= i < 20,
    ensures
        outward(i, blob_polygon(size, noise, closeness)[i]) >= 950_000_000 * min_radius(size)
            - 1_000_000_000_000,
{
    let raw = raw_vertices(size, noise, closeness);
    let m = min_radius(size);
    let p = (i + 19) % 20;
    let n = (i + 1) % 20;
    let ci = unit_cos(i);
    let si = unit_sin(i);
    lemma_unit_directions(i);
    lemma_neighbour_directions(i);
    lemma_raw_vertices_fit(size, noise, closeness);
    assert forall|k: int|
        0 <= k < 20 && ci * unit_cos(k) + si * unit_sin(k)
            >= 950_000_000_000_000_000_000_000 implies ci * raw[k].x + si * raw[k].y
        >= 950_000_000_000_000_000_000_000 * m by {
        let r = blob_radius(size, sample_at(noise, k), closeness);
        lemma_blob_radius_bounds(size, sample_at(noise, k), closeness);
        assert(raw[k].fits());
        lemma_raw_vertex_exact(k, size, sample_at(noise, k), closeness);
        lemma_vertex_outward(r, m, unit_cos(k), unit_sin(k), ci, si);
    }
    let (xp, yp) = (raw[p].x as int, raw[p].y as int);
    let (xi, yi) = (raw[i].x as int, raw[i].y as int);
    let (xn, yn) = (raw[n].x as int, raw[n].y as int);
    let v = blob_polygon(size, noise, closeness)[i];
    lemma_smoothed_is_mean(raw, i);
    lemma_rounding_outward(ci, xp + xi + xn, v.x as int);
    lemma_rounding_outward(si, yp + yi + yn, v.y as int);
    let d = 3_000_000_000_000_000int;
    let o = ci * v.x + si * v.y;
    assert(ci * (xp + xi + xn) + si * (yp + yi + yn) == (ci * xp + si * yp) + (ci * xi + si * yi)
        + (ci * xn + si * yn)) by (nonlinear_arith);
    assert(d * o == d * (ci * v.x) + d * (si * v.y)) by (nonlinear_arith)
        requires
            o == ci * v.x + si * v.y,
    ;
    assert(d * o >= d * (950_000_000 * m - 1_000_000_000_000)) by (nonlinear_arith)
        requires
            2 * (d * o) >= 2 * (3 * (950_000_000_000_000_000_000_000 * m)) - 2 * (
            1_000_000_000_000 * d),
            d == 3_000_000_000_000_000,
    ;
    assert(o >= 950_000_000 * m - 1_000_000_000_000) by (nonlinear_arith)
        requires
            d * o >= d * (950_000_000 * m - 1_000_000_000_000),
            d > 0,
    ;
}

/// The raw vertices are the exact products of radius and direction, and
/// fit the fine unit.
pub proof fn lemma_raw_vertex_exact(i: int, size: int, n: int, closeness: int)
    requires
        0 <= i < 20,
        0 <= size <= i32::MAX,
        0 <= closeness <= 1000,
        -1000 <= n <= 1000,
    ensures
        raw_vertex(i, size, n, closeness).x == blob_radius(size, n, closeness) * unit_cos(i),
        raw_vertex(i, size, n, closeness).y == blob_radius(size, n, closeness) * unit_sin(i),
        raw_vertex(i, size, n, closeness).fits(),
{
    let r = blob_radius(size, n, closeness);
    lemma_blob_radius_bounds(size, n, closeness);
    lemma_unit_directions(i);
    assert(-(2_147_483_647 * 1_000_000_000_000_000) <= r * unit_cos(i) <= 2_147_483_647
        * 1_000_000_000_000_000 && -(2_147_483_647 * 1_000_000_000_000_000) <= r * unit_sin(i)
        <= 2_147_483_647 * 1_000_000_000_000_000) by (nonlinear_arith)
        requires
            0 <= r <= 2_147_483_647 * 1000,
            -1_000_000_000_000 <= unit_cos(i) <= 1_000_000_000_000,
            -1_000_000_000_000 <= unit_sin(i) <= 1_000_000_000_000,
    ;
}

/// Every raw vertex fits the fine unit.
pub proof fn lemma_raw_vertices_fit(size: int, noise: Seq<i32>, closeness: int)
    requires
        0 <= size <= i32::MAX,
        0 <= closeness <= 1000,
    ensures
        forall|k: int|
            0 <= k < 20 ==> (#[trigger] raw_vertices(size, noise, closeness)[k]).fits(),
{
    assert forall|k: int| 0 <= k < 20 implies (#[trigger] raw_vertices(
        size,
        noise,
        closeness,
    )[k]).fits() by {
        lemma_raw_vertex_exact(k, size, sample_at(noise, k), closeness);
    }
}

/// The product of two squares is the square of the product.
proof fn lemma_product_of_squares(a: int, b: int)
    by (nonlinear_arith)
    ensures
        (a * a) * (b * b) == (a * b) * (a * b),
{
}

/// Four factors can be paired either way.
proof fn lemma_cross_products(c: int, x: int, s: int, y: int)
    by (nonlinear_arith)
    ensures
        (c * x) * (s * y) == (c * y) * (s * x),
{
}

/// The square of a sum and of a difference.
proof fn lemma_binomials(a: int, b: int)
    by (nonlinear_arith)
    ensures
        (a + b) * (a + b) == a * a + 2 * (a * b) + b * b,
        (a - b) * (a - b) == a * a - 2 * (a * b) + b * b,
{
}

/// The product of two sums.
proof fn lemma_product_of_sums(p: int, q: int, u: int, v: int)
    by (nonlinear_arith)
    ensures
        (p + q) * (u + v) == p * u + p * v + q * u + q * v,
{
}

/// The product of two sums of two squares is a sum of two squares.
proof fn lemma_squares_of_products(c: int, s: int, x: int, y: int)
    ensures
        (c * c + s * s) * (x * x + y * y) == (c * x + s * y) * (c * x + s * y) + (c * y - s * x) * (
        c * y - s * x),
{
    lemma_product_of_sums(c * c, s * s, x * x, y * y);
    lemma_product_of_squares(c, x);
    lemma_product_of_squares(c, y);
    lemma_product_of_squares(s, x);
    lemma_product_of_squares(s, y);
    lemma_cross_products(c, x, s, y);
    lemma_binomials(c * x, s * y);
    lemma_binomials(c * y, s * x);
}

/// No vertex of the polygon is much closer to the centre than 0.95 of the
/// least radius: with `l = 0.95 m - 0.001` for the least radius `m`, the
/// square of its distance from the centre is at least `l * l`, up to the
/// rounding of the table.
pub proof fn lemma_polygon_vertex_radius(size: int, noise: Seq<i32>, closeness: int, i: int)
    requires
        0 <= size <= i32::MAX,
        0 <= closeness <= 1000,
        0 <= i < 20,
        950_000_000 * min_radius(size) >= 1_000_000_000_000,
    ensures
        ({
            let v = blob_polygon(size, noise, closeness)[i];
            let l = 950_000_000 * min_radius(size) - 1_000_000_000_000;
            1_000_000_000_001_000_000_000_000 * (v.x * v.x + v.y * v.y) >= l * l
        }),
{
    let v = blob_polygon(size, noise, closeness)[i];
    let l = 950_000_000 * min_radius(size) - 1_000_000_000_000;
    let c = unit_cos(i);
    let s = unit_sin(i);
    let x = v.x as int;
    let y = v.y as int;
    lemma_polygon_reaches_outward(size, noise, closeness, i);
    lemma_unit_directions(i);
    let d = c * x + s * y;
    let e = c * y - s * x;
    lemma_squares_of_products(c, s, x, y);
    assert(e * e >= 0) by (nonlinear_arith);
    assert(d * d >= l * l) by (nonlinear_arith)
        requires
            d >= l,
            l >= 0,
    ;
    assert(1_000_000_000_001_000_000_000_000 * (x * x + y * y) >= (c * c + s * s) * (x * x + y
        * y)) by (nonlinear_arith)
        requires
            c * c + s * s <= 1_000_000_000_001_000_000_000_000,
    ;
}

/// Cosine of `i` twentieths of a full turn.
pub fn cos_of_step(i: usize) -> (c: i64)
    requires
        i < 20,
    ensures
        c == unit_cos(i as int),
{
    let k: usize = if i > 10 {
        20 - i
    } else {
        i
    };
    if k == 0 {
        1_000_000_000_000
    } else if k == 1 {
        951_056_516_295
    } else if k == 2 {
        809_016_994_375
    } else if k == 3 {
        587_785_252_292
    } else if k == 4 {
        309_016_994_375
    } else if k == 5 {
        0
    } else if k == 6 {
        -309_016_994_375
    } else if k == 7 {
        -587_785_252_292
    } else if k == 8 {
        -809_016_994_375
    } else if k == 9 {
        -951_056_516_295
    } else {
        -1_000_000_000_000
    }
}

/// Sine of `i` twentieths of a full turn.
pub fn sin_of_step(i: usize) -> (s: i64)
    requires
        i < 20,
    ensures
        s == unit_sin(i as int),
{
    cos_of_step((i + 15) % 20)
}

/// The twenty points of noise space at which the field is sampled under
/// the given scales.
fn sample_points_at(time: i32, noise_scale: i64, time_scale: i64) -> (points: Vec<Point>)
    requires
        0 <= noise_scale <= 700_000,
        0 <= time_scale <= 700_000,
    ensures
        points@.len() == 20,
        forall|i: int|
            0 <= i < 20 ==> points@[i] == sample_point_at(
                i,
                time as int,
                noise_scale as int,
                time_scale as int,
            ),
{
    assert(-(1_503_238_554 * 1_000_000) <= time * time_scale <= 1_503_238_554 * 1_000_000)
        by (nonlinear_arith)
        requires
            -0x8000_0000 <= time < 0x8000_0000,
            0 <= time_scale <= 700_000,
    ;
    let drift: i128 = (time as i128 * time_scale as i128) * 1_000_000_000;
    let mut points: Vec<Point> = Vec::new();
    let mut i: usize = 0;
    while i < NUM_POINTS
        invariant
            i <= 20,
            0 <= noise_scale <= 700_000,
            drift == time * time_scale * 1_000_000_000,
            -(1_503_238_554 * 1_000_000_000_000_000) <= drift <= 1_503_238_554
                * 1_000_000_000_000_000,
            points@.len() == i,
            forall|k: int|
                0 <= k < i ==> points@[k] == sample_point_at(
                    k,
                    time as int,
                    noise_scale as int,
                    time_scale as int,
                ),
        decreases 20 - i,
    {
        let c: i128 = cos_of_step(i) as i128;
        let s: i128 = sin_of_step(i) as i128;
        proof {
            lemma_unit_directions(i as int);
            assert(-1_000_000_000_000_000_000 <= c * noise_scale <= 1_000_000_000_000_000_000
                && -1_000_000_000_000_000_000 <= s * noise_scale <= 1_000_000_000_000_000_000)
                by (nonlinear_arith)
                requires
                    -1_000_000_000_000 <= c <= 1_000_000_000_000,
                    -1_000_000_000_000 <= s <= 1_000_000_000_000,
                    0 <= noise_scale <= 700_000,
            ;
            lemma_round_div_bound(
                c * noise_scale + drift,
                1_000_000_000_000_000,
                1_503_239_554,
            );
            lemma_round_div_bound(
                s * noise_scale + drift,
                1_000_000_000_000_000,
                1_503_239_554,
            );
        }
        let x: i128 = div_round(c * noise_scale as i128 + drift, 1_000_000_000_000_000);
        let y: i128 = div_round(s * noise_scale as i128 + drift, 1_000_000_000_000_000);
        points.push(Point { x: x as i32, y: y as i32 });
        i += 1;
    }
    points
}

/// The twenty points of noise space at which the field is sampled for a
/// creature at the given time and closeness, under the interpolated mode.
pub fn blob_sample_points(time: i32, closeness: i32) -> (points: Vec<Point>)
    requires
        0 <= closeness <= 1000,
    ensures
        points@.len() == 20,
        forall|i: int| 0 <= i < 20 ==> points@[i] == sample_point(i, time as int, closeness as int),
{
    let noise_scale: i64 = 300_000 + 300 * closeness as i64;
    let time_scale: i64 = 200_000 + 400 * closeness as i64;
    sample_points_at(time, noise_scale, time_scale)
}

/// The twenty points of noise space at which the field is sampled for a
/// creature at the given time, proximity and closeness.
pub fn blob_sample_points_in(
    mode: NoiseMode,
    time: i32,
    in_proximity: bool,
    closeness: i32,
) -> (points: Vec<Point>)
    requires
        0 <= closeness <= 1000,
    ensures
        points@.len() == 20,
        forall|i: int|
            0 <= i < 20 ==> points@[i] == sample_point_in(
                mode,
                i,
                time as int,
                in_proximity,
                closeness as int,
            ),
{
    match mode {
        NoiseMode::Interpolated => blob_sample_points(time, closeness),
        NoiseMode::Discrete => if in_proximity {
            sample_points_at(time, 600_000, 600_000 + 100 * closeness as i64)
        } else {
            sample_points_at(time, 300_000, 200_000)
        },
    }
}

/// Radius of a vertex whose noise sample is `n`, in millionths.
pub fn radius_under_noise(size: i32, n: i32, closeness: i32) -> (r: i64)
    requires
        0 <= size,
        0 <= closeness <= 1000,
        -1000 <= n <= 1000,
    ensures
        r == blob_radius(size as int, n as int, closeness as int),
        min_radius(size as int) <= r <= 2 * base_radius(size as int),
{
    let base: i64 = size as i64 * 500;
    let least: i64 = size as i64 * 200;
    assert(-1_000_000 <= n * closeness <= 1_000_000) by (nonlinear_arith)
        requires
            0 <= closeness <= 1000,
            -1000 <= n <= 1000,
    ;
    let share: i64 = n as i64 * closeness as i64;
    assert(-(0x8000_0000 * 1_000_000) <= share * size <= 0x8000_0000 * 1_000_000)
        by (nonlinear_arith)
        requires
            -1_000_000 <= share <= 1_000_000,
            0 <= size < 0x8000_0000,
    ;
    proof {
        lemma_noise_offset_bounds(size as int, n as int, closeness as int);
    }
    let offset: i128 = div_round((share * size as i64) as i128, 2000);
    let r: i64 = base + offset as i64;
    if r < least {
        least
    } else {
        r
    }
}

/// Replaces each vertex by the mean of itself and its two neighbours on
/// the closed outline, rounded to the nearest thousandth.
pub fn smooth_points(points: &Vec<FinePoint>) -> (smoothed_points: Vec<Point>)
    requires
        forall|k: int| 0 <= k < points@.len() ==> (#[trigger] points@[k]).fits(),
    ensures
        smoothed_points@ == smoothed(points@),
        smoothed_points@.len() == points@.len(),
        forall|i: int|
            0 <= i < points@.len() ==> smoothed_points@[i] == smoothed_at(points@, i),
{
    let len: usize = points.len();
    let mut smoothed_points: Vec<Point> = Vec::new();
    let mut i: usize = 0;
    while i < len
        invariant
            len == points@.len(),
            i <= len,
            forall|k: int| 0 <= k < points@.len() ==> (#[trigger] points@[k]).fits(),
            smoothed_points@.len() == i,
            forall|k: int| 0 <= k < i ==> smoothed_points@[k] == smoothed_at(points@, k),
        decreases len - i,
    {
        let prev: FinePoint = if i == 0 {
            points[len - 1]
        } else {
            points[i - 1]
        };
        let next: FinePoint = if i == len - 1 {
            points[0]
        } else {
            points[i + 1]
        };
        let current: FinePoint = points[i];
        proof {
            let l = len as int;
            let k = i as int;
            if k == 0 {
                assert((k + l - 1) % l == l - 1) by (nonlinear_arith)
                    requires
                        k == 0,
                        l > 0,
                ;
            } else {
                assert((k + l - 1) % l == k - 1) by (nonlinear_arith)
                    requires
                        0 < k < l,
                ;
            }
            if k == l - 1 {
                assert((k + 1) % l == 0) by (nonlinear_arith)
                    requires
                        k == l - 1,
                        l > 0,
                ;
            } else {
                assert((k + 1) % l == k + 1) by (nonlinear_arith)
                    requires
                        0 <= k < l - 1,
                ;
            }
            assert(prev.fits() && next.fits() && current.fits());
            lemma_round_div_bound(
                prev.x + current.x + next.x,
                3_000_000_000_000_000,
                2_147_483_647,
            );
            lemma_round_div_bound(
                prev.y + current.y + next.y,
                3_000_000_000_000_000,
                2_147_483_647,
            );
        }
        let avg_x: i128 = div_round(prev.x + current.x + next.x, 3_000_000_000_000_000);
        let avg_y: i128 = div_round(prev.y + current.y + next.y, 3_000_000_000_000_000);
        smoothed_points.push(Point { x: avg_x as i32, y: avg_y as i32 });
        i += 1;
    }
    assert(smoothed_points@ =~= smoothed(points@));
    smoothed_points
}

/// The polygon of a creature: twenty vertices at the radii that the noise
/// samples give, smoothed once.
pub fn create_amorphous_mesh(size: i32, noise: &Vec<i32>, closeness: i32) -> (polygon: Vec<Point>)
    requires
        0 <= size,
        0 <= closeness <= 1000,
    ensures
        polygon@ == blob_polygon(size as int, noise@, closeness as int),
        polygon@.len() == 20,
{
    let mut points: Vec<FinePoint> = Vec::new();
    let mut i: usize = 0;
    while i < NUM_POINTS
        invariant
            i <= 20,
            0 <= size,
            0 <= closeness <= 1000,
            points@.len() == i,
            forall|k: int|
                0 <= k < i ==> points@[k] == raw_vertex(
                    k,
                    size as int,
                    sample_at(noise@, k),
                    closeness as int,
                ) && (#[trigger] points@[k]).fits(),
        decreases 20 - i,
    {
        let n: i32 = noise_sample(noise, i);
        let radius: i128 = radius_under_noise(size, n, closeness) as i128;
        let c: i128 = cos_of_step(i) as i128;
        let s: i128 = sin_of_step(i) as i128;
        proof {
            lemma_raw_vertex_exact(i as int, size as int, n as int, closeness as int);
        }
        points.push(FinePoint { x: radius * c, y: radius * s });
        i += 1;
    }
    assert(points@ =~= raw_vertices(size as int, noise@, closeness as int));
    smooth_points(&points)
}

} // verus!
