//! Overlap and centre distance of axis-aligned boxes, and the pairs of two
//! lists that overlap.

use vstd::prelude::*;
use crate::collidable::{all_have_bounds, boxes_of, Collidable};
use crate::fixed::{isqrt, sqrt_floor, square};
use crate::geometry::Rect;

verus! {

/// The two boxes share interior points: their extents overlap on both axes.
pub open spec fn overlaps(r1: Rect, r2: Rect) -> bool {
    &&& r1.x < r2.x + r2.w
    &&& r1.x + r1.w > r2.x
    &&& r1.y < r2.y + r2.h
    &&& r1.y + r1.h > r2.y
}

/// Square of twice the distance between the centres of the two boxes.
pub open spec fn doubled_distance_squared(r1: Rect, r2: Rect) -> int {
    let dx = r1.doubled_center_x() - r2.doubled_center_x();
    let dy = r1.doubled_center_y() - r2.doubled_center_y();
    dx * dx + dy * dy
}

/// Euclidean distance between the centres of the two boxes, rounded down.
pub open spec fn center_distance(r1: Rect, r2: Rect) -> int {
    sqrt_floor(doubled_distance_squared(r1, r2)) / 2
}

/// Overlap does not depend on the order of the boxes.
pub proof fn lemma_overlaps_symmetric(r1: Rect, r2: Rect)
    ensures
        overlaps(r1, r2) == overlaps(r2, r1),
{
}

/// The distance does not depend on the order of the boxes.
pub proof fn lemma_center_distance_symmetric(r1: Rect, r2: Rect)
    ensures
        center_distance(r1, r2) == center_distance(r2, r1),
{
    let dx = r1.doubled_center_x() - r2.doubled_center_x();
    let dy = r1.doubled_center_y() - r2.doubled_center_y();
    assert(dx * dx == (-dx) * (-dx)) by (nonlinear_arith);
    assert(dy * dy == (-dy) * (-dy)) by (nonlinear_arith);
}

/// The centres of two boxes are less than 2^34 apart.
pub proof fn lemma_center_distance_bounds(r1: Rect, r2: Rect)
    ensures
        0 <= center_distance(r1, r2) < 0x4_0000_0000,
{
    let dx = r1.doubled_center_x() - r2.doubled_center_x();
    let dy = r1.doubled_center_y() - r2.doubled_center_y();
    let n = doubled_distance_squared(r1, r2);
    assert(0 <= dx * dx <= 0x9_0000_0000_0000_0000 && 0 <= dy * dy <= 0x9_0000_0000_0000_0000)
        by (nonlinear_arith)
        requires
            -0x3_0000_0000 <= dx <= 0x3_0000_0000,
            -0x3_0000_0000 <= dy <= 0x3_0000_0000,
    ;
    crate::fixed::lemma_sqrt_floor_exists(n);
    let r = sqrt_floor(n);
    assert(r < 0x8_0000_0000) by (nonlinear_arith)
        requires
            0 <= r,
            r * r <= n,
            n <= 0x12_0000_0000_0000_0000,
    ;
}

/// Whether the two boxes overlap.
pub fn check_collision(rect1: &Rect, rect2: &Rect) -> (hit: bool)
    ensures
        hit == overlaps(*rect1, *rect2),
{
    let x1: i64 = rect1.x as i64;
    let y1: i64 = rect1.y as i64;
    let x2: i64 = rect2.x as i64;
    let y2: i64 = rect2.y as i64;
    x1 < x2 + rect2.w as i64 && x1 + rect1.w as i64 > x2 && y1 < y2 + rect2.h as i64 && y1
        + rect1.h as i64 > y2
}

/// Distance between the centres of the two boxes.
pub fn distance_between(rect1: &Rect, rect2: &Rect) -> (d: i64)
    ensures
        d == center_distance(*rect1, *rect2),
        0 <= d < 0x4_0000_0000,
{
    let c1x: i64 = 2 * rect1.x as i64 + rect1.w as i64;
    let c1y: i64 = 2 * rect1.y as i64 + rect1.h as i64;
    let c2x: i64 = 2 * rect2.x as i64 + rect2.w as i64;
    let c2y: i64 = 2 * rect2.y as i64 + rect2.h as i64;
    let sx: u128 = square(c1x - c2x);
    let sy: u128 = square(c1y - c2y);
    assert(sx <= 0x9_0000_0000_0000_0000 && sy <= 0x9_0000_0000_0000_0000) by (nonlinear_arith)
        requires
            -0x3_0000_0000 <= c1x - c2x <= 0x3_0000_0000,
            -0x3_0000_0000 <= c1y - c2y <= 0x3_0000_0000,
            sx == (c1x - c2x) * (c1x - c2x),
            sy == (c1y - c2y) * (c1y - c2y),
    ;
    let r: u64 = isqrt(sx + sy);
    proof {
        lemma_center_distance_bounds(*rect1, *rect2);
    }
    (r / 2) as i64
}

/// The overlapping pairs among the first `j` boxes of `boxes2` and the box
/// `b1`, which has index `i` in its own list, each with its distance.
pub open spec fn row_collisions(i: int, b1: Rect, boxes2: Seq<Rect>, j: int) -> Seq<
    (usize, usize, i64),
>
    decreases j,
{
    if j <= 0 {
        Seq::empty()
    } else {
        let rest = row_collisions(i, b1, boxes2, j - 1);
        if overlaps(b1, boxes2[j - 1]) {
            rest.push((i as usize, (j - 1) as usize, center_distance(b1, boxes2[j - 1]) as i64))
        } else {
            rest
        }
    }
}

/// The overlapping pairs of the first `i` boxes of `boxes1` with all of
/// `boxes2`, ordered by the first index and then by the second.
pub open spec fn all_collisions(boxes1: Seq<Rect>, boxes2: Seq<Rect>, i: int) -> Seq<
    (usize, usize, i64),
>
    decreases i,
{
    if i <= 0 {
        Seq::empty()
    } else {
        all_collisions(boxes1, boxes2, i - 1) + row_collisions(
            i - 1,
            boxes1[i - 1],
            boxes2,
            boxes2.len() as int,
        )
    }
}

/// The pairs of the two lists whose boxes overlap, each with the two
/// indices and the distance of the centres, ordered by the first index and
/// then by the second.
pub fn handle_collisions<T: Collidable + ?Sized, U: Collidable + ?Sized>(
    collidables1: &[&T],
    collidables2: &[&U],
) -> (collisions: Vec<(usize, usize, i64)>)
    requires
        all_have_bounds(collidables1@),
        all_have_bounds(collidables2@),
    ensures
        collisions@ == all_collisions(
            boxes_of(collidables1@),
            boxes_of(collidables2@),
            collidables1@.len() as int,
        ),
{
    let mut collisions: Vec<(usize, usize, i64)> = Vec::new();
    let ghost boxes1 = boxes_of(collidables1@);
    let ghost boxes2 = boxes_of(collidables2@);
    let mut i: usize = 0;
    while i < collidables1.len()
        invariant
            i <= collidables1@.len(),
            all_have_bounds(collidables1@),
            all_have_bounds(collidables2@),
            boxes1 == boxes_of(collidables1@),
            boxes2 == boxes_of(collidables2@),
            collisions@ == all_collisions(boxes1, boxes2, i as int),
        decreases collidables1@.len() - i,
    {
        let bbox1 = collidables1[i].bounding_box();
        let ghost before = collisions@;
        let mut j: usize = 0;
        while j < collidables2.len()
            invariant
                j <= collidables2@.len(),
                i < collidables1@.len(),
                all_have_bounds(collidables2@),
                boxes2 == boxes_of(collidables2@),
                bbox1 == boxes1[i as int],
                collisions@ == before + row_collisions(i as int, bbox1, boxes2, j as int),
            decreases collidables2@.len() - j,
        {
            let bbox2 = collidables2[j].bounding_box();
            if check_collision(&bbox1, &bbox2) {
                let distance = distance_between(&bbox1, &bbox2);
                collisions.push((i, j, distance));
            }
            j += 1;
        }
        i += 1;
    }
    collisions
}

} // verus!
