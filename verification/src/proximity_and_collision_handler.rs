//! The spatial proximity engine: for two lists of boxes, the pairs that are
//! close to each other or overlap, each with its centre distance.

use vstd::prelude::*;
use crate::collidable::{all_have_bounds, boxes_of, Collidable};
use crate::collision::{center_distance, overlaps};
use crate::geometry::Rect;

verus! {

/// A pair is reported when its centres are closer than the threshold or its
/// boxes overlap.
pub open spec fn reported(b1: Rect, b2: Rect, threshold: int) -> bool {
    center_distance(b1, b2) < threshold || overlaps(b1, b2)
}

/// What is reported of the pair of box `b1`, of index `i`, and box `b2`, of
/// index `j`: the two indices, the distance and whether the boxes overlap.
pub open spec fn report_of(i: int, j: int, b1: Rect, b2: Rect) -> (usize, usize, i64, bool) {
    (i as usize, j as usize, center_distance(b1, b2) as i64, overlaps(b1, b2))
}

/// The reports of box `b1`, of index `i`, against the first `j` boxes of
/// `boxes2`, in the order of `boxes2`.
pub open spec fn row_reports(i: int, b1: Rect, boxes2: Seq<Rect>, threshold: int, j: int) -> Seq<
    (usize, usize, i64, bool),
>
    decreases j,
{
    if j <= 0 {
        Seq::empty()
    } else {
        let rest = row_reports(i, b1, boxes2, threshold, j - 1);
        if reported(b1, boxes2[j - 1], threshold) {
            rest.push(report_of(i, j - 1, b1, boxes2[j - 1]))
        } else {
            rest
        }
    }
}

/// The reports of the first `i` boxes of `boxes1` against all of `boxes2`,
/// ordered by the first index and then by the second.
pub open spec fn all_reports(boxes1: Seq<Rect>, boxes2: Seq<Rect>, threshold: int, i: int) -> Seq<
    (usize, usize, i64, bool),
>
    decreases i,
{
    if i <= 0 {
        Seq::empty()
    } else {
        all_reports(boxes1, boxes2, threshold, i - 1) + row_reports(
            i - 1,
            boxes1[i - 1],
            boxes2,
            threshold,
            boxes2.len() as int,
        )
    }
}

/// Every report of a row names a pair that is close or overlaps, and says
/// of it what `report_of` says.
pub proof fn lemma_row_reports_sound(
    i: int,
    b1: Rect,
    boxes2: Seq<Rect>,
    threshold: int,
    j: int,
    k: int,
)
    requires
        0 <= j <= boxes2.len(),
        0 <= k < row_reports(i, b1, boxes2, threshold, j).len(),
    ensures
        exists|c: int|
            0 <= c < j && reported(b1, boxes2[c], threshold) && row_reports(
                i,
                b1,
                boxes2,
                threshold,
                j,
            )[k] == report_of(i, c, b1, boxes2[c]),
    decreases j,
{
    if j > 0 {
        let rest = row_reports(i, b1, boxes2, threshold, j - 1);
        if k < rest.len() {
            lemma_row_reports_sound(i, b1, boxes2, threshold, j - 1, k);
            let c = choose|c: int|
                0 <= c < j - 1 && reported(b1, boxes2[c], threshold) && rest[k] == report_of(
                    i,
                    c,
                    b1,
                    boxes2[c],
                );
            assert(0 <= c < j && reported(b1, boxes2[c], threshold) && row_reports(
                i,
                b1,
                boxes2,
                threshold,
                j,
            )[k] == report_of(i, c, b1, boxes2[c]));
        } else {
            assert(0 <= j - 1 < j && reported(b1, boxes2[j - 1], threshold) && row_reports(
                i,
                b1,
                boxes2,
                threshold,
                j,
            )[k] == report_of(i, j - 1, b1, boxes2[j - 1]));
        }
    }
}

/// Every pair of a row that is close or overlaps has its report in the row.
pub proof fn lemma_row_reports_complete(
    i: int,
    b1: Rect,
    boxes2: Seq<Rect>,
    threshold: int,
    j: int,
    c: int,
)
    requires
        0 <= c < j <= boxes2.len(),
        reported(b1, boxes2[c], threshold),
    ensures
        row_reports(i, b1, boxes2, threshold, j).contains(report_of(i, c, b1, boxes2[c])),
    decreases j,
{
    let rest = row_reports(i, b1, boxes2, threshold, j - 1);
    let row = row_reports(i, b1, boxes2, threshold, j);
    let wanted = report_of(i, c, b1, boxes2[c]);
    if c == j - 1 {
        assert(row[rest.len() as int] == wanted);
    } else {
        lemma_row_reports_complete(i, b1, boxes2, threshold, j - 1, c);
        let k = choose|k: int| 0 <= k < rest.len() && rest[k] == wanted;
        assert(row[k] == wanted);
    }
}

/// Every report names a pair that is close or overlaps, and says of it what
/// `report_of` says.
pub proof fn lemma_all_reports_sound(
    boxes1: Seq<Rect>,
    boxes2: Seq<Rect>,
    threshold: int,
    i: int,
    k: int,
)
    requires
        0 <= i <= boxes1.len(),
        0 <= k < all_reports(boxes1, boxes2, threshold, i).len(),
    ensures
        exists|r: int, c: int|
            0 <= r < i && 0 <= c < boxes2.len() && reported(boxes1[r], boxes2[c], threshold)
                && all_reports(boxes1, boxes2, threshold, i)[k] == report_of(
                r,
                c,
                boxes1[r],
                boxes2[c],
            ),
    decreases i,
{
    if i > 0 {
        let before = all_reports(boxes1, boxes2, threshold, i - 1);
        let row = row_reports(i - 1, boxes1[i - 1], boxes2, threshold, boxes2.len() as int);
        if k < before.len() {
            lemma_all_reports_sound(boxes1, boxes2, threshold, i - 1, k);
            let (r, c) = choose|r: int, c: int|
                0 <= r < i - 1 && 0 <= c < boxes2.len() && reported(
                    boxes1[r],
                    boxes2[c],
                    threshold,
                ) && before[k] == report_of(r, c, boxes1[r], boxes2[c]);
            assert(0 <= r < i && 0 <= c < boxes2.len() && reported(boxes1[r], boxes2[c], threshold)
                && all_reports(boxes1, boxes2, threshold, i)[k] == report_of(
                r,
                c,
                boxes1[r],
                boxes2[c],
            ));
        } else {
            lemma_row_reports_sound(
                i - 1,
                boxes1[i - 1],
                boxes2,
                threshold,
                boxes2.len() as int,
                k - before.len(),
            );
            let c = choose|c: int|
                0 <= c < boxes2.len() && reported(boxes1[i - 1], boxes2[c], threshold) && row[k
                    - before.len()] == report_of(i - 1, c, boxes1[i - 1], boxes2[c]);
            assert(0 <= i - 1 < i && 0 <= c < boxes2.len() && reported(
                boxes1[i - 1],
                boxes2[c],
                threshold,
            ) && all_reports(boxes1, boxes2, threshold, i)[k] == report_of(
                i - 1,
                c,
                boxes1[i - 1],
                boxes2[c],
            ));
        }
    }
}

/// Every pair that is close or overlaps has its report among the reports.
pub proof fn lemma_all_reports_complete(
    boxes1: Seq<Rect>,
    boxes2: Seq<Rect>,
    threshold: int,
    i: int,
    r: int,
    c: int,
)
    requires
        0 <= r < i <= boxes1.len(),
        0 <= c < boxes2.len(),
        reported(boxes1[r], boxes2[c], threshold),
    ensures
        all_reports(boxes1, boxes2, threshold, i).contains(
            report_of(r, c, boxes1[r], boxes2[c]),
        ),
    decreases i,
{
    let before = all_reports(boxes1, boxes2, threshold, i - 1);
    let row = row_reports(i - 1, boxes1[i - 1], boxes2, threshold, boxes2.len() as int);
    let all = all_reports(boxes1, boxes2, threshold, i);
    let wanted = report_of(r, c, boxes1[r], boxes2[c]);
    if r == i - 1 {
        lemma_row_reports_complete(i - 1, boxes1[i - 1], boxes2, threshold, boxes2.len() as int, c);
        let k = choose|k: int| 0 <= k < row.len() && row[k] == wanted;
        assert(all[before.len() + k] == wanted);
    } else {
        lemma_all_reports_complete(boxes1, boxes2, threshold, i - 1, r, c);
        let k = choose|k: int| 0 <= k < before.len() && before[k] == wanted;
        assert(all[k] == wanted);
    }
}

/// For every pair of the two lists whose centres are closer than the
/// threshold or whose boxes overlap: the two indices, the distance of the
/// centres and whether the boxes overlap, ordered by the first index and
/// then by the second.
pub fn handle_proximity_and_collisions<T: Collidable + ?Sized, U: Collidable + ?Sized>(
    collidables1: &[&T],
    collidables2: &[&U],
    proximity_threshold: i64,
) -> (results: Vec<(usize, usize, i64, bool)>)
    requires
        all_have_bounds(collidables1@),
        all_have_bounds(collidables2@),
    ensures
        results@ == all_reports(
            boxes_of(collidables1@),
            boxes_of(collidables2@),
            proximity_threshold as int,
            collidables1@.len() as int,
        ),
{
    let mut results: Vec<(usize, usize, i64, bool)> = Vec::new();
    let ghost boxes1 = boxes_of(collidables1@);
    let ghost boxes2 = boxes_of(collidables2@);
    let mut i: usize = 0;
    while i < collidables1.len()
        invariant
            i <= collidables1@.len(),
            all_have_bounds(collidables1@),
            all_have_bounds(collidables2@),
            boxes1 == boxes_of(collidables1@),
            boxes2 == boxes_of(collidables2@),
            results@ == all_reports(boxes1, boxes2, proximity_threshold as int, i as int),
        decreases collidables1@.len() - i,
    {
        let bbox1 = collidables1[i].bounding_box();
        let ghost before = results@;
        let mut j: usize = 0;
        while j < collidables2.len()
            invariant
                j <= collidables2@.len(),
                i < collidables1@.len(),
                all_have_bounds(collidables2@),
                boxes2 == boxes_of(collidables2@),
                bbox1 == boxes1[i as int],
                results@ == before + row_reports(
                    i as int,
                    bbox1,
                    boxes2,
                    proximity_threshold as int,
                    j as int,
                ),
            decreases collidables2@.len() - j,
        {
            let bbox2 = collidables2[j].bounding_box();
            let distance = distance_between(&bbox1, &bbox2);
            let is_collided = check_collision(&bbox1, &bbox2);
            if distance < proximity_threshold || is_collided {
                results.push((i, j, distance, is_collided));
            }
            j += 1;
        }
        i += 1;
    }
    results
}

/// Whether the two boxes overlap.
pub fn check_collision(rect1: &Rect, rect2: &Rect) -> (hit: bool)
    ensures
        hit == overlaps(*rect1, *rect2),
{
    crate::collision::check_collision(rect1, rect2)
}

/// Distance between the centres of the two boxes.
pub fn distance_between(rect1: &Rect, rect2: &Rect) -> (d: i64)
    ensures
        d == center_distance(*rect1, *rect2),
        0 <= d < 0x4_0000_0000,
{
    crate::collision::distance_between(rect1, rect2)
}

} // verus!
