//! The anchors around which creatures are clustered, as fractions of the
//! world's width and height.

use vstd::prelude::*;
use crate::fixed::div_floor;

verus! {

/// Number of anchors of a collection.
pub const CLUSTER_POINT_COUNT: usize = 14;

/// The named collections of anchors.
#[derive(Clone, Copy, Debug, PartialEq, Eq, Structural)]
pub enum ClusterPointCollection {
    /// A diagonal band from the left edge to the lower right corner.
    Collection1,
    /// A vertical line through the middle of the world.
    Collection2,
}

/// Height of anchor `i`, in thousandths of the world's height.
pub open spec fn height_fraction(i: int) -> int {
    if i == 0 {
        500
    } else if i == 1 {
        530
    } else if i == 2 {
        580
    } else if i == 3 {
        600
    } else if i == 4 {
        650
    } else if i == 5 {
        700
    } else if i == 6 {
        740
    } else if i == 7 {
        750
    } else if i == 8 {
        800
    } else if i == 9 {
        840
    } else if i == 10 {
        880
    } else if i == 11 {
        900
    } else if i == 12 {
        920
    } else {
        980
    }
}

/// Horizontal place of anchor `i`, in thousandths of the world's width.
pub open spec fn width_fraction(collection: ClusterPointCollection, i: int) -> int {
    match collection {
        ClusterPointCollection::Collection2 => 500,
        ClusterPointCollection::Collection1 => if i == 0 {
            70
        } else if i == 1 {
            150
        } else if i == 2 {
            200
        } else if i == 3 {
            300
        } else if i == 4 {
            400
        } else if i == 5 {
            440
        } else if i == 6 {
            500
        } else if i == 7 {
            600
        } else if i == 8 {
            650
        } else if i == 9 {
            700
        } else if i == 10 {
            750
        } else if i == 11 {
            800
        } else if i == 12 {
            850
        } else {
            900
        },
    }
}

/// Anchor `i` of a collection in a world of the given width and height.
pub open spec fn cluster_point(
    collection: ClusterPointCollection,
    screen_width: int,
    screen_height: int,
    i: int,
) -> (i32, i32) {
    (
        ((screen_width * width_fraction(collection, i)) / 1000) as i32,
        ((screen_height * height_fraction(i)) / 1000) as i32,
    )
}

/// In a world whose width and height are not negative, every anchor lies
/// inside the world.
pub proof fn lemma_cluster_point_inside(
    collection: ClusterPointCollection,
    screen_width: int,
    screen_height: int,
    i: int,
)
    requires
        0 <= screen_width <= i32::MAX,
        0 <= screen_height <= i32::MAX,
        0 <= i < 14,
    ensures
        0 <= cluster_point(collection, screen_width, screen_height, i).0 <= screen_width,
        0 <= cluster_point(collection, screen_width, screen_height, i).1 <= screen_height,
{
    let fw = width_fraction(collection, i);
    let fh = height_fraction(i);
    assert(0 <= screen_width * fw <= screen_width * 1000) by (nonlinear_arith)
        requires
            0 <= screen_width,
            0 <= fw <= 1000,
    ;
    assert(0 <= screen_height * fh <= screen_height * 1000) by (nonlinear_arith)
        requires
            0 <= screen_height,
            0 <= fh <= 1000,
    ;
}

fn height_fraction_of(i: usize) -> (f: i64)
    ensures
        f == height_fraction(i as int),
        0 <= f <= 1000,
{
    if i == 0 {
        500
    } else if i == 1 {
        530
    } else if i == 2 {
        580
    } else if i == 3 {
        600
    } else if i == 4 {
        650
    } else if i == 5 {
        700
    } else if i == 6 {
        740
    } else if i == 7 {
        750
    } else if i == 8 {
        800
    } else if i == 9 {
        840
    } else if i == 10 {
        880
    } else if i == 11 {
        900
    } else if i == 12 {
        920
    } else {
        980
    }
}

fn width_fraction_of(collection: ClusterPointCollection, i: usize) -> (f: i64)
    ensures
        f == width_fraction(collection, i as int),
        0 <= f <= 1000,
{
    match collection {
        ClusterPointCollection::Collection2 => 500,
        ClusterPointCollection::Collection1 => if i == 0 {
            70
        } else if i == 1 {
            150
        } else if i == 2 {
            200
        } else if i == 3 {
            300
        } else if i == 4 {
            400
        } else if i == 5 {
            440
        } else if i == 6 {
            500
        } else if i == 7 {
            600
        } else if i == 8 {
            650
        } else if i == 9 {
            700
        } else if i == 10 {
            750
        } else if i == 11 {
            800
        } else if i == 12 {
            850
        } else {
            900
        },
    }
}

/// The fourteen anchors of a collection in a world of the given width and
/// height.
pub fn get_cluster_points(
    collection: ClusterPointCollection,
    screen_width: i32,
    screen_height: i32,
) -> (points: Vec<(i32, i32)>)
    ensures
        points@.len() == 14,
        forall|i: int|
            0 <= i < 14 ==> points@[i] == cluster_point(
                collection,
                screen_width as int,
                screen_height as int,
                i,
            ),
{
    let mut points: Vec<(i32, i32)> = Vec::new();
    let mut i: usize = 0;
    while i < CLUSTER_POINT_COUNT
        invariant
            i <= 14,
            points@.len() == i,
            forall|k: int|
                0 <= k < i ==> points@[k] == cluster_point(
                    collection,
                    screen_width as int,
                    screen_height as int,
                    k,
                ),
        decreases 14 - i,
    {
        let fw: i64 = width_fraction_of(collection, i);
        let fh: i64 = height_fraction_of(i);
        assert(-0x8000_0000 * 1000 <= screen_width * fw <= 0x8000_0000 * 1000 && -0x8000_0000
            * 1000 <= screen_height * fh <= 0x8000_0000 * 1000) by (nonlinear_arith)
            requires
                -0x8000_0000 <= screen_width < 0x8000_0000,
                -0x8000_0000 <= screen_height < 0x8000_0000,
                0 <= fw <= 1000,
                0 <= fh <= 1000,
        ;
        let x: i64 = div_floor(screen_width as i64 * fw, 1000);
        let y: i64 = div_floor(screen_height as i64 * fh, 1000);
        points.push((x as i32, y as i32));
        i += 1;
    }
    points
}

} // verus!
