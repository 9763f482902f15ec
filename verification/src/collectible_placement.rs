//! Placement of the creatures: each at a random place in the window around
//! a random anchor, kept inside the world's margins and away from the
//! creatures placed before it.

use vstd::prelude::*;
use vstd::string::*;
use crate::collectible::Collectible;
use crate::collectible_cluster_points::{
    cluster_point,
    get_cluster_points,
    lemma_cluster_point_inside,
    ClusterPointCollection,
};
use crate::fixed::{clamp, clamp_int, lemma_sqrt_floor_exists, square};
use crate::geometry::{distance, distance_squared, lemma_distance_bounds, Point};
use crate::random::draw_between;

verus! {

/// Width of the margin of the world that stays free of creatures.
pub const WORLD_MARGIN: i32 = 20_000;

/// Number of rejected places in a row after which placement gives up.
pub const MAX_PLACEMENT_FAILURES: i32 = 20;

/// The initial times are drawn below this value: a full turn of the pulse.
pub const INITIAL_TIME_RANGE: i32 = 6280;

/// The greatest initial time that is drawn.
pub const LAST_INITIAL_TIME: i32 = INITIAL_TIME_RANGE - 1;

/// The index of the last anchor that is drawn.
pub const LAST_CLUSTER_POINT: i32 = 13;

/// The usual least distance between two creatures.
pub const DEFAULT_MIN_SEPARATION: i32 = 3000;

/// Placement gave up: twenty places in a row were too close to creatures
/// placed before.
#[derive(Clone, Copy, Debug, PartialEq, Eq, Structural)]
pub enum PlacementError {
    Exhausted,
}

/// What to do with a candidate place.
#[derive(Clone, Copy, Debug, PartialEq, Eq, Structural)]
pub enum PlacementStep {
    /// The place is free: the creature goes there.
    Place,
    /// The place is taken: draw another.
    Retry,
    /// The place is taken and it was the last attempt.
    Abort,
}

impl PlacementError {
    /// The message of the error.
    pub fn message(&self) -> (text: String)
        ensures
            text@ == "Failed to place collectible"@,
    {
        String::from_str("Failed to place collectible")
    }
}

/// The two points are closer than the separation.
pub open spec fn too_close(p: Point, q: Point, min_separation: int) -> bool {
    min_separation > 0 && distance_squared(p, q) < min_separation * min_separation
}

/// The candidate is not too close to any creature placed so far.
pub open spec fn clear_of(placed: Seq<Collectible>, candidate: Point, min_separation: int) -> bool {
    forall|k: int|
        0 <= k < placed.len() ==> !too_close(
            (#[trigger] placed[k]).position,
            candidate,
            min_separation,
        )
}

/// No two creatures are closer than the separation.
pub open spec fn pairwise_separated(placed: Seq<Collectible>, min_separation: int) -> bool {
    forall|i: int, j: int|
        0 <= i < j < placed.len() ==> !too_close(
            (#[trigger] placed[i]).position,
            (#[trigger] placed[j]).position,
            min_separation,
        )
}

/// Two points that are not too close are at least the separation apart,
/// also by their rounded distance.
pub proof fn lemma_separated_distance(p: Point, q: Point, min_separation: int)
    requires
        !too_close(p, q, min_separation),
    ensures
        distance(p, q) >= min_separation,
{
    lemma_distance_bounds(p, q);
    if min_separation > 0 {
        let n = distance_squared(p, q);
        let d = distance(p, q);
        assert(n >= 0) by (nonlinear_arith)
            requires
                n >= min_separation * min_separation,
        ;
        lemma_sqrt_floor_exists(n);
        if d < min_separation {
            assert((d + 1) * (d + 1) <= min_separation * min_separation) by (nonlinear_arith)
                requires
                    0 <= d,
                    d + 1 <= min_separation,
            ;
        }
    }
}

/// What follows from a candidate: it is placed if it is clear of the
/// others; if not, another is drawn unless this was the twentieth
/// rejection in a row.
pub open spec fn next_step(clear: bool, failure_count: int) -> PlacementStep {
    if clear {
        PlacementStep::Place
    } else if failure_count + 1 >= 20 {
        PlacementStep::Abort
    } else {
        PlacementStep::Retry
    }
}

/// A coordinate moved into the part of the world inside the margins.
pub open spec fn clamp_to_world(v: int, extent: int) -> int {
    clamp_int(v, 20_000, extent - 20_000)
}

/// The point lies in the window of half-width `cluster_size` around the
/// anchor, as far as the window is inside the margins, and on the margin
/// where it is not.
pub open spec fn in_window(
    p: Point,
    anchor: (i32, i32),
    cluster_size: int,
    screen_width: int,
    screen_height: int,
) -> bool {
    &&& clamp_to_world(anchor.0 - cluster_size, screen_width) <= p.x <= clamp_to_world(
        anchor.0 + cluster_size,
        screen_width,
    )
    &&& clamp_to_world(anchor.1 - cluster_size, screen_height) <= p.y <= clamp_to_world(
        anchor.1 + cluster_size,
        screen_height,
    )
}

/// The sizes are such that every place fits the coordinate limit: a world
/// of at least two margins, a window, a threshold and a size within the
/// limit.
pub open spec fn valid_world(
    screen_width: int,
    screen_height: int,
    cluster_size: int,
    proximity_threshold: int,
    collectible_size: int,
) -> bool {
    &&& 40_000 <= screen_width <= 1_000_000_000
    &&& 40_000 <= screen_height <= 1_000_000_000
    &&& 0 <= cluster_size <= 1_000_000_000
    &&& 1000 <= proximity_threshold <= 1_000_000_000
    &&& 0 <= collectible_size <= 1_000_000_000
}

/// Whether the sizes describe a valid world.
pub fn world_is_valid(
    screen_width: i32,
    screen_height: i32,
    cluster_size: i32,
    proximity_threshold: i32,
    collectible_size: i32,
) -> (valid: bool)
    ensures
        valid == valid_world(
            screen_width as int,
            screen_height as int,
            cluster_size as int,
            proximity_threshold as int,
            collectible_size as int,
        ),
{
    40_000 <= screen_width && screen_width <= 1_000_000_000 && 40_000 <= screen_height
        && screen_height <= 1_000_000_000 && 0 <= cluster_size && cluster_size <= 1_000_000_000
        && 1000 <= proximity_threshold && proximity_threshold <= 1_000_000_000 && 0
        <= collectible_size && collectible_size <= 1_000_000_000
}

/// The character of a decimal digit.
pub open spec fn digit_char(d: int) -> char {
    if d == 0 {
        '0'
    } else if d == 1 {
        '1'
    } else if d == 2 {
        '2'
    } else if d == 3 {
        '3'
    } else if d == 4 {
        '4'
    } else if d == 5 {
        '5'
    } else if d == 6 {
        '6'
    } else if d == 7 {
        '7'
    } else if d == 8 {
        '8'
    } else {
        '9'
    }
}

/// The decimal digits of a number, without leading zeros.
pub open spec fn decimal_digits(n: nat) -> Seq<char>
    decreases n,
{
    if n < 10 {
        seq![digit_char(n as int)]
    } else {
        decimal_digits(n / 10).push(digit_char((n % 10) as int))
    }
}

/// The name of the creature of the given index: `collect` and the index.
pub open spec fn label(index: nat) -> Seq<char> {
    "collect"@ + decimal_digits(index)
}

/// `c` is the creature of the given index as placement makes it: new, of
/// the given size and threshold, with an initial time below a full turn,
/// inside the margins and in the window of one of the anchors.
pub open spec fn freshly_placed(
    c: Collectible,
    index: int,
    screen_width: int,
    screen_height: int,
    cluster_size: int,
    proximity_threshold: int,
    collectible_size: int,
) -> bool {
    &&& c.wf()
    &&& c.is_new(
        c.position.x,
        c.position.y,
        collectible_size as i32,
        proximity_threshold as i32,
        c.time,
        label(index as nat),
    )
    &&& 0 <= c.time < 6280
    &&& 20_000 <= c.position.x <= screen_width - 20_000
    &&& 20_000 <= c.position.y <= screen_height - 20_000
    &&& exists|k: int|
        0 <= k < 14 && in_window(
            c.position,
            #[trigger] cluster_point(
                ClusterPointCollection::Collection2,
                screen_width,
                screen_height,
                k,
            ),
            cluster_size,
            screen_width,
            screen_height,
        )
}

fn digit_str(d: u32) -> (text: &'static str)
    requires
        d < 10,
    ensures
        text@ == seq![digit_char(d as int)],
{
    proof {
        reveal_strlit("0");
        reveal_strlit("1");
        reveal_strlit("2");
        reveal_strlit("3");
        reveal_strlit("4");
        reveal_strlit("5");
        reveal_strlit("6");
        reveal_strlit("7");
        reveal_strlit("8");
        reveal_strlit("9");
    }
    let text: &'static str = if d == 0 {
        "0"
    } else if d == 1 {
        "1"
    } else if d == 2 {
        "2"
    } else if d == 3 {
        "3"
    } else if d == 4 {
        "4"
    } else if d == 5 {
        "5"
    } else if d == 6 {
        "6"
    } else if d == 7 {
        "7"
    } else if d == 8 {
        "8"
    } else {
        "9"
    };
    assert(text@ =~= seq![digit_char(d as int)]);
    text
}

/// The decimal digits of a number.
pub fn decimal_string(n: u32) -> (text: String)
    ensures
        text@ == decimal_digits(n as nat),
    decreases n,
{
    if n < 10 {
        String::from_str(digit_str(n))
    } else {
        let mut text: String = decimal_string(n / 10);
        text.append(digit_str(n % 10));
        assert(text@ =~= decimal_digits(n as nat));
        text
    }
}

/// The name of the creature of the given index.
pub fn label_of(index: u32) -> (text: String)
    ensures
        text@ == label(index as nat),
{
    let mut text: String = String::from_str("collect");
    let digits: String = decimal_string(index);
    text.append(digits.as_str());
    text
}

/// Whether the candidate keeps the separation from every creature placed
/// so far.
pub fn is_clear(placed: &Vec<Collectible>, candidate: Point, min_separation: i32) -> (clear: bool)
    ensures
        clear == clear_of(placed@, candidate, min_separation as int),
{
    if min_separation <= 0 {
        return true;
    }
    let least: u128 = square(min_separation as i64);
    let mut k: usize = 0;
    while k < placed.len()
        invariant
            k <= placed@.len(),
            min_separation > 0,
            least == min_separation * min_separation,
            forall|m: int|
                0 <= m < k ==> !too_close(
                    (#[trigger] placed@[m]).position,
                    candidate,
                    min_separation as int,
                ),
        decreases placed@.len() - k,
    {
        let p: Point = placed[k].position;
        let sx: u128 = square(candidate.x as i64 - p.x as i64);
        let sy: u128 = square(candidate.y as i64 - p.y as i64);
        assert(sx <= 0x1_0000_0000_0000_0000 && sy <= 0x1_0000_0000_0000_0000)
            by (nonlinear_arith)
            requires
                -0x1_0000_0000 <= candidate.x - p.x <= 0x1_0000_0000,
                -0x1_0000_0000 <= candidate.y - p.y <= 0x1_0000_0000,
                sx == (candidate.x - p.x) * (candidate.x - p.x),
                sy == (candidate.y - p.y) * (candidate.y - p.y),
        ;
        if sx + sy < least {
            assert(too_close(placed@[k as int].position, candidate, min_separation as int));
            return false;
        }
        k += 1;
    }
    true
}

/// Decides what follows from a candidate place, given the creatures placed
/// so far and the number of rejections in a row before it.
pub fn placement_step(
    placed: &Vec<Collectible>,
    candidate: Point,
    failure_count: i32,
    min_separation: i32,
) -> (step: PlacementStep)
    requires
        0 <= failure_count < MAX_PLACEMENT_FAILURES,
    ensures
        step == next_step(
            clear_of(placed@, candidate, min_separation as int),
            failure_count as int,
        ),
{
    if is_clear(placed, candidate, min_separation) {
        PlacementStep::Place
    } else if failure_count + 1 >= MAX_PLACEMENT_FAILURES {
        PlacementStep::Abort
    } else {
        PlacementStep::Retry
    }
}

/// The window around an anchor from which a place is drawn: the least and
/// the greatest horizontal coordinate, then the least and the greatest
/// vertical one.
pub fn jitter_window(anchor: (i32, i32), cluster_size: i32) -> (w: (i32, i32, i32, i32))
    requires
        0 <= anchor.0 <= 1_000_000_000,
        0 <= anchor.1 <= 1_000_000_000,
        0 <= cluster_size <= 1_000_000_000,
    ensures
        w.0 == anchor.0 - cluster_size,
        w.1 == anchor.0 + cluster_size,
        w.2 == anchor.1 - cluster_size,
        w.3 == anchor.1 + cluster_size,
{
    (
        anchor.0 - cluster_size,
        anchor.0 + cluster_size,
        anchor.1 - cluster_size,
        anchor.1 + cluster_size,
    )
}

/// The candidate place for a draw `drawn_x`, `drawn_y` from the window
/// around an anchor: the draw, moved inside the margins.
pub fn candidate_position(drawn_x: i32, drawn_y: i32, screen_width: i32, screen_height: i32) -> (p:
    Point)
    requires
        2 * WORLD_MARGIN <= screen_width,
        2 * WORLD_MARGIN <= screen_height,
    ensures
        p.x == clamp_to_world(drawn_x as int, screen_width as int),
        p.y == clamp_to_world(drawn_y as int, screen_height as int),
{
    let x: i64 = clamp(
        drawn_x as i64,
        WORLD_MARGIN as i64,
        screen_width as i64 - WORLD_MARGIN as i64,
    );
    let y: i64 = clamp(
        drawn_y as i64,
        WORLD_MARGIN as i64,
        screen_height as i64 - WORLD_MARGIN as i64,
    );
    Point { x: x as i32, y: y as i32 }
}

/// Places `collectible_count` creatures. Fails when twenty places in a row
/// were rejected for one creature, which cannot happen for the first
/// creature, nor where no separation is asked for.
pub fn generate_collectibles(
    screen_width: i32,
    screen_height: i32,
    collectible_count: i32,
    cluster_size: i32,
    proximity_threshold: i32,
    collectible_size: i32,
    min_separation: i32,
) -> (result: Result<Vec<Collectible>, PlacementError>)
    requires
        valid_world(
            screen_width as int,
            screen_height as int,
            cluster_size as int,
            proximity_threshold as int,
            collectible_size as int,
        ),
    ensures
        match result {
            Ok(collectibles) => {
                &&& collectibles@.len() == if collectible_count < 0 {
                    0
                } else {
                    collectible_count as int
                }
                &&& forall|i: int|
                    0 <= i < collectibles@.len() ==> freshly_placed(
                        #[trigger] collectibles@[i],
                        i,
                        screen_width as int,
                        screen_height as int,
                        cluster_size as int,
                        proximity_threshold as int,
                        collectible_size as int,
                    )
                &&& pairwise_separated(collectibles@, min_separation as int)
            },
            Err(_) => collectible_count >= 2 && min_separation > 0,
        },
{
    let mut collectibles: Vec<Collectible> = Vec::new();
    let mut rng = rand::thread_rng();
    let cluster_points = get_cluster_points(
        ClusterPointCollection::Collection2,
        screen_width,
        screen_height,
    );
    let mut i: i32 = 0;
    while i < collectible_count
        invariant
            0 <= i,
            i <= collectible_count || i == 0,
            valid_world(
                screen_width as int,
                screen_height as int,
                cluster_size as int,
                proximity_threshold as int,
                collectible_size as int,
            ),
            cluster_points@.len() == 14,
            forall|k: int|
                0 <= k < 14 ==> cluster_points@[k] == cluster_point(
                    ClusterPointCollection::Collection2,
                    screen_width as int,
                    screen_height as int,
                    k,
                ),
            collectibles@.len() == i,
            forall|k: int|
                0 <= k < collectibles@.len() ==> freshly_placed(
                    #[trigger] collectibles@[k],
                    k,
                    screen_width as int,
                    screen_height as int,
                    cluster_size as int,
                    proximity_threshold as int,
                    collectible_size as int,
                ),
            pairwise_separated(collectibles@, min_separation as int),
        decreases collectible_count - i,
    {
        let initial_time: i32 = draw_between(&mut rng, 0, LAST_INITIAL_TIME);
        let id: String = label_of(i as u32);
        let ghost before = collectibles@;
        let mut failure_count: i32 = 0;
        loop
            invariant_except_break
                collectibles@ == before,
            invariant
                0 <= failure_count < MAX_PLACEMENT_FAILURES,
                0 <= i < collectible_count,
                0 <= initial_time < 6280,
                id@ == label(i as nat),
                before.len() == i,
                valid_world(
                    screen_width as int,
                    screen_height as int,
                    cluster_size as int,
                    proximity_threshold as int,
                    collectible_size as int,
                ),
                cluster_points@.len() == 14,
                forall|k: int|
                    0 <= k < 14 ==> cluster_points@[k] == cluster_point(
                        ClusterPointCollection::Collection2,
                        screen_width as int,
                        screen_height as int,
                        k,
                    ),
                forall|k: int|
                    0 <= k < before.len() ==> freshly_placed(
                        #[trigger] before[k],
                        k,
                        screen_width as int,
                        screen_height as int,
                        cluster_size as int,
                        proximity_threshold as int,
                        collectible_size as int,
                    ),
                pairwise_separated(before, min_separation as int),
            ensures
                collectibles@.len() == i + 1,
                forall|k: int|
                    0 <= k < collectibles@.len() ==> freshly_placed(
                        #[trigger] collectibles@[k],
                        k,
                        screen_width as int,
                        screen_height as int,
                        cluster_size as int,
                        proximity_threshold as int,
                        collectible_size as int,
                    ),
                pairwise_separated(collectibles@, min_separation as int),
            decreases MAX_PLACEMENT_FAILURES - failure_count,
        {
            let choice: usize = draw_between(&mut rng, 0, LAST_CLUSTER_POINT) as usize;
            let anchor: (i32, i32) = cluster_points[choice];
            proof {
                lemma_cluster_point_inside(
                    ClusterPointCollection::Collection2,
                    screen_width as int,
                    screen_height as int,
                    choice as int,
                );
            }
            let window: (i32, i32, i32, i32) = jitter_window(anchor, cluster_size);
            let drawn_x: i32 = draw_between(&mut rng, window.0, window.1);
            let drawn_y: i32 = draw_between(&mut rng, window.2, window.3);
            let candidate: Point = candidate_position(
                drawn_x,
                drawn_y,
                screen_width,
                screen_height,
            );
            match placement_step(&collectibles, candidate, failure_count, min_separation) {
                PlacementStep::Abort => {
                    assert(!clear_of(before, candidate, min_separation as int));
                    return Err(PlacementError::Exhausted);
                },
                PlacementStep::Retry => {
                    failure_count += 1;
                },
                PlacementStep::Place => {
                    let collectible = Collectible::new(
                        candidate.x,
                        candidate.y,
                        collectible_size,
                        proximity_threshold,
                        initial_time,
                        id,
                        false,
                        10_000_000,
                    );
                    proof {
                        assert(in_window(
                            candidate,
                            cluster_point(
                                ClusterPointCollection::Collection2,
                                screen_width as int,
                                screen_height as int,
                                choice as int,
                            ),
                            cluster_size as int,
                            screen_width as int,
                            screen_height as int,
                        ));
                        assert(freshly_placed(
                            collectible,
                            i as int,
                            screen_width as int,
                            screen_height as int,
                            cluster_size as int,
                            proximity_threshold as int,
                            collectible_size as int,
                        ));
                    }
                    collectibles.push(collectible);
                    proof {
                        assert forall|k: int| 0 <= k < collectibles@.len() implies freshly_placed(
                            #[trigger] collectibles@[k],
                            k,
                            screen_width as int,
                            screen_height as int,
                            cluster_size as int,
                            proximity_threshold as int,
                            collectible_size as int,
                        ) by {
                            if k < i {
                                assert(collectibles@[k] == before[k]);
                            }
                        }
                        assert forall|a: int, b: int|
                            0 <= a < b < collectibles@.len() implies !too_close(
                            (#[trigger] collectibles@[a]).position,
                            (#[trigger] collectibles@[b]).position,
                            min_separation as int,
                        ) by {
                            assert(collectibles@[a] == before[a]);
                            if b < i {
                                assert(collectibles@[b] == before[b]);
                            }
                        }
                    }
                    break ;
                },
            }
        }
        i += 1;
    }
    Ok(collectibles)
}

} // verus!
