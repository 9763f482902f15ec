//! The tentacle of a creature: a length that follows its desired value
//! smoothly, and a polyline that reaches from the creature towards the
//! agent and is displaced sideways by noise.
//!
//! One tick is `update` (length and target), `noise_phases` (where the
//! caller samples the noise field) and `reshape` (the polyline).

use vstd::prelude::*;
use crate::fixed::{
    clamp_int,
    div_round,
    lemma_round_div_bound,
    round_div,
    COORD_LIMIT,
    TIME_LIMIT,
};
use crate::geometry::{displace, displaced, fine_distance, fine_distance_to, Color, Point};
use crate::noise_field::{noise_sample, sample_at};

verus! {

/// The least length that a tentacle in proximity strives for.
pub const MIN_TENTACLE_LENGTH: i32 = 1000;

/// Once the length is within this distance of its desired value it rests.
pub const LENGTH_TOLERANCE: i32 = 10;

/// Share of the gap by which a tentacle grows in one tick.
pub const GROWTH_RATE: i32 = 50;

/// Share of the gap by which a tentacle shrinks in one tick.
pub const SHRINK_RATE: i32 = 50;

/// Share of its length that a tentacle far from the agent strives for.
pub const RETRACTION: i32 = 950;

/// How far along the time axis of the noise field the tip of a tentacle is
/// sampled behind its base.
pub const PHASE_MULTIPLIER: i32 = 2000;

/// How far noise of value 1 displaces a vertex sideways, in whole units.
pub const DISPLACEMENT_AMPLITUDE: i32 = 23;

/// The tentacle of a creature.
#[derive(Debug)]
pub struct Tentacle {
    pub base_position: Point,
    pub thickness: i32,
    pub color: Color,
    pub time: i32,
    pub points: Vec<Point>,
    pub in_proximity: bool,
    /// The target of the last update, towards which the tentacle reaches.
    pub target_position: Point,
    pub current_tentacle_length: i32,
}

/// The farthest that the tentacle reaches for a target at the given
/// distance: the distance, but at least 1 and at most the threshold. The
/// distance and the result are in units of 10^-12, the threshold is in
/// thousandths.
pub open spec fn reach_limit(target_distance: int, max_distance_threshold: int) -> int {
    clamp_int(target_distance, 1_000_000_000_000, max_distance_threshold * 1_000_000_000)
}

/// The length that the tentacle strives for: in proximity the closeness
/// times the reach, rounded to the nearest thousandth, at least the
/// minimum; otherwise 0.95 of the current length. The distance of the
/// target is in units of 10^-12.
pub open spec fn desired_length(
    current: int,
    closeness: int,
    target_distance: int,
    max_distance_threshold: int,
    in_proximity: bool,
) -> int {
    if in_proximity {
        let reach = round_div(
            closeness * reach_limit(target_distance, max_distance_threshold),
            1_000_000_000_000,
        );
        if reach < 1000 {
            1000
        } else {
            reach
        }
    } else {
        round_div(current * RETRACTION, 1000)
    }
}

/// One step of the length towards its desired value: a twentieth of the
/// gap, rounded to the nearest thousandth.
pub open spec fn approach(current: int, desired: int) -> int {
    if current < desired {
        current + round_div((desired - current) * GROWTH_RATE, 1000)
    } else {
        current - round_div((current - desired) * SHRINK_RATE, 1000)
    }
}

/// The length after one tick.
pub open spec fn next_length(
    current: int,
    closeness: int,
    target_distance: int,
    max_distance_threshold: int,
    in_proximity: bool,
) -> int {
    approach(
        current,
        desired_length(current, closeness, target_distance, max_distance_threshold, in_proximity),
    )
}

/// The length after a sequence of ticks, each given by the closeness, the
/// distance of the target, the distance threshold and the proximity flag
/// of that tick.
pub open spec fn length_after(current: int, ticks: Seq<(int, int, int, bool)>) -> int
    decreases ticks.len(),
{
    if ticks.len() == 0 {
        current
    } else {
        length_after(
            next_length(current, ticks[0].0, ticks[0].1, ticks[0].2, ticks[0].3),
            ticks.drop_first(),
        )
    }
}

/// The length after `ticks` steps towards a desired value that stays the
/// same.
pub open spec fn settle(current: int, desired: int, ticks: nat) -> int
    decreases ticks,
{
    if ticks == 0 {
        current
    } else {
        settle(approach(current, desired), desired, (ticks - 1) as nat)
    }
}

/// The distance between two lengths.
pub open spec fn gap(current: int, desired: int) -> int {
    if current < desired {
        desired - current
    } else {
        current - desired
    }
}

/// Number of vertices of a tentacle of the given length: the length in
/// whole units, rounded up.
pub open spec fn vertex_count(length: int) -> int {
    (length + 999) / 1000
}

/// Where along the time axis of the noise field vertex `i` is sampled:
/// the time plus twice the vertex's relative position along the
/// tentacle, rounded to the nearest thousandth.
pub open spec fn phase_of(i: int, time: int, length: int) -> int {
    time + round_div(i * (1000 * PHASE_MULTIPLIER), length)
}

/// The points of the noise field at which a tentacle is sampled.
pub open spec fn tentacle_phases(time: int, length: int) -> Seq<Point> {
    Seq::new(
        vertex_count(length) as nat,
        |i: int| Point { x: phase_of(i, time, length) as i32, y: 0 },
    )
}

/// Vertex `i` of a tentacle: `i` units from the base towards the target,
/// displaced sideways by 23 units times the noise sample `n`. With the
/// target on the base every vertex is the base.
pub open spec fn tentacle_vertex(i: int, base: Point, target: Point, n: int) -> Point {
    displaced(base, target, i * 1000, n * DISPLACEMENT_AMPLITUDE)
}

/// The polyline of a tentacle.
pub open spec fn tentacle_points(base: Point, target: Point, length: int, noise: Seq<i32>) -> Seq<
    Point,
> {
    Seq::new(
        vertex_count(length) as nat,
        |i: int| tentacle_vertex(i, base, target, sample_at(noise, i)),
    )
}

/// A step covers a twentieth of the gap, and a retraction leaves nineteen
/// twentieths of the length, each rounded to the nearest thousandth.
pub proof fn lemma_rates(g: int)
    ensures
        round_div(g * GROWTH_RATE, 1000) == (g + 10) / 20,
        round_div(g * SHRINK_RATE, 1000) == (g + 10) / 20,
        round_div(g * RETRACTION, 1000) == (19 * g + 10) / 20,
{
    assert(g * GROWTH_RATE == 50 * g && g * SHRINK_RATE == 50 * g && g * RETRACTION == 950 * g);
    let q = (g + 10) / 20;
    let step = 100 * g + 1000;
    assert(q * 2000 == 2000 * q) by (nonlinear_arith);
    vstd::arithmetic::div_mod::lemma_fundamental_div_mod_converse(
        step,
        2000,
        q,
        step - 2000 * q,
    );
    let k = (19 * g + 10) / 20;
    let rest = 1900 * g + 1000;
    assert(k * 2000 == 2000 * k) by (nonlinear_arith);
    vstd::arithmetic::div_mod::lemma_fundamental_div_mod_converse(
        rest,
        2000,
        k,
        rest - 2000 * k,
    );
}

/// In proximity the desired length depends on the agent alone, not on the
/// current length.
pub proof fn lemma_desired_length_in_proximity(
    current1: int,
    current2: int,
    closeness: int,
    target_distance: int,
    max_distance_threshold: int,
)
    ensures
        desired_length(current1, closeness, target_distance, max_distance_threshold, true)
            == desired_length(current2, closeness, target_distance, max_distance_threshold, true),
        desired_length(current1, closeness, target_distance, max_distance_threshold, true)
            >= 1000,
{
}

/// A step never leaves the interval between the current and the desired
/// length, and moves by at most a twentieth of the gap.
pub proof fn lemma_approach_between(current: int, desired: int)
    ensures
        current <= desired ==> current <= approach(current, desired) <= desired,
        desired <= current ==> desired <= approach(current, desired) <= current,
        20 * gap(current, approach(current, desired)) <= gap(current, desired) + 10,
{
    lemma_rates(desired - current);
    lemma_rates(current - desired);
}

/// Each step shrinks the gap to the desired length by a twentieth, rounded
/// to the nearest thousandth: the gap never grows, and it strictly shrinks
/// until it is within the tolerance.
pub proof fn lemma_approach_converges(current: int, desired: int)
    ensures
        gap(approach(current, desired), desired) == gap(current, desired) - (gap(
            current,
            desired,
        ) + 10) / 20,
        gap(approach(current, desired), desired) <= gap(current, desired),
        gap(current, desired) >= 10 ==> gap(approach(current, desired), desired) < gap(
            current,
            desired,
        ),
        gap(current, desired) < 10 ==> approach(current, desired) == current,
{
    lemma_rates(desired - current);
    lemma_rates(current - desired);
}

/// A length that is not negative stays so after a tick.
pub proof fn lemma_next_length_not_negative(
    current: int,
    closeness: int,
    target_distance: int,
    max_distance_threshold: int,
    in_proximity: bool,
)
    requires
        0 <= current,
    ensures
        0 <= next_length(current, closeness, target_distance, max_distance_threshold, in_proximity),
{
    let desired = desired_length(
        current,
        closeness,
        target_distance,
        max_distance_threshold,
        in_proximity,
    );
    lemma_rates(current);
    lemma_rates(desired - current);
    lemma_rates(current - desired);
}

/// A length that is not negative stays so across any sequence of ticks.
pub proof fn lemma_length_never_negative(current: int, ticks: Seq<(int, int, int, bool)>)
    requires
        0 <= current,
    ensures
        0 <= length_after(current, ticks),
    decreases ticks.len(),
{
    if ticks.len() > 0 {
        lemma_next_length_not_negative(
            current,
            ticks[0].0,
            ticks[0].1,
            ticks[0].2,
            ticks[0].3,
        );
        lemma_length_never_negative(
            next_length(current, ticks[0].0, ticks[0].1, ticks[0].2, ticks[0].3),
            ticks.drop_first(),
        );
    }
}

/// Away from the agent the tentacle never grows.
pub proof fn lemma_retracts_when_far(
    current: int,
    closeness: int,
    target_distance: int,
    max_distance_threshold: int,
)
    requires
        0 <= current,
    ensures
        next_length(current, closeness, target_distance, max_distance_threshold, false) <= current,
{
    let desired = desired_length(
        current,
        closeness,
        target_distance,
        max_distance_threshold,
        false,
    );
    lemma_rates(current);
    lemma_rates(desired - current);
    lemma_rates(current - desired);
}

/// Under a desired length that stays the same, the length is never
/// negative and its gap to the desired length never grows, however many
/// ticks pass.
pub proof fn lemma_settle_bounds(current: int, desired: int, ticks: nat)
    requires
        0 <= current,
        0 <= desired,
    ensures
        0 <= settle(current, desired, ticks),
        gap(settle(current, desired, ticks), desired) <= gap(current, desired),
    decreases ticks,
{
    if ticks > 0 {
        lemma_approach_between(current, desired);
        lemma_approach_converges(current, desired);
        lemma_settle_bounds(approach(current, desired), desired, (ticks - 1) as nat);
    }
}

/// A length at its desired value stays there, however many ticks pass.
pub proof fn lemma_settle_equilibrium(desired: int, ticks: nat)
    ensures
        settle(desired, desired, ticks) == desired,
    decreases ticks,
{
    lemma_rates(0);
    if ticks > 0 {
        lemma_settle_equilibrium(desired, (ticks - 1) as nat);
    }
}

/// The ticks all find the agent in proximity, at the same closeness and
/// distance and under the same threshold.
pub open spec fn held_in_proximity(
    ticks: Seq<(int, int, int, bool)>,
    closeness: int,
    target_distance: int,
    max_distance_threshold: int,
) -> bool {
    forall|k: int|
        0 <= k < ticks.len() ==> #[trigger] ticks[k] == (
            closeness,
            target_distance,
            max_distance_threshold,
            true,
        )
}

/// While the agent is held in proximity at the same closeness and
/// distance, the desired length stays the same and the length settles
/// towards it tick by tick.
pub proof fn lemma_length_settles_in_proximity(
    current: int,
    ticks: Seq<(int, int, int, bool)>,
    closeness: int,
    target_distance: int,
    max_distance_threshold: int,
)
    requires
        held_in_proximity(ticks, closeness, target_distance, max_distance_threshold),
    ensures
        length_after(current, ticks) == settle(
            current,
            desired_length(current, closeness, target_distance, max_distance_threshold, true),
            ticks.len(),
        ),
    decreases ticks.len(),
{
    if ticks.len() > 0 {
        let desired = desired_length(
            current,
            closeness,
            target_distance,
            max_distance_threshold,
            true,
        );
        let next = next_length(current, closeness, target_distance, max_distance_threshold, true);
        assert(ticks[0] == (closeness, target_distance, max_distance_threshold, true));
        let rest = ticks.drop_first();
        assert forall|k: int| 0 <= k < rest.len() implies #[trigger] rest[k] == (
            closeness,
            target_distance,
            max_distance_threshold,
            true,
        ) by {
            assert(rest[k] == ticks[k + 1]);
        }
        lemma_length_settles_in_proximity(
            next,
            ticks.drop_first(),
            closeness,
            target_distance,
            max_distance_threshold,
        );
        lemma_desired_length_in_proximity(
            current,
            next,
            closeness,
            target_distance,
            max_distance_threshold,
        );
    }
}

/// While the gap exceeds the tolerance, one more tick strictly shrinks it.
pub proof fn lemma_settle_strictly_converges(current: int, desired: int, ticks: nat)
    requires
        gap(settle(current, desired, ticks), desired) >= 10,
    ensures
        gap(settle(current, desired, ticks + 1), desired) < gap(
            settle(current, desired, ticks),
            desired,
        ),
    decreases ticks,
{
    if ticks == 0 {
        assert(settle(current, desired, 1) == settle(approach(current, desired), desired, 0));
        lemma_approach_converges(current, desired);
    } else {
        lemma_settle_strictly_converges(approach(current, desired), desired, (ticks - 1) as nat);
    }
}

/// One step of a length towards its desired value.
pub fn step_toward(current: i32, desired: i32) -> (next: i32)
    requires
        0 <= current,
        0 <= desired,
    ensures
        next == approach(current as int, desired as int),
{
    proof {
        lemma_rates(desired - current);
        lemma_rates(current - desired);
    }
    if current < desired {
        current + (((desired - current) as i64 * 100 + 1000) / 2000) as i32
    } else {
        current - (((current - desired) as i64 * 100 + 1000) / 2000) as i32
    }
}

impl Tentacle {
    /// The state is within the limits that keep every computation in
    /// range.
    pub open spec fn wf(&self) -> bool {
        &&& self.base_position.in_limits()
        &&& 0 <= self.current_tentacle_length <= COORD_LIMIT
        &&& 0 <= self.time <= TIME_LIMIT
    }

    /// Whether the state is within its limits.
    pub fn is_well_formed(&self) -> (valid: bool)
        ensures
            valid == self.wf(),
    {
        self.base_position.is_in_limits() && 0 <= self.current_tentacle_length
            && self.current_tentacle_length <= 1_000_000_000 && 0 <= self.time && self.time
            <= 2_000_000_000
    }

    /// `next` is this tentacle after one tick of the length dynamics
    /// against the given target: it reaches for the target, its
    /// length has moved a step towards its desired value, and its
    /// polyline is empty.
    pub open spec fn updates_to(
        &self,
        next: &Tentacle,
        target_position: Point,
        normalized_distance: int,
        t: int,
        color: Color,
        in_proximity: bool,
        max_distance_threshold: int,
    ) -> bool {
        &&& next.current_tentacle_length == next_length(
            self.current_tentacle_length as int,
            normalized_distance,
            fine_distance(self.base_position, target_position),
            max_distance_threshold,
            in_proximity,
        )
        &&& next.target_position == target_position
        &&& next.in_proximity == in_proximity
        &&& next.color == color
        &&& next.time == t
        &&& next.points@ == Seq::<Point>::empty()
        &&& next.base_position == self.base_position
        &&& next.thickness == self.thickness
    }

    /// `next` is this tentacle with the polyline that the noise samples
    /// give; nothing else differs.
    pub open spec fn reshapes_to(&self, next: &Tentacle, noise: Seq<i32>) -> bool {
        &&& next.points@ == tentacle_points(
            self.base_position,
            self.target_position,
            self.current_tentacle_length as int,
            noise,
        )
        &&& next.base_position == self.base_position
        &&& next.thickness == self.thickness
        &&& next.color == self.color
        &&& next.time == self.time
        &&& next.in_proximity == self.in_proximity
        &&& next.target_position == self.target_position
        &&& next.current_tentacle_length == self.current_tentacle_length
    }

    /// A tentacle of length 1 whose target is its own base.
    pub fn new(base_position: Point, thickness: i32, color: Color, initial_time: i32) -> (tentacle:
        Tentacle)
        requires
            base_position.in_limits(),
            0 <= initial_time <= 2_000_000_000,
        ensures
            tentacle.wf(),
            tentacle.base_position == base_position,
            tentacle.thickness == thickness,
            tentacle.color == color,
            tentacle.time == initial_time,
            tentacle.points@ == Seq::<Point>::empty(),
            !tentacle.in_proximity,
            tentacle.target_position == base_position,
            tentacle.current_tentacle_length == 1000,
    {
        Tentacle {
            base_position,
            thickness,
            color,
            time: initial_time,
            points: Vec::new(),
            in_proximity: false,
            target_position: base_position,
            current_tentacle_length: 1000,
        }
    }

    /// The length that the tentacle strives for against the given target.
    pub fn desired_length(
        &self,
        normalized_distance: i32,
        target_position: Point,
        in_proximity: bool,
        max_distance_threshold: i32,
    ) -> (desired: i32)
        requires
            self.wf(),
            0 <= normalized_distance <= 1000,
            1000 <= max_distance_threshold <= 1_000_000_000,
        ensures
            desired == self::desired_length(
                self.current_tentacle_length as int,
                normalized_distance as int,
                fine_distance(self.base_position, target_position),
                max_distance_threshold as int,
                in_proximity,
            ),
            0 <= desired <= 1_000_000_000,
    {
        if in_proximity {
            let target_distance: i128 = fine_distance_to(&self.base_position, &target_position)
                as i128;
            let farthest: i128 = max_distance_threshold as i128 * 1_000_000_000;
            let limit: i128 = if target_distance < 1_000_000_000_000 {
                1_000_000_000_000
            } else if target_distance > farthest {
                farthest
            } else {
                target_distance
            };
            assert(0 <= normalized_distance * limit <= 1_000_000_000 * 1_000_000_000_000)
                by (nonlinear_arith)
                requires
                    0 <= normalized_distance <= 1000,
                    0 <= limit <= 1_000_000_000 * 1_000_000_000,
            ;
            proof {
                lemma_round_div_bound(
                    normalized_distance * limit,
                    1_000_000_000_000,
                    1_000_000_000,
                );
            }
            let reach: i128 = div_round(normalized_distance as i128 * limit, 1_000_000_000_000);
            if reach < 1000 {
                1000
            } else {
                reach as i32
            }
        } else {
            proof {
                lemma_rates(self.current_tentacle_length as int);
            }
            ((self.current_tentacle_length as i64 * 1900 + 1000) / 2000) as i32
        }
    }

    /// One tick of the length dynamics: takes the new target and moves
    /// the length a step towards its desired value. The polyline is
    /// discarded; `reshape` builds the new one.
    pub fn update(
        &mut self,
        target_position: Point,
        _max_length: i32,
        normalized_distance: i32,
        t: i32,
        color: Color,
        in_proximity: bool,
        max_distance_threshold: i32,
    )
        requires
            old(self).wf(),
            0 <= normalized_distance <= 1000,
            0 <= t <= 2_000_000_000,
            1000 <= max_distance_threshold <= 1_000_000_000,
        ensures
            final(self).wf(),
            old(self).updates_to(
                final(self),
                target_position,
                normalized_distance as int,
                t as int,
                color,
                in_proximity,
                max_distance_threshold as int,
            ),
            0 <= final(self).current_tentacle_length,
            ({
                let desired = desired_length(
                    old(self).current_tentacle_length as int,
                    normalized_distance as int,
                    fine_distance(old(self).base_position, target_position),
                    max_distance_threshold as int,
                    in_proximity,
                );
                let before = gap(old(self).current_tentacle_length as int, desired);
                let after = gap(final(self).current_tentacle_length as int, desired);
                &&& after == before - (before + 10) / 20
                &&& before >= LENGTH_TOLERANCE ==> after < before
                &&& before < LENGTH_TOLERANCE ==> final(self).current_tentacle_length == old(
                    self,
                ).current_tentacle_length
            }),
    {
        self.in_proximity = in_proximity;
        self.color = color;
        self.time = t;
        self.points = Vec::new();
        self.target_position = target_position;
        let desired: i32 = self.desired_length(
            normalized_distance,
            target_position,
            in_proximity,
            max_distance_threshold,
        );
        proof {
            lemma_approach_between(self.current_tentacle_length as int, desired as int);
            lemma_approach_converges(self.current_tentacle_length as int, desired as int);
        }
        self.current_tentacle_length = step_toward(self.current_tentacle_length, desired);
    }

    /// Number of vertices of the polyline.
    pub fn vertex_count(&self) -> (count: usize)
        requires
            self.wf(),
        ensures
            count == self::vertex_count(self.current_tentacle_length as int),
            count <= 1_000_000,
    {
        ((self.current_tentacle_length as i64 + 999) / 1000) as usize
    }

    /// The points at which the caller samples the noise field for
    /// `reshape`, one for each vertex.
    pub fn noise_phases(&self) -> (phases: Vec<Point>)
        requires
            self.wf(),
        ensures
            phases@ == tentacle_phases(self.time as int, self.current_tentacle_length as int),
    {
        let count: usize = self.vertex_count();
        let length: i64 = self.current_tentacle_length as i64;
        let mut phases: Vec<Point> = Vec::new();
        let mut i: usize = 0;
        while i < count
            invariant
                self.wf(),
                i <= count,
                count == self::vertex_count(self.current_tentacle_length as int),
                length == self.current_tentacle_length,
                phases@.len() == i,
                forall|k: int|
                    0 <= k < i ==> phases@[k] == (Point {
                        x: phase_of(k, self.time as int, length as int) as i32,
                        y: 0,
                    }),
            decreases count - i,
        {
            proof {
                assert(i * 2_000_000 <= 2000 * length) by (nonlinear_arith)
                    requires
                        0 <= i * 1000 < length,
                ;
                lemma_round_div_bound(i * 2_000_000, length as int, 2000);
            }
            let along: i128 = div_round(i as i128 * 2_000_000, length as i128);
            let phase: i64 = self.time as i64 + along as i64;
            phases.push(Point { x: phase as i32, y: 0 });
            i += 1;
        }
        assert(phases@ =~= tentacle_phases(
            self.time as int,
            self.current_tentacle_length as int,
        ));
        phases
    }

    /// Builds the polyline from the noise samples taken at `noise_phases`.
    pub fn reshape(&mut self, noise: &Vec<i32>)
        requires
            old(self).wf(),
        ensures
            final(self).wf(),
            old(self).reshapes_to(final(self), noise@),
    {
        let count: usize = self.vertex_count();
        let base: Point = self.base_position;
        let target: Point = self.target_position;
        let mut points: Vec<Point> = Vec::new();
        let mut i: usize = 0;
        while i < count
            invariant
                i <= count,
                count <= 1_000_000,
                base.in_limits(),
                points@.len() == i,
                forall|k: int|
                    0 <= k < i ==> points@[k] == tentacle_vertex(
                        k,
                        base,
                        target,
                        sample_at(noise@, k),
                    ),
            decreases count - i,
        {
            let n: i64 = noise_sample(noise, i) as i64;
            points.push(displace(&base, &target, i as i64 * 1000, n * 23));
            i += 1;
        }
        assert(points@ =~= tentacle_points(
            base,
            target,
            self.current_tentacle_length as int,
            noise@,
        ));
        self.points = points;
    }

    /// Sets the colour of the stroke.
    pub fn set_color(&mut self, new_color: Color)
        ensures
            *final(self) == (Tentacle { color: new_color, ..*old(self) }),
    {
        self.color = new_color;
    }

    /// Sets the width of the stroke.
    pub fn set_thickness(&mut self, new_thickness: i32)
        ensures
            *final(self) == (Tentacle { thickness: new_thickness, ..*old(self) }),
    {
        self.thickness = new_thickness;
    }
}

} // verus!
