//! A creature: its place and size, what it knows of the agent's distance,
//! and its outline, eye, tentacle and colour.
//!
//! One tick is `update` (time, tentacle length, eye), `noise_requests`
//! (where the caller samples the noise field and takes the sine) and
//! `reshape` (outline, colour and tentacle polyline).

use vstd::prelude::*;
use crate::amorphous_mesh_creator::{
    blob_polygon,
    blob_sample_points_in,
    create_amorphous_mesh,
    sample_point_in,
    NoiseMode,
};
use crate::collidable::Collidable;
use crate::distance_normalizer::{in_proximity_of, normalize, normalized, within_half};
use crate::eye::Eye;
use crate::fixed::{COORD_LIMIT, ONE, TIME_LIMIT};
use crate::geometry::{Color, Point, Rect};
use crate::smoke_effect::{burst_result, pool_wf, spawn_burst, SmokeEffect};
use crate::tentacle::{tentacle_phases, Tentacle, MIN_TENTACLE_LENGTH};
use crate::utils::{dynamic_rgb, get_dynamic_color, PROXIMITY_COLOR_CUTOFF};

verus! {

/// Near bound of the distance normalizer when a distance is set alone.
pub const DISTANCE_FLOOR: i64 = 10_000;

/// Near bound of the distance normalizer when proximity is set.
pub const PROXIMITY_FLOOR: i64 = 50_000;

/// Far bound of the distance normalizer when proximity is set.
pub const NORMALIZATION_FAR: i64 = 1_000_000;

/// Below this distance the creature shows its heart.
pub const HEART_DISTANCE: i64 = 200_000;

/// Number of puffs in the burst of a removed creature.
pub const BURST_SIZE: usize = 5;

/// Closeness of a creature that has not sensed the agent yet.
pub const INITIAL_CLOSENESS: i32 = 10;

/// A creature.
pub struct Collectible {
    pub position: Point,
    pub size: i32,
    pub active: bool,
    pub radius: i32,
    /// Milliseconds lived; drives the noise and the pulse.
    pub time: i32,
    pub id: String,
    pub in_proximity: bool,
    pub distance_from_player: i64,
    pub normalized_distance: i32,
    /// The outline: a closed polygon around the position.
    pub mesh: Vec<Point>,
    pub eye: Eye,
    pub tentacle: Tentacle,
    pub color: Color,
    pub max_distance_threshold: i32,
    /// The intensity at which the colour turns from near to very near.
    pub color_cutoff: i32,
    /// How the scales of the noise follow the agent.
    pub noise_mode: NoiseMode,
}

/// Where the caller evaluates the noise field, and of which time it takes
/// the sine, before `Collectible::reshape`.
pub struct NoiseRequest {
    /// One point for each vertex of the outline.
    pub blob: Vec<Point>,
    /// One point for each vertex of the tentacle.
    pub tentacle: Vec<Point>,
    /// The time whose sine drives the pulse, in thousandths of a radian.
    pub time: i32,
}

/// The answers to a `NoiseRequest`, in the order of its points.
pub struct NoiseSamples {
    pub blob: Vec<i32>,
    pub tentacle: Vec<i32>,
    pub sin_time: i32,
}

/// The time after `dt` more milliseconds: it stops at the time limit.
pub open spec fn advanced_time(time: int, dt: int) -> int {
    if time + dt > TIME_LIMIT {
        TIME_LIMIT as int
    } else {
        time + dt
    }
}

/// The time of a creature never runs backwards and never passes its limit.
pub proof fn lemma_time_never_decreases(time: int, dt: int)
    requires
        0 <= time <= TIME_LIMIT,
        0 <= dt,
    ensures
        time <= advanced_time(time, dt) <= TIME_LIMIT,
        dt > 0 && time < TIME_LIMIT ==> time < advanced_time(time, dt),
{
}

impl Collectible {
    /// The state is within the limits that keep every computation in
    /// range: the closeness is between 0 and 1, the outline has twenty
    /// vertices, the time has not passed its limit, and the tentacle
    /// starts at the creature.
    pub open spec fn wf(&self) -> bool {
        &&& self.position.in_limits()
        &&& 0 <= self.size <= COORD_LIMIT
        &&& 0 <= self.time <= TIME_LIMIT
        &&& 0 <= self.normalized_distance <= ONE
        &&& MIN_TENTACLE_LENGTH <= self.max_distance_threshold <= COORD_LIMIT
        &&& self.mesh@.len() == 20
        &&& self.eye.wf()
        &&& self.tentacle.wf()
        &&& self.tentacle.base_position == self.position
    }

    /// Whether the state is within its limits.
    pub fn is_well_formed(&self) -> (valid: bool)
        ensures
            valid == self.wf(),
    {
        self.position.is_in_limits() && 0 <= self.size && self.size <= 1_000_000_000 && 0
            <= self.time && self.time <= 2_000_000_000 && 0 <= self.normalized_distance
            && self.normalized_distance <= 1000 && 1000 <= self.max_distance_threshold
            && self.max_distance_threshold <= 1_000_000_000 && self.mesh.len() == 20
            && self.eye.is_well_formed() && self.tentacle.is_well_formed()
            && self.tentacle.base_position.x == self.position.x && self.tentacle.base_position.y
            == self.position.y
    }

    /// `next` is this creature after a tick of `dt` milliseconds with the
    /// agent at `player_position`: its time has advanced, its tentacle has
    /// made one step of its length dynamics and its eye has followed;
    /// nothing else differs.
    pub open spec fn ticks_to(&self, next: &Collectible, dt: int, player_position: Point) -> bool {
        &&& next.time == advanced_time(self.time as int, dt)
        &&& self.tentacle.updates_to(
            &next.tentacle,
            player_position,
            self.normalized_distance as int,
            next.time as int,
            self.color,
            self.in_proximity,
            self.max_distance_threshold as int,
        )
        &&& next.eye == self.eye.updated(
            player_position,
            self.position,
            self.distance_from_player,
            self.in_proximity,
        )
        &&& *next == (Collectible {
            time: next.time,
            tentacle: next.tentacle,
            eye: next.eye,
            ..*self
        })
    }

    /// `request` is what this creature asks of the noise field: the
    /// twenty sample points of its outline at its time and closeness, the
    /// phases of its tentacle, and its time.
    pub open spec fn asks_for(&self, request: &NoiseRequest) -> bool {
        &&& request.blob@.len() == 20
        &&& forall|i: int|
            0 <= i < 20 ==> request.blob@[i] == sample_point_in(
                self.noise_mode,
                i,
                self.time as int,
                self.in_proximity,
                self.normalized_distance as int,
            )
        &&& request.tentacle@ == tentacle_phases(
            self.tentacle.time as int,
            self.tentacle.current_tentacle_length as int,
        )
        &&& request.time == self.time
    }

    /// `next` is this creature with the outline, colour and tentacle
    /// polyline that the samples give; nothing else differs.
    pub open spec fn reshapes_to(&self, next: &Collectible, samples: &NoiseSamples) -> bool {
        &&& next.mesh@ == blob_polygon(
            self.size as int,
            samples.blob@,
            self.normalized_distance as int,
        )
        &&& (next.color.r, next.color.g, next.color.b) == dynamic_rgb(
            samples.sin_time as int,
            self.normalized_distance as int,
            self.in_proximity,
            self.color_cutoff as int,
        )
        &&& next.color.a == 1000
        &&& (Tentacle { color: next.color, ..self.tentacle }).reshapes_to(
            &next.tentacle,
            samples.tentacle@,
        )
        &&& *next == (Collectible {
            mesh: next.mesh,
            color: next.color,
            tentacle: next.tentacle,
            ..*self
        })
    }

    /// This is the creature that `new` makes of the given values.
    pub open spec fn is_new(
        &self,
        x: i32,
        y: i32,
        size: i32,
        max_distance_threshold: i32,
        initial_time: i32,
        id: Seq<char>,
    ) -> bool {
        &&& self.position == (Point { x, y })
        &&& self.size == size
        &&& self.active
        &&& self.radius == size / 2
        &&& self.time == initial_time
        &&& self.id@ == id
        &&& !self.in_proximity
        &&& self.distance_from_player == 1_000_000
        &&& self.normalized_distance == INITIAL_CLOSENESS
        &&& self.mesh@ == blob_polygon(size as int, Seq::<i32>::empty(), INITIAL_CLOSENESS as int)
        &&& self.eye == (Eye {
            position: Point { x, y },
            scale: (size / 10) as i32,
            color: Color { r: 1000, g: 1000, b: 1000, a: 1000 },
            in_proximity: false,
            distance_from_player: 0,
        })
        &&& self.tentacle.base_position == (Point { x, y })
        &&& self.tentacle.current_tentacle_length == 1000
        &&& self.tentacle.points@ == Seq::<Point>::empty()
        &&& self.tentacle.thickness == 5000
        &&& self.tentacle.color == (Color { r: 1000, g: 500, b: 500, a: 0 })
        &&& self.tentacle.time == 2500
        &&& !self.tentacle.in_proximity
        &&& self.tentacle.target_position == (Point { x, y })
        &&& self.color == (Color { r: 1000, g: 0, b: 0, a: 1000 })
        &&& self.max_distance_threshold == max_distance_threshold
        &&& self.color_cutoff == PROXIMITY_COLOR_CUTOFF
        &&& self.noise_mode == NoiseMode::Interpolated
    }

    /// A creature at `(x, y)` that has not sensed the agent yet: whatever
    /// proximity and distance are passed, it starts out of proximity, at a
    /// distance of 1000 and a closeness of 0.01. Its outline is the one of
    /// a still noise field.
    pub fn new(
        x: i32,
        y: i32,
        size: i32,
        max_distance_threshold: i32,
        initial_time: i32,
        id: String,
        _in_proximity: bool,
        _distance_from_player: i64,
    ) -> (collectible: Collectible)
        requires
            (Point { x, y }).in_limits(),
            0 <= size <= 1_000_000_000,
            1000 <= max_distance_threshold <= 1_000_000_000,
            0 <= initial_time <= 2_000_000_000,
        ensures
            collectible.wf(),
            collectible.is_new(x, y, size, max_distance_threshold, initial_time, id@),
    {
        let eye = Eye::new(x, y, size / 10);
        let still: Vec<i32> = Vec::new();
        let mesh = create_amorphous_mesh(size, &still, INITIAL_CLOSENESS);
        Collectible {
            position: Point { x, y },
            size,
            active: true,
            radius: size / 2,
            time: initial_time,
            id,
            in_proximity: false,
            distance_from_player: 1_000_000,
            normalized_distance: INITIAL_CLOSENESS,
            mesh,
            eye,
            tentacle: Tentacle::new(
                Point { x, y },
                5000,
                Color { r: 1000, g: 500, b: 500, a: 0 },
                2500,
            ),
            color: Color { r: 1000, g: 0, b: 0, a: 1000 },
            max_distance_threshold,
            color_cutoff: PROXIMITY_COLOR_CUTOFF,
            noise_mode: NoiseMode::Interpolated,
        }
    }

    /// Records a distance to the agent and the closeness it gives between
    /// the distance floor and `max_distance_threshold`.
    pub fn update_distance(&mut self, distance: i64, max_distance_threshold: i64)
        requires
            DISTANCE_FLOOR < max_distance_threshold,
        ensures
            *final(self) == (Collectible {
                distance_from_player: distance,
                normalized_distance: normalized(
                    distance as int,
                    DISTANCE_FLOOR as int,
                    max_distance_threshold as int,
                ) as i32,
                ..*old(self)
            }),
            0 <= final(self).normalized_distance <= 1000,
            old(self).wf() ==> final(self).wf(),
    {
        self.distance_from_player = distance;
        self.normalized_distance = normalize(distance, DISTANCE_FLOOR, max_distance_threshold);
    }

    /// One tick of `dt` milliseconds with the agent at `player_position`.
    pub fn update(&mut self, dt: i32, player_position: Point)
        requires
            old(self).wf(),
            0 <= dt,
        ensures
            final(self).wf(),
            old(self).ticks_to(final(self), dt as int, player_position),
    {
        let later: i64 = self.time as i64 + dt as i64;
        let time: i32 = if later > 2_000_000_000 {
            2_000_000_000
        } else {
            later as i32
        };
        let closeness: i32 = self.normalized_distance;
        let color: Color = self.color;
        let near: bool = self.in_proximity;
        let threshold: i32 = self.max_distance_threshold;
        let center: Point = self.position;
        let distance: i64 = self.distance_from_player;
        self.time = time;
        self.tentacle.update(player_position, 250_000, closeness, time, color, near, threshold);
        self.eye.update(player_position, center, distance, near);
    }

    /// Where the noise field is to be sampled, and of which time the sine
    /// is to be taken, for the next `reshape`.
    pub fn noise_requests(&self) -> (request: NoiseRequest)
        requires
            self.wf(),
        ensures
            self.asks_for(&request),
    {
        NoiseRequest {
            blob: blob_sample_points_in(
                self.noise_mode,
                self.time,
                self.in_proximity,
                self.normalized_distance,
            ),
            tentacle: self.tentacle.noise_phases(),
            time: self.time,
        }
    }

    /// Rebuilds outline, colour and tentacle polyline from the samples.
    pub fn reshape(&mut self, samples: &NoiseSamples)
        requires
            old(self).wf(),
        ensures
            final(self).wf(),
            old(self).reshapes_to(final(self), samples),
    {
        self.mesh = create_amorphous_mesh(self.size, &samples.blob, self.normalized_distance);
        self.color = get_dynamic_color(
            samples.sin_time,
            self.normalized_distance,
            self.in_proximity,
            self.color_cutoff,
        );
        let color: Color = self.color;
        self.tentacle.set_color(color);
        self.tentacle.reshape(&samples.tentacle);
    }

    /// Whether the creature shows its heart in place of its outline.
    pub fn shows_heart(&self) -> (heart: bool)
        ensures
            heart == (self.distance_from_player < HEART_DISTANCE),
    {
        self.distance_from_player < HEART_DISTANCE
    }

    /// The square of the creature's size around its position.
    pub fn bounding_box(&self) -> (r: Rect)
        requires
            self.has_bounds(),
        ensures
            r == self.bounds(),
    {
        Rect {
            x: self.position.x - self.size / 2,
            y: self.position.y - self.size / 2,
            w: self.size,
            h: self.size,
        }
    }

    /// Where the burst of the creature starts.
    pub open spec fn burst_position(&self) -> Point {
        Point {
            x: (self.position.x + self.size / 2) as i32,
            y: (self.position.y + self.size / 2) as i32,
        }
    }

    /// Starts a burst of five puffs in the pool, as far as it has
    /// inactive slots.
    pub fn activate_smoke_effect(&self, smoke_effect_pool: &mut Vec<SmokeEffect>)
        requires
            self.has_bounds(),
            pool_wf(old(smoke_effect_pool)@),
        ensures
            pool_wf(final(smoke_effect_pool)@),
            burst_result(
                old(smoke_effect_pool)@,
                final(smoke_effect_pool)@,
                self.burst_position(),
                BURST_SIZE as int,
            ),
    {
        let base_position = Point {
            x: self.position.x + self.size / 2,
            y: self.position.y + self.size / 2,
        };
        spawn_burst(smoke_effect_pool, base_position, BURST_SIZE);
    }

    /// Records whether the agent is near, its distance, and the closeness
    /// that the distance gives between the proximity floor and `max`.
    pub fn set_in_proximity(&mut self, in_proximity: bool, distance: i64, max: i64)
        requires
            PROXIMITY_FLOOR < max,
        ensures
            *final(self) == old(self).sensing(in_proximity, distance, max),
            old(self).wf() ==> final(self).wf(),
    {
        self.in_proximity = in_proximity;
        self.distance_from_player = distance;
        self.normalized_distance = normalize(distance, PROXIMITY_FLOOR, max);
    }

    /// Records a distance to the agent that the proximity engine has
    /// reported: the creature is in proximity if the distance is less
    /// than half the threshold, and its closeness is the one between the
    /// proximity floor and the far bound.
    pub fn sense(&mut self, distance: i64, proximity_threshold: i32)
        ensures
            *final(self) == old(self).sensing(
                within_half(distance as int, proximity_threshold as int),
                distance,
                NORMALIZATION_FAR,
            ),
            old(self).wf() ==> final(self).wf(),
    {
        let in_proximity: bool = in_proximity_of(distance, proximity_threshold as i64);
        self.set_in_proximity(in_proximity, distance, NORMALIZATION_FAR);
    }

    /// The creature with a new proximity flag, distance and closeness.
    pub open spec fn sensing(self, in_proximity: bool, distance: i64, max: i64) -> Collectible {
        Collectible {
            in_proximity,
            distance_from_player: distance,
            normalized_distance: normalized(
                distance as int,
                PROXIMITY_FLOOR as int,
                max as int,
            ) as i32,
            ..self
        }
    }
}

impl Collidable for Collectible {
    open spec fn has_bounds(&self) -> bool {
        self.position.in_limits() && 0 <= self.size <= 1_000_000_000
    }

    open spec fn bounds(&self) -> Rect {
        Rect {
            x: (self.position.x - self.size / 2) as i32,
            y: (self.position.y - self.size / 2) as i32,
            w: self.size,
            h: self.size,
        }
    }

    fn bounding_box(&self) -> (r: Rect) {
        Collectible::bounding_box(self)
    }
}

} // verus!
