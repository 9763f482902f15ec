//! The agent that the creatures react to: a disc that accelerates while
//! its left stick is off centre.

use vstd::prelude::*;
use crate::collidable::Collidable;
use crate::fixed::{clamp_int, div_round, lemma_round_div_bound, lemma_round_div_sign, round_div};
use crate::geometry::{Color, Point, Rect};
use crate::utils::{in_thousandths, interpolate_colors, lemma_lerp_between, mixed, opaque, share};

verus! {

/// Greatest speed of the agent, in units per second.
pub const MOVEMENT_SPEED: i32 = 1_000_000;

/// Tolerance with which the disc of the agent is drawn.
pub const CIRCLE_SMOOTHNESS: i32 = 100;

/// Radius at which the agent is drawn at rest.
pub const MAX_CIRCLE_RADIUS: i32 = 50_000;

/// Radius at which the agent is drawn at full speed.
pub const MIN_CIRCLE_RADIUS: i32 = 40_000;

/// Radius of the agent in collisions.
pub const CIRCLE_RADIUS: i32 = 45_000;

/// Where the agent starts, horizontally.
pub const PLAYER_START_X_POS: i32 = 500_000;

/// Where the agent starts, vertically.
pub const PLAYER_START_Y_POS: i32 = 500_000;

/// Acceleration of the agent, in units per second per second.
pub const PLAYER_ACCELERATION: i32 = 2_000_000;

/// The agent.
pub struct Player {
    pub position: Point,
    /// Heading in thousandths of a radian.
    pub rotation: i32,
    pub axis_left: (i32, i32),
    pub axis_right: (i32, i32),
    /// Units per second.
    pub speed: i32,
    /// Units per second per second.
    pub acceleration: i32,
    pub max_speed: i32,
    pub radius: i32,
}

/// The speed after `dt` milliseconds: it grows by the acceleration up to
/// the maximum while the stick is off centre, and is 0 otherwise.
pub open spec fn accelerated(
    speed: int,
    acceleration: int,
    max_speed: int,
    dt: int,
    moving: bool,
) -> int {
    if moving {
        let faster = speed + (acceleration * dt) / 1000;
        if faster > max_speed {
            max_speed
        } else {
            faster
        }
    } else {
        0
    }
}

/// The way covered along one axis in `dt` milliseconds, rounded to the
/// nearest thousandth.
pub open spec fn displacement(axis: int, speed: int, dt: int) -> int {
    round_div(axis * speed * dt, 1_000_000)
}

/// A coordinate after the move; it stops at the coordinate limit.
pub open spec fn moved(coordinate: int, axis: int, speed: int, dt: int) -> int {
    clamp_int(coordinate + displacement(axis, speed, dt), -1_000_000_000, 1_000_000_000)
}

/// How far the speed is towards the maximum, in units of 10^-9.
pub open spec fn speed_factor(speed: int, max_speed: int) -> int {
    (speed * 1_000_000_000) / max_speed
}

/// The radius at which the disc is drawn: it shrinks from the greatest to
/// the least radius as the speed grows.
pub open spec fn drawn_radius(speed: int, max_speed: int) -> int {
    50_000 - round_div(10_000 * speed, max_speed)
}

/// The colour in which the disc is drawn, in millionths: from light blue
/// at rest to yellow-green at full speed.
pub open spec fn drawn_rgb(speed: int, max_speed: int) -> (i32, i32, i32) {
    mixed((450_980, 843_137, 1_000_000), (843_137, 1_000_000, 0), speed_factor(speed, max_speed))
}

/// The speed factor lies between 0 and 1, and the drawn radius between
/// the least and the greatest.
pub proof fn lemma_speed_factor_range(speed: int, max_speed: int)
    requires
        0 <= speed <= max_speed,
        0 < max_speed,
    ensures
        0 <= speed_factor(speed, max_speed) <= 1_000_000_000,
        40_000 <= drawn_radius(speed, max_speed) <= 50_000,
{
    vstd::arithmetic::div_mod::lemma_div_is_ordered(0, speed * 1_000_000_000, max_speed);
    vstd::arithmetic::div_mod::lemma_div_is_ordered(
        speed * 1_000_000_000,
        max_speed * 1_000_000_000,
        max_speed,
    );
    vstd::arithmetic::div_mod::lemma_div_multiples_vanish(1_000_000_000, max_speed);
    vstd::arithmetic::div_mod::lemma_div_multiples_vanish(0, max_speed);
    assert(max_speed * 1_000_000_000 == 1_000_000_000 * max_speed);
    lemma_round_div_sign(10_000 * speed, max_speed);
    lemma_round_div_bound(10_000 * speed, max_speed, 10_000);
}

impl Player {
    /// The state is within the limits that keep every computation in
    /// range.
    pub open spec fn wf(&self) -> bool {
        &&& self.position.in_limits()
        &&& -1000 <= self.axis_left.0 <= 1000
        &&& -1000 <= self.axis_left.1 <= 1000
        &&& 0 <= self.speed <= self.max_speed
        &&& 0 < self.max_speed
        &&& 0 <= self.acceleration
        &&& 0 <= self.radius <= 1_000_000_000
    }

    /// Whether the state is within its limits.
    pub fn is_well_formed(&self) -> (valid: bool)
        ensures
            valid == self.wf(),
    {
        self.position.is_in_limits() && -1000 <= self.axis_left.0 && self.axis_left.0 <= 1000
            && -1000 <= self.axis_left.1 && self.axis_left.1 <= 1000 && 0 <= self.speed
            && self.speed <= self.max_speed && 0 < self.max_speed && 0 <= self.acceleration && 0
            <= self.radius && self.radius <= 1_000_000_000
    }

    /// The left stick is off centre.
    pub open spec fn moving(&self) -> bool {
        self.axis_left.0 != 0 || self.axis_left.1 != 0
    }

    /// The right stick is off centre.
    pub open spec fn turning(&self) -> bool {
        self.axis_right.0 != 0 || self.axis_right.1 != 0
    }

    /// The agent at rest at its starting place.
    pub fn new() -> (player: Player)
        ensures
            player.wf(),
            player == (Player {
                position: Point { x: PLAYER_START_X_POS, y: PLAYER_START_Y_POS },
                rotation: 0,
                axis_left: (0, 0),
                axis_right: (0, 0),
                speed: 0,
                acceleration: PLAYER_ACCELERATION,
                max_speed: MOVEMENT_SPEED,
                radius: CIRCLE_RADIUS,
            }),
    {
        Player {
            position: Point { x: PLAYER_START_X_POS, y: PLAYER_START_Y_POS },
            rotation: 0,
            axis_left: (0, 0),
            axis_right: (0, 0),
            speed: 0,
            acceleration: PLAYER_ACCELERATION,
            max_speed: MOVEMENT_SPEED,
            radius: CIRCLE_RADIUS,
        }
    }

    /// One tick of `dt` milliseconds: the movement, then the rotation
    /// towards `heading`, the angle of the right stick.
    pub fn update(&mut self, dt: i32, heading: i32)
        requires
            old(self).wf(),
            0 <= dt,
        ensures
            final(self).wf(),
            final(self).speed == accelerated(
                old(self).speed as int,
                old(self).acceleration as int,
                old(self).max_speed as int,
                dt as int,
                old(self).moving(),
            ),
            final(self).position.x == moved(
                old(self).position.x as int,
                old(self).axis_left.0 as int,
                final(self).speed as int,
                dt as int,
            ),
            final(self).position.y == moved(
                old(self).position.y as int,
                old(self).axis_left.1 as int,
                final(self).speed as int,
                dt as int,
            ),
            final(self).rotation == if old(self).turning() {
                heading
            } else {
                old(self).rotation
            },
            final(self).axis_left == old(self).axis_left,
            final(self).axis_right == old(self).axis_right,
            final(self).acceleration == old(self).acceleration,
            final(self).max_speed == old(self).max_speed,
            final(self).radius == old(self).radius,
    {
        self.update_movement(dt);
        self.update_rotation(heading);
    }

    /// Accelerates or stops, then moves along the left stick.
    pub fn update_movement(&mut self, dt: i32)
        requires
            old(self).wf(),
            0 <= dt,
        ensures
            final(self).wf(),
            final(self).speed == accelerated(
                old(self).speed as int,
                old(self).acceleration as int,
                old(self).max_speed as int,
                dt as int,
                old(self).moving(),
            ),
            final(self).position.x == moved(
                old(self).position.x as int,
                old(self).axis_left.0 as int,
                final(self).speed as int,
                dt as int,
            ),
            final(self).position.y == moved(
                old(self).position.y as int,
                old(self).axis_left.1 as int,
                final(self).speed as int,
                dt as int,
            ),
            final(self).rotation == old(self).rotation,
            final(self).axis_left == old(self).axis_left,
            final(self).axis_right == old(self).axis_right,
            final(self).acceleration == old(self).acceleration,
            final(self).max_speed == old(self).max_speed,
            final(self).radius == old(self).radius,
    {
        if self.axis_left.0 != 0 || self.axis_left.1 != 0 {
            assert(0 <= self.acceleration * dt <= 0x8000_0000 * 0x8000_0000) by (nonlinear_arith)
                requires
                    0 <= self.acceleration < 0x8000_0000,
                    0 <= dt < 0x8000_0000,
            ;
            let faster: i64 = self.speed as i64 + (self.acceleration as i64 * dt as i64) / 1000;
            if faster > self.max_speed as i64 {
                self.speed = self.max_speed;
            } else {
                self.speed = faster as i32;
            }
        } else {
            self.speed = 0;
        }
        let x: i64 = Self::move_coordinate(self.position.x, self.axis_left.0, self.speed, dt);
        let y: i64 = Self::move_coordinate(self.position.y, self.axis_left.1, self.speed, dt);
        self.position = Point { x: x as i32, y: y as i32 };
    }

    /// A coordinate after `dt` milliseconds at the given speed.
    fn move_coordinate(coordinate: i32, axis: i32, speed: i32, dt: i32) -> (r: i64)
        requires
            -1000 <= axis <= 1000,
            0 <= speed,
            0 <= dt,
        ensures
            r == moved(coordinate as int, axis as int, speed as int, dt as int),
            -1_000_000_000 <= r <= 1_000_000_000,
    {
        assert(-(1000 * 0x8000_0000) <= axis * speed <= 1000 * 0x8000_0000) by (nonlinear_arith)
            requires
                -1000 <= axis <= 1000,
                0 <= speed < 0x8000_0000,
        ;
        let per_second: i64 = axis as i64 * speed as i64;
        assert(-(4_611_686_018_427_388 * 1_000_000) <= per_second * dt <= 4_611_686_018_427_388
            * 1_000_000) by (nonlinear_arith)
            requires
                -(1000 * 0x8000_0000) <= per_second <= 1000 * 0x8000_0000,
                0 <= dt < 0x8000_0000,
        ;
        proof {
            lemma_round_div_bound(per_second * dt, 1_000_000, 4_611_686_018_427_388);
        }
        let way: i128 = div_round(per_second as i128 * dt as i128, 1_000_000);
        crate::fixed::clamp(coordinate as i64 + way as i64, -1_000_000_000, 1_000_000_000)
    }

    /// Turns to `heading` while the right stick is off centre.
    pub fn update_rotation(&mut self, heading: i32)
        ensures
            *final(self) == (Player {
                rotation: if old(self).turning() {
                    heading
                } else {
                    old(self).rotation
                },
                ..*old(self)
            }),
    {
        if self.axis_right.0 != 0 || self.axis_right.1 != 0 {
            self.rotation = heading;
        }
    }

    /// The radius at which the disc is drawn.
    pub fn radius_based_on_speed(&self) -> (radius: i32)
        requires
            self.wf(),
        ensures
            radius == drawn_radius(self.speed as int, self.max_speed as int),
            MIN_CIRCLE_RADIUS <= radius <= MAX_CIRCLE_RADIUS,
    {
        proof {
            lemma_speed_factor_range(self.speed as int, self.max_speed as int);
        }
        let slower: i128 = div_round(10_000 * self.speed as i128, self.max_speed as i128);
        (50_000 - slower) as i32
    }

    /// The colour in which the disc is drawn: from light blue at rest to
    /// yellow-green at full speed.
    pub fn color_based_on_speed(&self) -> (color: Color)
        requires
            self.wf(),
        ensures
            (color.r, color.g, color.b) == in_thousandths(
                drawn_rgb(self.speed as int, self.max_speed as int),
            ),
            color.a == 1000,
            color.in_gamut(),
    {
        proof {
            lemma_speed_factor_range(self.speed as int, self.max_speed as int);
            let f = speed_factor(self.speed as int, self.max_speed as int);
            lemma_lerp_between(450_980, 843_137, f);
            lemma_lerp_between(843_137, 1_000_000, f);
            lemma_lerp_between(1_000_000, 0, f);
        }
        let factor: i64 = share(self.speed as i64, self.max_speed as i64);
        let c: (i32, i32, i32) = interpolate_colors(
            (450_980, 843_137, 1_000_000),
            (843_137, 1_000_000, 0),
            factor,
        );
        opaque(c)
    }
}

impl Collidable for Player {
    open spec fn has_bounds(&self) -> bool {
        self.position.in_limits() && 0 <= self.radius <= 1_000_000_000
    }

    /// The square around the disc.
    open spec fn bounds(&self) -> Rect {
        Rect {
            x: (self.position.x - self.radius) as i32,
            y: (self.position.y - self.radius) as i32,
            w: (self.radius * 2) as i32,
            h: (self.radius * 2) as i32,
        }
    }

    fn bounding_box(&self) -> (r: Rect) {
        Rect {
            x: self.position.x - self.radius,
            y: self.position.y - self.radius,
            w: self.radius * 2,
            h: self.radius * 2,
        }
    }
}

} // verus!
