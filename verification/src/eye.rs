//! The eye of a creature: it looks towards the agent while the agent is
//! far.

use vstd::prelude::*;
use crate::geometry::{displace, displaced, Color, Point};

verus! {

/// The eye of a creature.
#[derive(Clone, Copy, Debug)]
pub struct Eye {
    pub position: Point,
    pub scale: i32,
    pub color: Color,
    pub in_proximity: bool,
    pub distance_from_player: i64,
}

/// Where the eye sits: four times its scale from the centre of the
/// creature, towards the agent.
pub open spec fn gaze(center: Point, player_position: Point, scale: int) -> Point {
    displaced(center, player_position, scale * 4, 0)
}

impl Eye {
    /// The scale is small enough for the eye to stay within reach of the
    /// coordinates.
    pub open spec fn wf(&self) -> bool {
        0 <= self.scale <= 100_000_000
    }

    /// Whether the scale is within its limits.
    pub fn is_well_formed(&self) -> (valid: bool)
        ensures
            valid == self.wf(),
    {
        0 <= self.scale && self.scale <= 100_000_000
    }

    /// The eye after an update: it has the new distance and proximity
    /// and, while the agent is far, looks towards it.
    pub open spec fn updated(
        self,
        player_position: Point,
        collectible_center: Point,
        distance_from_player: i64,
        in_proximity: bool,
    ) -> Eye {
        Eye {
            position: if in_proximity {
                self.position
            } else {
                gaze(collectible_center, player_position, self.scale as int)
            },
            in_proximity,
            distance_from_player,
            ..self
        }
    }

    /// A white eye at `(x, y)`.
    pub fn new(x: i32, y: i32, scale: i32) -> (eye: Eye)
        ensures
            eye.position == (Point { x, y }),
            eye.scale == scale,
            eye.color == (Color { r: 1000, g: 1000, b: 1000, a: 1000 }),
            !eye.in_proximity,
            eye.distance_from_player == 0,
    {
        Eye {
            position: Point { x, y },
            scale,
            color: Color { r: 1000, g: 1000, b: 1000, a: 1000 },
            in_proximity: false,
            distance_from_player: 0,
        }
    }

    /// Records the distance and proximity and, while the agent is far,
    /// moves the eye towards it.
    pub fn update(
        &mut self,
        player_position: Point,
        collectible_center: Point,
        distance_from_player: i64,
        in_proximity: bool,
    )
        requires
            old(self).wf(),
            collectible_center.in_limits(),
        ensures
            *final(self) == old(self).updated(
                player_position,
                collectible_center,
                distance_from_player,
                in_proximity,
            ),
            final(self).wf(),
    {
        self.in_proximity = in_proximity;
        self.distance_from_player = distance_from_player;
        if !in_proximity {
            let max_eye_offset: i64 = self.scale as i64 * 4;
            self.position = displace(&collectible_center, &player_position, max_eye_offset, 0);
        }
    }

    /// Sets the size of the eye.
    pub fn set_scale(&mut self, new_scale: i32)
        ensures
            *final(self) == (Eye { scale: new_scale, ..*old(self) }),
    {
        self.scale = new_scale;
    }

    /// Sets the colour of the eye.
    pub fn set_color(&mut self, new_color: Color)
        ensures
            *final(self) == (Eye { color: new_color, ..*old(self) }),
    {
        self.color = new_color;
    }
}

} // verus!
