//! A flash: a coloured dot that fades out over its lifetime.

use vstd::prelude::*;
use crate::fixed::clamp_int;
use crate::geometry::{Color, Point};

verus! {

/// Radius of the dot of a flash.
pub const FLASH_RADIUS: i32 = 10_000;

/// A flash and how much of its lifetime it has lived.
#[derive(Clone, Copy, Debug)]
pub struct FlashEffect {
    pub position: Point,
    pub color: Color,
    /// Lifetime in milliseconds.
    pub duration: i32,
    /// Milliseconds lived since the flash was started.
    pub timer: i32,
}

/// Opacity of an effect that has lived `timer` of `duration`: the share of
/// the lifetime that remains, and 0 once the lifetime is over.
pub open spec fn fade(duration: int, timer: int) -> int {
    clamp_int(((duration - timer) * 1000) / duration, 0, 1000)
}

/// The time lived after `dt` more milliseconds: the sum, as far as the
/// machine holds it.
pub open spec fn aged(timer: int, dt: int) -> int {
    if timer + dt > i32::MAX {
        i32::MAX as int
    } else {
        timer + dt
    }
}

/// The opacity is the remaining share while lifetime remains, 1 at the
/// start and 0 once the lifetime is over.
pub proof fn lemma_fade_range(duration: int, timer: int)
    requires
        0 <= timer,
        0 < duration,
    ensures
        0 <= fade(duration, timer) <= 1000,
        timer < duration ==> fade(duration, timer) == ((duration - timer) * 1000) / duration,
        timer >= duration ==> fade(duration, timer) == 0,
        timer == 0 ==> fade(duration, timer) == 1000,
{
    vstd::arithmetic::div_mod::lemma_div_multiples_vanish(1000, duration);
    vstd::arithmetic::div_mod::lemma_div_multiples_vanish(0, duration);
    assert(duration * 1000 == 1000 * duration);
    if timer < duration {
        vstd::arithmetic::div_mod::lemma_div_is_ordered(0, (duration - timer) * 1000, duration);
        vstd::arithmetic::div_mod::lemma_div_is_ordered(
            (duration - timer) * 1000,
            duration * 1000,
            duration,
        );
    } else {
        vstd::arithmetic::div_mod::lemma_div_is_ordered((duration - timer) * 1000, 0, duration);
    }
}

/// The time lived after `dt` more milliseconds.
pub fn age(timer: i32, dt: i32) -> (later: i32)
    requires
        0 <= timer,
        0 <= dt,
    ensures
        later == aged(timer as int, dt as int),
        timer <= later,
{
    let lived: i64 = timer as i64 + dt as i64;
    if lived > i32::MAX as i64 {
        i32::MAX
    } else {
        lived as i32
    }
}

/// Opacity of an effect that has lived `timer` of `duration`.
pub fn opacity(duration: i32, timer: i32) -> (alpha: i32)
    requires
        0 <= timer,
        0 < duration,
    ensures
        alpha == fade(duration as int, timer as int),
        0 <= alpha <= 1000,
{
    proof {
        lemma_fade_range(duration as int, timer as int);
    }
    if timer >= duration {
        0
    } else {
        (((duration - timer) as i64 * 1000) / (duration as i64)) as i32
    }
}

impl FlashEffect {
    /// The time lived is not negative.
    pub open spec fn wf(&self) -> bool {
        0 <= self.timer
    }

    /// Lifetime remains.
    pub open spec fn active(&self) -> bool {
        self.timer < self.duration
    }

    /// The flash `dt` milliseconds later: an active one has aged and
    /// faded, an inactive one is as it was.
    pub open spec fn aged_by(self, dt: i32) -> FlashEffect {
        if self.active() {
            FlashEffect {
                timer: aged(self.timer as int, dt as int) as i32,
                color: Color {
                    a: fade(self.duration as int, aged(self.timer as int, dt as int)) as i32,
                    ..self.color
                },
                ..self
            }
        } else {
            self
        }
    }

    /// Whether the time lived is not negative.
    pub fn is_well_formed(&self) -> (valid: bool)
        ensures
            valid == self.wf(),
    {
        0 <= self.timer
    }

    /// A transparent flash without lifetime.
    pub fn new_inactive() -> (effect: FlashEffect)
        ensures
            effect.wf(),
            !effect.active(),
            effect.position == (Point { x: 0, y: 0 }),
            effect.color == (Color { r: 0, g: 0, b: 0, a: 0 }),
            effect.duration == 0,
            effect.timer == 0,
    {
        FlashEffect {
            position: Point { x: 0, y: 0 },
            color: Color { r: 0, g: 0, b: 0, a: 0 },
            duration: 0,
            timer: 0,
        }
    }

    /// Starts the flash at a position, with a colour and a lifetime.
    pub fn activate(&mut self, position: Point, color: Color, duration: i32)
        ensures
            *final(self) == (FlashEffect { position, color, duration, timer: 0 }),
            final(self).wf(),
            final(self).active() <==> duration > 0,
    {
        self.position = position;
        self.color = color;
        self.duration = duration;
        self.timer = 0;
    }

    /// Ages an active flash by `dt` milliseconds and fades it; leaves an
    /// inactive one as it is. The time lived may pass the lifetime: the
    /// flash is then inactive and transparent.
    pub fn update(&mut self, dt: i32)
        requires
            old(self).wf(),
            0 <= dt,
        ensures
            final(self).wf(),
            *final(self) == old(self).aged_by(dt),
    {
        if self.is_active() {
            let timer: i32 = age(self.timer, dt);
            self.color.a = opacity(self.duration, timer);
            self.timer = timer;
        }
    }

    /// Whether lifetime remains.
    pub fn is_active(&self) -> (active: bool)
        ensures
            active == self.active(),
    {
        self.timer < self.duration
    }
}

} // verus!
