//! A puff of smoke: one slot of the pool from which the bursts of removed
//! creatures are taken.

use vstd::prelude::*;
use crate::flash_effect::{age, aged, fade, opacity};
use crate::geometry::{Color, Point};
use crate::random::draw_between;

verus! {

/// A puff appears within this distance of its base, on each axis.
pub const OFFSET_RANGE: i32 = 2000;

/// Lifetime of a puff in milliseconds.
pub const DURATION: i32 = 200;

/// Radius at which a puff is drawn.
pub const SMOKE_CIRCLE_RADIUS: i32 = 15_000;

/// Tolerance with which a puff is drawn.
pub const SMOKE_CIRCLE_SMOOTHNESS: i32 = 1000;

/// A puff and how much of its lifetime it has lived.
#[derive(Clone, Copy, Debug)]
pub struct SmokeEffect {
    pub position: Point,
    pub color: Color,
    /// Lifetime in milliseconds.
    pub duration: i32,
    /// Milliseconds lived since the puff was started.
    pub timer: i32,
}

/// The colour of fresh smoke: opaque white.
pub open spec fn smoke_color() -> Color {
    Color { r: 1000, g: 1000, b: 1000, a: 1000 }
}

/// The position is close enough to the coordinate limit for a puff to be
/// placed around it.
pub open spec fn near_limits(p: Point) -> bool {
    -2_000_000_000 <= p.x <= 2_000_000_000 && -2_000_000_000 <= p.y <= 2_000_000_000
}

/// `puff` is what an activation at `base_position` makes of the slot
/// `before`: fresh smoke within the offset range of the base.
pub open spec fn fresh_puff(puff: SmokeEffect, before: SmokeEffect, base_position: Point) -> bool {
    &&& puff.timer == 0
    &&& puff.duration == before.duration
    &&& puff.color == smoke_color()
    &&& base_position.x - OFFSET_RANGE <= puff.position.x < base_position.x + OFFSET_RANGE
    &&& base_position.y - OFFSET_RANGE <= puff.position.y < base_position.y + OFFSET_RANGE
}

/// Every slot of the pool is well formed.
pub open spec fn pool_wf(pool: Seq<SmokeEffect>) -> bool {
    forall|i: int| 0 <= i < pool.len() ==> (#[trigger] pool[i]).wf()
}

/// Number of inactive slots among the first `i` of the pool.
pub open spec fn inactive_before(pool: Seq<SmokeEffect>, i: int) -> int
    decreases i,
{
    if i <= 0 {
        0
    } else {
        inactive_before(pool, i - 1) + if pool[i - 1].active() {
            0int
        } else {
            1int
        }
    }
}

/// The count of inactive slots is not negative and grows by one across an
/// inactive slot.
pub proof fn lemma_inactive_before_grows(pool: Seq<SmokeEffect>, j: int, i: int)
    requires
        0 <= j <= i <= pool.len(),
    ensures
        0 <= inactive_before(pool, j) <= inactive_before(pool, i),
        j < i && !pool[j].active() ==> inactive_before(pool, j) + 1 <= inactive_before(pool, i),
    decreases i,
{
    if j < i {
        lemma_inactive_before_grows(pool, j, i - 1);
    } else {
        if j > 0 {
            lemma_inactive_before_grows(pool, j - 1, j - 1);
            lemma_inactive_before_grows(pool, 0, j - 1);
        }
    }
}

/// A slot that has inactive slots before it has one directly below it in
/// the count.
pub proof fn lemma_inactive_before_predecessor(pool: Seq<SmokeEffect>, j: int)
    requires
        0 <= j <= pool.len(),
        inactive_before(pool, j) > 0,
    ensures
        exists|k: int|
            0 <= k < j && !pool[k].active() && inactive_before(pool, k) + 1 == inactive_before(
                pool,
                j,
            ),
    decreases j,
{
    if pool[j - 1].active() {
        lemma_inactive_before_predecessor(pool, j - 1);
        let k = choose|k: int|
            0 <= k < j - 1 && !pool[k].active() && inactive_before(pool, k) + 1
                == inactive_before(pool, j - 1);
        assert(0 <= k < j && !pool[k].active() && inactive_before(pool, k) + 1 == inactive_before(
            pool,
            j,
        ));
    } else {
        assert(0 <= j - 1 < j && !pool[j - 1].active() && inactive_before(pool, j - 1) + 1
            == inactive_before(pool, j));
    }
}

/// The first inactive slot of the pool, if there is one.
pub fn find_first_inactive(pool: &Vec<SmokeEffect>) -> (slot: Option<usize>)
    ensures
        match slot {
            Some(i) => i < pool@.len() && !pool@[i as int].active() && forall|k: int|
                0 <= k < i ==> (#[trigger] pool@[k]).active(),
            None => forall|k: int| 0 <= k < pool@.len() ==> (#[trigger] pool@[k]).active(),
        },
{
    let mut i: usize = 0;
    while i < pool.len()
        invariant
            i <= pool@.len(),
            forall|k: int| 0 <= k < i ==> (#[trigger] pool@[k]).active(),
        decreases pool@.len() - i,
    {
        if !pool[i].is_active() {
            return Some(i);
        }
        i += 1;
    }
    None
}

/// What a burst of `count` puffs at `base_position` makes of a pool: the
/// first `count` inactive slots become fresh puffs, and every other slot
/// stays as it was. A burst that finds fewer inactive slots fills those
/// and drops the rest.
pub open spec fn burst_result(
    before: Seq<SmokeEffect>,
    after: Seq<SmokeEffect>,
    base_position: Point,
    count: int,
) -> bool {
    &&& after.len() == before.len()
    &&& forall|i: int|
        0 <= i < before.len() ==> if !(#[trigger] before[i]).active() && inactive_before(before, i)
            < count {
            after[i].active() && fresh_puff(after[i], before[i], base_position)
        } else {
            after[i] == before[i]
        }
}

/// After a burst the number of inactive slots is less by the size of the
/// burst, or 0.
pub proof fn lemma_burst_count(
    before: Seq<SmokeEffect>,
    after: Seq<SmokeEffect>,
    base_position: Point,
    count: int,
    i: int,
)
    requires
        burst_result(before, after, base_position, count),
        0 <= count,
        0 <= i <= before.len(),
    ensures
        inactive_before(after, i) == if inactive_before(before, i) < count {
            0
        } else {
            inactive_before(before, i) - count
        },
    decreases i,
{
    if i > 0 {
        lemma_burst_count(before, after, base_position, count, i - 1);
        lemma_inactive_before_grows(before, 0, i - 1);
        assert(before[i - 1].active() || !before[i - 1].active());
    }
}

/// Starts up to `count` puffs at `base_position`, each in the first slot
/// that is inactive at that moment.
pub fn spawn_burst(pool: &mut Vec<SmokeEffect>, base_position: Point, count: usize)
    requires
        pool_wf(old(pool)@),
        near_limits(base_position),
    ensures
        pool_wf(final(pool)@),
        burst_result(old(pool)@, final(pool)@, base_position, count as int),
{
    let ghost before = pool@;
    let mut round: usize = 0;
    proof {
        assert forall|i: int| 0 <= i < before.len() implies inactive_before(before, i) >= 0 by {
            lemma_inactive_before_grows(before, 0, i);
        }
    }
    while round < count
        invariant
            round <= count,
            near_limits(base_position),
            pool_wf(pool@),
            pool_wf(before),
            burst_result(before, pool@, base_position, round as int),
        ensures
            pool_wf(pool@),
            burst_result(before, pool@, base_position, count as int),
        decreases count - round,
    {
        let slot = find_first_inactive(pool);
        match slot {
            None => {
                proof {
                    assert forall|i: int| 0 <= i < before.len() implies if !(
                    #[trigger] before[i]).active() && inactive_before(before, i) < count {
                        pool@[i].active() && fresh_puff(pool@[i], before[i], base_position)
                    } else {
                        pool@[i] == before[i]
                    } by {
                        assert(pool@[i].active());
                    }
                }
                break ;
            },
            Some(j) => {
                let ghost mid = pool@;
                proof {
                    assert(!mid[j as int].active());
                    assert(mid[j as int] == before[j as int]);
                    lemma_inactive_before_grows(before, 0, j as int);
                    if inactive_before(before, j as int) > round {
                        lemma_inactive_before_predecessor(before, j as int);
                        let k = choose|k: int|
                            0 <= k < j && !before[k].active() && inactive_before(before, k) + 1
                                == inactive_before(before, j as int);
                        assert(mid[k].active());
                        assert(mid[k] == before[k]);
                    }
                    assert(inactive_before(before, j as int) == round);
                }
                let mut puff: SmokeEffect = pool[j];
                puff.activate(base_position);
                pool.set(j, puff);
                proof {
                    assert forall|i: int| 0 <= i < before.len() implies if !(
                    #[trigger] before[i]).active() && inactive_before(before, i) < round + 1 {
                        pool@[i].active() && fresh_puff(pool@[i], before[i], base_position)
                    } else {
                        pool@[i] == before[i]
                    } by {
                        if i < j {
                            assert(mid[i].active());
                        } else if i > j {
                            lemma_inactive_before_grows(before, j as int, i);
                        }
                    }
                    assert forall|i: int| 0 <= i < pool@.len() implies (
                    #[trigger] pool@[i]).wf() by {
                        if i != j {
                            assert(mid[i].wf());
                        }
                    }
                }
            },
        }
        round += 1;
    }
}

/// Whether every slot of the pool is well formed.
pub fn pool_is_well_formed(pool: &Vec<SmokeEffect>) -> (valid: bool)
    ensures
        valid == pool_wf(pool@),
{
    let mut i: usize = 0;
    while i < pool.len()
        invariant
            i <= pool@.len(),
            forall|k: int| 0 <= k < i ==> (#[trigger] pool@[k]).wf(),
        decreases pool@.len() - i,
    {
        if !pool[i].is_well_formed() {
            return false;
        }
        i += 1;
    }
    true
}

/// A pool of `size` slots, all inactive.
pub fn create_pool(size: usize) -> (pool: Vec<SmokeEffect>)
    ensures
        pool@.len() == size,
        pool_wf(pool@),
        forall|i: int| 0 <= i < size ==> !(#[trigger] pool@[i]).active(),
        inactive_before(pool@, size as int) == size,
{
    let mut pool: Vec<SmokeEffect> = Vec::new();
    let mut i: usize = 0;
    while i < size
        invariant
            i <= size,
            pool@.len() == i,
            pool_wf(pool@),
            forall|k: int| 0 <= k < i ==> !(#[trigger] pool@[k]).active(),
            inactive_before(pool@, i as int) == i,
        decreases size - i,
    {
        let ghost before = pool@;
        pool.push(SmokeEffect::new_inactive());
        proof {
            lemma_inactive_before_extends(before, pool@, i as int);
        }
        i += 1;
    }
    pool
}

/// The count of inactive slots among the first `i` depends on those slots
/// alone.
pub proof fn lemma_inactive_before_extends(
    shorter: Seq<SmokeEffect>,
    longer: Seq<SmokeEffect>,
    i: int,
)
    requires
        0 <= i <= shorter.len() <= longer.len(),
        forall|k: int| 0 <= k < i ==> shorter[k] == longer[k],
    ensures
        inactive_before(shorter, i) == inactive_before(longer, i),
    decreases i,
{
    if i > 0 {
        lemma_inactive_before_extends(shorter, longer, i - 1);
    }
}

/// Ages every puff of the pool by `dt` milliseconds.
pub fn update_pool(pool: &mut Vec<SmokeEffect>, dt: i32)
    requires
        pool_wf(old(pool)@),
        0 <= dt,
    ensures
        pool_wf(final(pool)@),
        final(pool)@.len() == old(pool)@.len(),
        forall|i: int|
            0 <= i < old(pool)@.len() ==> (#[trigger] final(pool)@[i]) == old(pool)@[i].aged_by(
                dt,
            ),
{
    let ghost before = pool@;
    let mut i: usize = 0;
    while i < pool.len()
        invariant
            0 <= dt,
            i <= pool@.len(),
            pool@.len() == before.len(),
            pool_wf(before),
            pool_wf(pool@),
            forall|k: int| 0 <= k < i ==> (#[trigger] pool@[k]) == before[k].aged_by(dt),
            forall|k: int| i <= k < pool@.len() ==> (#[trigger] pool@[k]) == before[k],
        decreases pool@.len() - i,
    {
        let mut puff: SmokeEffect = pool[i];
        puff.update(dt);
        pool.set(i, puff);
        i += 1;
    }
}

impl SmokeEffect {
    /// The puff `dt` milliseconds later: an active one has aged and
    /// faded, an inactive one is as it was.
    pub open spec fn aged_by(self, dt: i32) -> SmokeEffect {
        if self.active() {
            SmokeEffect {
                timer: aged(self.timer as int, dt as int) as i32,
                color: Color {
                    a: fade(self.duration as int, aged(self.timer as int, dt as int)) as i32,
                    ..self.color
                },
                ..self
            }
        } else {
            self
        }
    }

    /// The lifetime is positive and the time lived is not negative.
    pub open spec fn wf(&self) -> bool {
        0 <= self.timer && 0 < self.duration
    }

    /// Lifetime remains.
    pub open spec fn active(&self) -> bool {
        self.timer < self.duration
    }

    /// Whether the lifetime is positive and the time lived not negative.
    pub fn is_well_formed(&self) -> (valid: bool)
        ensures
            valid == self.wf(),
    {
        0 <= self.timer && 0 < self.duration
    }

    /// A puff whose lifetime is over.
    pub fn new_inactive() -> (effect: SmokeEffect)
        ensures
            effect.wf(),
            !effect.active(),
            effect.position == (Point { x: 0, y: 0 }),
            effect.color == smoke_color(),
            effect.duration == DURATION,
            effect.timer == DURATION,
    {
        SmokeEffect {
            position: Point { x: 0, y: 0 },
            color: Color { r: 1000, g: 1000, b: 1000, a: 1000 },
            duration: DURATION,
            timer: DURATION,
        }
    }

    /// Starts the puff at the base position moved by the given offset.
    pub fn activate_at(&mut self, base_position: Point, offset_x: i32, offset_y: i32)
        requires
            old(self).wf(),
            near_limits(base_position),
            -OFFSET_RANGE <= offset_x < OFFSET_RANGE,
            -OFFSET_RANGE <= offset_y < OFFSET_RANGE,
        ensures
            *final(self) == (SmokeEffect {
                position: Point {
                    x: (base_position.x + offset_x) as i32,
                    y: (base_position.y + offset_y) as i32,
                },
                color: smoke_color(),
                duration: old(self).duration,
                timer: 0,
            }),
            final(self).wf(),
            final(self).active(),
            fresh_puff(*final(self), *old(self), base_position),
    {
        self.position = Point { x: base_position.x + offset_x, y: base_position.y + offset_y };
        self.color = Color { r: 1000, g: 1000, b: 1000, a: 1000 };
        self.timer = 0;
    }

    /// Starts the puff at a random place within the offset range of the
    /// base position.
    pub fn activate(&mut self, base_position: Point)
        requires
            old(self).wf(),
            near_limits(base_position),
        ensures
            final(self).wf(),
            final(self).active(),
            fresh_puff(*final(self), *old(self), base_position),
    {
        let mut rng = rand::thread_rng();
        let offset_x: i32 = draw_between(&mut rng, -OFFSET_RANGE, OFFSET_RANGE - 1);
        let offset_y: i32 = draw_between(&mut rng, -OFFSET_RANGE, OFFSET_RANGE - 1);
        self.activate_at(base_position, offset_x, offset_y);
    }

    /// Ages an active puff by `dt` milliseconds and fades it; leaves an
    /// inactive one as it is. The time lived may pass the lifetime: the
    /// puff is then inactive and transparent.
    pub fn update(&mut self, dt: i32)
        requires
            old(self).wf(),
            0 <= dt,
        ensures
            final(self).wf(),
            *final(self) == old(self).aged_by(dt),
    {
        if self.is_active() {
            let timer: i32 = age(self.timer, dt);
            self.color.a = opacity(self.duration, timer);
            self.timer = timer;
        }
    }

    /// Whether lifetime remains.
    pub fn is_active(&self) -> (active: bool)
        ensures
            active == self.active(),
    {
        self.timer < self.duration
    }
}

} // verus!
