//! The lifecycle manager: it owns the creatures, places them, lets them
//! sense the agent each tick, removes those that the agent touches and
//! starts their bursts of smoke.

use vstd::prelude::*;
use crate::collectible::{
    Collectible,
    NoiseRequest,
    NoiseSamples,
    BURST_SIZE,
    NORMALIZATION_FAR,
};
use crate::collectible_placement::{
    freshly_placed,
    generate_collectibles,
    pairwise_separated,
    valid_world,
    world_is_valid,
    PlacementError,
};
use crate::collidable::{boxes_of, Collidable};
use crate::collision::{center_distance, lemma_center_distance_bounds, overlaps};
use crate::distance_normalizer::within_half;
use crate::geometry::{Point, Rect};
use crate::player::Player;
use crate::proximity_and_collision_handler::{
    all_reports,
    handle_proximity_and_collisions,
    lemma_row_reports_sound,
    report_of,
    reported,
    row_reports,
};
use crate::smoke_effect::{
    burst_result,
    fresh_puff,
    inactive_before,
    lemma_burst_count,
    lemma_inactive_before_grows,
    pool_wf,
    SmokeEffect,
};

verus! {

/// The creatures and the settings under which they are placed.
pub struct Collectibles {
    pub items: Vec<Collectible>,
    pub collectible_count: i32,
    pub collectible_size: i32,
    pub cluster_size: i32,
    /// The proximity threshold.
    pub max_distance_threshold: i32,
    pub screen_width: i32,
    pub screen_height: i32,
    pub min_separation: i32,
}

/// The boxes of the creatures, in order.
pub open spec fn item_boxes(items: Seq<Collectible>) -> Seq<Rect> {
    Seq::new(items.len(), |k: int| items[k].bounds())
}

/// What sensing an agent with the given box makes of a creature: where the
/// pair is reported, the creature has the distance, the closeness that the
/// distance gives, and is in proximity if the distance is less than half
/// the threshold. Otherwise it stays as it is.
pub open spec fn sensed(c: Collectible, agent_box: Rect, threshold: int) -> Collectible {
    let d = center_distance(agent_box, c.bounds());
    if reported(agent_box, c.bounds(), threshold) {
        c.sensing(within_half(d, threshold), d as i64, NORMALIZATION_FAR)
    } else {
        c
    }
}

/// The agent touches the creature.
pub open spec fn caught(c: Collectible, agent_box: Rect) -> bool {
    overlaps(agent_box, c.bounds())
}

/// The indices from `j` on of the creatures that the agent does not touch,
/// in ascending order.
pub open spec fn survivors_from(items: Seq<Collectible>, agent_box: Rect, j: int) -> Seq<int>
    decreases items.len() - j,
{
    if j < 0 || j >= items.len() {
        Seq::empty()
    } else if caught(items[j], agent_box) {
        survivors_from(items, agent_box, j + 1)
    } else {
        seq![j] + survivors_from(items, agent_box, j + 1)
    }
}

/// `after` is the pool `before` after the bursts of the creatures from
/// index `from` on that the agent touches: every slot is as it was, or was
/// inactive and is now a fresh puff at the burst position of one of those
/// creatures.
pub open spec fn puffs_from(
    before: Seq<SmokeEffect>,
    after: Seq<SmokeEffect>,
    items: Seq<Collectible>,
    agent_box: Rect,
    from: int,
) -> bool {
    &&& after.len() == before.len()
    &&& forall|i: int|
        0 <= i < before.len() ==> (#[trigger] after[i]) == before[i] || (!before[i].active()
            && after[i].active() && exists|q: int|
            from <= q < items.len() && caught(#[trigger] items[q], agent_box) && fresh_puff(
                after[i],
                before[i],
                items[q].burst_position(),
            ))
}

/// Number of inactive slots that remain of `inactive` after `bursts`
/// bursts.
pub open spec fn inactive_after(inactive: int, bursts: int) -> int {
    if inactive < 5 * bursts {
        0
    } else {
        inactive - 5 * bursts
    }
}

/// The survivors are the creatures that the agent does not touch, each
/// once and in ascending order.
pub proof fn lemma_survivors(items: Seq<Collectible>, agent_box: Rect, j: int)
    requires
        0 <= j <= items.len(),
    ensures
        survivors_from(items, agent_box, j).len() <= items.len() - j,
        forall|k: int|
            0 <= k < survivors_from(items, agent_box, j).len() ==> {
                let s = #[trigger] survivors_from(items, agent_box, j)[k];
                j <= s < items.len() && !caught(items[s], agent_box)
            },
        forall|k: int, l: int|
            0 <= k < l < survivors_from(items, agent_box, j).len() ==> survivors_from(
                items,
                agent_box,
                j,
            )[k] < survivors_from(items, agent_box, j)[l],
        forall|s: int|
            j <= s < items.len() && !caught(#[trigger] items[s], agent_box) ==> survivors_from(
                items,
                agent_box,
                j,
            ).contains(s),
    decreases items.len() - j,
{
    if j < items.len() {
        lemma_survivors(items, agent_box, j + 1);
        let rest = survivors_from(items, agent_box, j + 1);
        let all = survivors_from(items, agent_box, j);
        if caught(items[j], agent_box) {
            assert(all == rest);
        } else {
            assert(all == seq![j] + rest);
            assert forall|k: int| 0 <= k < all.len() implies {
                let s = #[trigger] all[k];
                j <= s < items.len() && !caught(items[s], agent_box)
            } by {
                if k > 0 {
                    assert(all[k] == rest[k - 1]);
                }
            }
            assert forall|k: int, l: int| 0 <= k < l < all.len() implies all[k] < all[l] by {
                assert(all[l] == rest[l - 1]);
                if k > 0 {
                    assert(all[k] == rest[k - 1]);
                }
            }
            assert forall|s: int|
                j <= s < items.len() && !caught(
                    #[trigger] items[s],
                    agent_box,
                ) implies all.contains(s) by {
                if s == j {
                    assert(all[0] == j);
                } else {
                    assert(rest.contains(s));
                    let k = choose|k: int| 0 <= k < rest.len() && rest[k] == s;
                    assert(all[k + 1] == s);
                }
            }
        }
    }
}

/// Bursts of the creatures from `from` on are also bursts of the creatures
/// from an earlier index on.
pub proof fn lemma_puffs_from_widens(
    before: Seq<SmokeEffect>,
    after: Seq<SmokeEffect>,
    items: Seq<Collectible>,
    agent_box: Rect,
    from: int,
)
    requires
        puffs_from(before, after, items, agent_box, from),
        0 < from,
    ensures
        puffs_from(before, after, items, agent_box, from - 1),
{
    assert forall|i: int| 0 <= i < before.len() implies (#[trigger] after[i]) == before[i] || (
    !before[i].active() && after[i].active() && exists|q: int|
        from - 1 <= q < items.len() && caught(#[trigger] items[q], agent_box) && fresh_puff(
            after[i],
            before[i],
            items[q].burst_position(),
        )) by {
        if after[i] != before[i] {
            let q = choose|q: int|
                from <= q < items.len() && caught(#[trigger] items[q], agent_box) && fresh_puff(
                    after[i],
                    before[i],
                    items[q].burst_position(),
                );
            assert(from - 1 <= q < items.len() && caught(items[q], agent_box) && fresh_puff(
                after[i],
                before[i],
                items[q].burst_position(),
            ));
        }
    }
}

/// After the bursts of the creatures behind index `j`, the burst of
/// creature `j` gives the pool after the bursts of the creatures from `j`
/// on.
pub proof fn lemma_puffs_after_burst(
    before: Seq<SmokeEffect>,
    middle: Seq<SmokeEffect>,
    after: Seq<SmokeEffect>,
    items: Seq<Collectible>,
    agent_box: Rect,
    j: int,
)
    requires
        0 <= j < items.len(),
        caught(items[j], agent_box),
        puffs_from(before, middle, items, agent_box, j + 1),
        burst_result(middle, after, items[j].burst_position(), BURST_SIZE as int),
    ensures
        puffs_from(before, after, items, agent_box, j),
{
    lemma_puffs_from_widens(before, middle, items, agent_box, j + 1);
    assert forall|i: int| 0 <= i < before.len() implies (#[trigger] after[i]) == before[i] || (
    !before[i].active() && after[i].active() && exists|q: int|
        j <= q < items.len() && caught(#[trigger] items[q], agent_box) && fresh_puff(
            after[i],
            before[i],
            items[q].burst_position(),
        )) by {
        if after[i] != middle[i] {
            assert(!middle[i].active());
            assert(middle[i] == before[i]);
            assert(j <= j < items.len() && caught(items[j], agent_box) && fresh_puff(
                after[i],
                before[i],
                items[j].burst_position(),
            ));
        } else if middle[i] != before[i] {
            let q = choose|q: int|
                j <= q < items.len() && caught(#[trigger] items[q], agent_box) && fresh_puff(
                    middle[i],
                    before[i],
                    items[q].burst_position(),
                );
            assert(j <= q < items.len() && caught(items[q], agent_box) && fresh_puff(
                after[i],
                before[i],
                items[q].burst_position(),
            ));
        }
    }
}

impl Collectibles {
    /// The settings describe a valid world and every creature is well
    /// formed.
    pub open spec fn wf(&self) -> bool {
        &&& valid_world(
            self.screen_width as int,
            self.screen_height as int,
            self.cluster_size as int,
            self.max_distance_threshold as int,
            self.collectible_size as int,
        )
        &&& forall|k: int| 0 <= k < self.items@.len() ==> (#[trigger] self.items@[k]).wf()
    }

    /// Whether the settings are valid and every creature is well formed.
    pub fn is_well_formed(&self) -> (valid: bool)
        ensures
            valid == self.wf(),
    {
        if !world_is_valid(
            self.screen_width,
            self.screen_height,
            self.cluster_size,
            self.max_distance_threshold,
            self.collectible_size,
        ) {
            return false;
        }
        let mut k: usize = 0;
        while k < self.items.len()
            invariant
                k <= self.items@.len(),
                forall|m: int| 0 <= m < k ==> (#[trigger] self.items@[m]).wf(),
            decreases self.items@.len() - k,
        {
            if !self.items[k].is_well_formed() {
                return false;
            }
            k += 1;
        }
        true
    }

    /// The two managers have the same settings.
    pub open spec fn same_settings(&self, other: &Collectibles) -> bool {
        &&& self.collectible_count == other.collectible_count
        &&& self.collectible_size == other.collectible_size
        &&& self.cluster_size == other.cluster_size
        &&& self.max_distance_threshold == other.max_distance_threshold
        &&& self.screen_width == other.screen_width
        &&& self.screen_height == other.screen_height
        &&& self.min_separation == other.min_separation
    }

    /// The creatures are as placement makes them under the settings.
    pub open spec fn freshly_set_up(&self) -> bool {
        &&& self.items@.len() == if self.collectible_count < 0 {
            0
        } else {
            self.collectible_count as int
        }
        &&& forall|i: int|
            0 <= i < self.items@.len() ==> freshly_placed(
                #[trigger] self.items@[i],
                i,
                self.screen_width as int,
                self.screen_height as int,
                self.cluster_size as int,
                self.max_distance_threshold as int,
                self.collectible_size as int,
            )
        &&& pairwise_separated(self.items@, self.min_separation as int)
    }

    /// A manager with freshly placed creatures. Fails as placement does.
    pub fn new(
        screen_width: i32,
        screen_height: i32,
        collectible_count: i32,
        max_distance_threshold: i32,
        cluster_size: i32,
        collectible_size: i32,
        min_separation: i32,
    ) -> (result: Result<Collectibles, PlacementError>)
        requires
            valid_world(
                screen_width as int,
                screen_height as int,
                cluster_size as int,
                max_distance_threshold as int,
                collectible_size as int,
            ),
        ensures
            match result {
                Ok(collectibles) => {
                    &&& collectibles.wf()
                    &&& collectibles.freshly_set_up()
                    &&& collectibles.collectible_count == collectible_count
                    &&& collectibles.collectible_size == collectible_size
                    &&& collectibles.cluster_size == cluster_size
                    &&& collectibles.max_distance_threshold == max_distance_threshold
                    &&& collectibles.screen_width == screen_width
                    &&& collectibles.screen_height == screen_height
                    &&& collectibles.min_separation == min_separation
                },
                Err(_) => collectible_count >= 2 && min_separation > 0,
            },
    {
        match Collectibles::setup_collectibles(
            screen_width,
            screen_height,
            collectible_count,
            cluster_size,
            max_distance_threshold,
            collectible_size,
            min_separation,
        ) {
            Ok(items) => Ok(
                Collectibles {
                    items,
                    collectible_count,
                    collectible_size,
                    cluster_size,
                    max_distance_threshold,
                    screen_width,
                    screen_height,
                    min_separation,
                },
            ),
            Err(e) => Err(e),
        }
    }

    /// Discards the creatures and places new ones under the same
    /// settings. Where placement fails the creatures stay as they are.
    pub fn reset_collectibles(&mut self) -> (result: Result<(), PlacementError>)
        requires
            old(self).wf(),
        ensures
            final(self).wf(),
            final(self).same_settings(old(self)),
            match result {
                Ok(_) => final(self).freshly_set_up(),
                Err(_) => final(self).items@ == old(self).items@ && old(self).collectible_count >= 2
                    && old(self).min_separation > 0,
            },
    {
        match Collectibles::setup_collectibles(
            self.screen_width,
            self.screen_height,
            self.collectible_count,
            self.cluster_size,
            self.max_distance_threshold,
            self.collectible_size,
            self.min_separation,
        ) {
            Ok(items) => {
                self.items = items;
                Ok(())
            },
            Err(e) => Err(e),
        }
    }

    fn setup_collectibles(
        screen_width: i32,
        screen_height: i32,
        collectible_count: i32,
        cluster_size: i32,
        max_distance_threshold: i32,
        collectible_size: i32,
        min_separation: i32,
    ) -> (result: Result<Vec<Collectible>, PlacementError>)
        requires
            valid_world(
                screen_width as int,
                screen_height as int,
                cluster_size as int,
                max_distance_threshold as int,
                collectible_size as int,
            ),
        ensures
            match result {
                Ok(collectibles) => {
                    &&& collectibles@.len() == if collectible_count < 0 {
                        0
                    } else {
                        collectible_count as int
                    }
                    &&& forall|i: int|
                        0 <= i < collectibles@.len() ==> freshly_placed(
                            #[trigger] collectibles@[i],
                            i,
                            screen_width as int,
                            screen_height as int,
                            cluster_size as int,
                            max_distance_threshold as int,
                            collectible_size as int,
                        )
                    &&& pairwise_separated(collectibles@, min_separation as int)
                },
                Err(_) => collectible_count >= 2 && min_separation > 0,
            },
    {
        generate_collectibles(
            screen_width,
            screen_height,
            collectible_count,
            cluster_size,
            max_distance_threshold,
            collectible_size,
            min_separation,
        )
    }

    /// Lets the creature of the given index record a distance to the
    /// agent; does nothing where there is no such creature.
    pub fn handle_collectible_proximity(&mut self, collectible_index: usize, distance: i64)
        ensures
            final(self).same_settings(old(self)),
            collectible_index < old(self).items@.len() ==> final(self).items@ == old(
                self,
            ).items@.update(
                collectible_index as int,
                old(self).items@[collectible_index as int].sensing(
                    within_half(distance as int, old(self).max_distance_threshold as int),
                    distance,
                    NORMALIZATION_FAR,
                ),
            ),
            collectible_index >= old(self).items@.len() ==> final(self).items@ == old(self).items@,
            old(self).wf() ==> final(self).wf(),
    {
        if collectible_index < self.items.len() {
            let threshold: i32 = self.max_distance_threshold;
            self.items[collectible_index].sense(distance, threshold);
        }
    }

    /// What the creatures ask of the noise field, in their order.
    pub fn noise_requests(&self) -> (requests: Vec<NoiseRequest>)
        requires
            self.wf(),
        ensures
            requests@.len() == self.items@.len(),
            forall|k: int|
                0 <= k < self.items@.len() ==> self.items@[k].asks_for(&(#[trigger] requests@[k])),
    {
        let mut requests: Vec<NoiseRequest> = Vec::new();
        let mut k: usize = 0;
        while k < self.items.len()
            invariant
                self.wf(),
                k <= self.items@.len(),
                requests@.len() == k,
                forall|m: int|
                    0 <= m < k ==> self.items@[m].asks_for(&(#[trigger] requests@[m])),
            decreases self.items@.len() - k,
        {
            requests.push(self.items[k].noise_requests());
            k += 1;
        }
        requests
    }

    /// Gives every creature the shape that its samples describe. The
    /// samples are taken in the order of the creatures; a creature
    /// without samples keeps its shape.
    pub fn reshape(&mut self, samples: &Vec<NoiseSamples>)
        requires
            old(self).wf(),
        ensures
            final(self).wf(),
            final(self).same_settings(old(self)),
            final(self).items@.len() == old(self).items@.len(),
            forall|k: int|
                0 <= k < old(self).items@.len() ==> if k < samples@.len() {
                    old(self).items@[k].reshapes_to(
                        &(#[trigger] final(self).items@[k]),
                        &samples@[k],
                    )
                } else {
                    final(self).items@[k] == old(self).items@[k]
                },
    {
        let ghost before = self.items@;
        let mut k: usize = 0;
        while k < self.items.len() && k < samples.len()
            invariant
                self.same_settings(old(self)),
                self.wf(),
                self.items@.len() == before.len(),
                k <= before.len(),
                k <= samples@.len(),
                before == old(self).items@,
                forall|m: int|
                    0 <= m < k ==> before[m].reshapes_to(
                        &(#[trigger] self.items@[m]),
                        &samples@[m],
                    ),
                forall|m: int| k <= m < before.len() ==> (#[trigger] self.items@[m]) == before[m],
            decreases self.items@.len() - k,
        {
            self.items[k].reshape(&samples[k]);
            k += 1;
        }
    }

    /// What the proximity engine reports of the agent against the
    /// creatures: for each creature that is close to the agent or touches
    /// it, in the order of the creatures, its index, its distance and
    /// whether it touches.
    pub fn sense(&self, player: &Player) -> (reports: Vec<(usize, usize, i64, bool)>)
        requires
            self.wf(),
            player.has_bounds(),
        ensures
            reports@ == row_reports(
                0,
                player.bounds(),
                item_boxes(self.items@),
                self.max_distance_threshold as int,
                self.items@.len() as int,
            ),
    {
        let mut creatures: Vec<&Collectible> = Vec::new();
        let mut k: usize = 0;
        while k < self.items.len()
            invariant
                k <= self.items@.len(),
                creatures@.len() == k,
                forall|m: int| 0 <= m < k ==> *(#[trigger] creatures@[m]) == self.items@[m],
            decreases self.items@.len() - k,
        {
            creatures.push(&self.items[k]);
            k += 1;
        }
        let agents: Vec<&Player> = vec![player];
        proof {
            assert forall|m: int| 0 <= m < creatures@.len() implies (
            #[trigger] creatures@[m]).has_bounds() by {
                assert(self.items@[m].wf());
            }
            assert(agents@[0].has_bounds());
        }
        let reports = handle_proximity_and_collisions(
            agents.as_slice(),
            creatures.as_slice(),
            self.max_distance_threshold as i64,
        );
        proof {
            let agent_boxes = boxes_of(agents@);
            let creature_boxes = boxes_of(creatures@);
            let threshold = self.max_distance_threshold as int;
            assert(creature_boxes =~= item_boxes(self.items@));
            assert(agent_boxes[0] == player.bounds());
            assert(all_reports(agent_boxes, creature_boxes, threshold, 0) =~= Seq::empty());
            assert(all_reports(agent_boxes, creature_boxes, threshold, 1)
                =~= all_reports(agent_boxes, creature_boxes, threshold, 0) + row_reports(
                0,
                agent_boxes[0],
                creature_boxes,
                threshold,
                creature_boxes.len() as int,
            ));
        }
        reports
    }

    /// One tick of `dt` milliseconds. Every creature that is close to the
    /// agent or touches it records its distance; those that the agent
    /// touches are removed, from the last to the first, each with a burst
    /// of smoke as far as the pool has inactive slots; the others make
    /// their tick and keep their order.
    pub fn update(
        &mut self,
        dt: i32,
        player_position: Point,
        player: &Player,
        smoke_effect_pool: &mut Vec<SmokeEffect>,
    )
        requires
            old(self).wf(),
            0 <= dt,
            player.has_bounds(),
            pool_wf(old(smoke_effect_pool)@),
        ensures
            final(self).wf(),
            final(self).same_settings(old(self)),
            final(self).items@.len() == survivors_from(old(self).items@, player.bounds(), 0).len(),
            forall|k: int|
                0 <= k < final(self).items@.len() ==> sensed(
                    old(self).items@[survivors_from(old(self).items@, player.bounds(), 0)[k]],
                    player.bounds(),
                    old(self).max_distance_threshold as int,
                ).ticks_to(&(#[trigger] final(self).items@[k]), dt as int, player_position),
            pool_wf(final(smoke_effect_pool)@),
            puffs_from(
                old(smoke_effect_pool)@,
                final(smoke_effect_pool)@,
                old(self).items@,
                player.bounds(),
                0,
            ),
            inactive_before(final(smoke_effect_pool)@, final(smoke_effect_pool)@.len() as int)
                == inactive_after(
                inactive_before(old(smoke_effect_pool)@, old(smoke_effect_pool)@.len() as int),
                old(self).items@.len() - final(self).items@.len(),
            ),
    {
        let ghost old_items = self.items@;
        let ghost pool0 = smoke_effect_pool@;
        let ghost agent_box = player.bounds();
        let ghost boxes = item_boxes(old_items);
        let ghost before = *self;
        let threshold: i32 = self.max_distance_threshold;
        let reports = self.sense(player);
        let mut r: usize = reports.len();
        let mut kept: Vec<Collectible> = Vec::new();
        proof {
            assert(reports@.subrange(0, r as int) =~= reports@);
            assert(survivors_from(old_items, agent_box, old_items.len() as int) =~= Seq::empty());
            lemma_inactive_before_grows(pool0, 0, pool0.len() as int);
        }
        while self.items.len() > 0
            invariant
                0 <= dt,
                threshold == self.max_distance_threshold,
                self.same_settings(&before),
                before.wf(),
                old_items == before.items@,
                agent_box == player.bounds(),
                boxes == item_boxes(old_items),
                self.items@.len() <= old_items.len(),
                self.items@ =~= old_items.subrange(0, self.items@.len() as int),
                r <= reports@.len(),
                reports@.subrange(0, r as int) =~= row_reports(
                    0,
                    agent_box,
                    boxes,
                    threshold as int,
                    self.items@.len() as int,
                ),
                kept@.len() == survivors_from(
                    old_items,
                    agent_box,
                    self.items@.len() as int,
                ).len(),
                kept@.len() <= old_items.len() - self.items@.len(),
                forall|t: int|
                    0 <= t < kept@.len() ==> (#[trigger] kept@[t]).wf() && sensed(
                        old_items[survivors_from(
                            old_items,
                            agent_box,
                            self.items@.len() as int,
                        )[kept@.len() - 1 - t]],
                        agent_box,
                        threshold as int,
                    ).ticks_to(&kept@[t], dt as int, player_position),
                pool_wf(smoke_effect_pool@),
                puffs_from(
                    pool0,
                    smoke_effect_pool@,
                    old_items,
                    agent_box,
                    self.items@.len() as int,
                ),
                inactive_before(smoke_effect_pool@, smoke_effect_pool@.len() as int)
                    == inactive_after(
                    inactive_before(pool0, pool0.len() as int),
                    old_items.len() - self.items@.len() - kept@.len(),
                ),
            decreases self.items@.len(),
        {
            let j: usize = self.items.len() - 1;
            let ghost row = row_reports(0, agent_box, boxes, threshold as int, j as int + 1);
            let ghost shorter = row_reports(0, agent_box, boxes, threshold as int, j as int);
            let ghost alive = survivors_from(old_items, agent_box, j as int + 1);
            let ghost pool1 = smoke_effect_pool@;
            let ghost kept1 = kept@;
            let mut c: Collectible = self.items.pop().unwrap();
            assert(c == old_items[j as int]);
            assert(c.wf());
            assert(boxes[j as int] == c.bounds());
            proof {
                lemma_center_distance_bounds(agent_box, c.bounds());
                if reported(agent_box, boxes[j as int], threshold as int) {
                    assert(row == shorter.push(report_of(0, j as int, agent_box, boxes[j as int])));
                    assert(r > 0);
                    assert(reports@[r - 1] == reports@.subrange(0, r as int)[r - 1]);
                    assert(reports@.subrange(0, r - 1) =~= shorter);
                } else {
                    assert(row == shorter);
                    if r > 0 {
                        lemma_row_reports_sound(
                            0,
                            agent_box,
                            boxes,
                            threshold as int,
                            j as int,
                            r - 1,
                        );
                        assert(reports@[r - 1] == reports@.subrange(0, r as int)[r - 1]);
                    }
                }
            }
            let matched: bool = r > 0 && reports[r - 1].1 == j;
            assert(matched == reported(agent_box, boxes[j as int], threshold as int));
            let mut hit: bool = false;
            if matched {
                let report: (usize, usize, i64, bool) = reports[r - 1];
                r -= 1;
                c.sense(report.2, threshold);
                hit = report.3;
            }
            assert(c == sensed(old_items[j as int], agent_box, threshold as int));
            assert(hit == caught(old_items[j as int], agent_box));
            if hit {
                c.activate_smoke_effect(smoke_effect_pool);
                proof {
                    assert(survivors_from(old_items, agent_box, j as int) == alive);
                    lemma_burst_count(
                        pool1,
                        smoke_effect_pool@,
                        c.burst_position(),
                        BURST_SIZE as int,
                        pool1.len() as int,
                    );
                    lemma_puffs_after_burst(
                        pool0,
                        pool1,
                        smoke_effect_pool@,
                        old_items,
                        agent_box,
                        j as int,
                    );
                }
            } else {
                c.update(dt, player_position);
                kept.push(c);
                proof {
                    let now = survivors_from(old_items, agent_box, j as int);
                    assert(now == seq![j as int] + alive);
                    assert forall|t: int| 0 <= t < kept@.len() implies (#[trigger] kept@[t]).wf()
                        && sensed(
                        old_items[now[kept@.len() - 1 - t]],
                        agent_box,
                        threshold as int,
                    ).ticks_to(&kept@[t], dt as int, player_position) by {
                        if t < kept1.len() {
                            assert(kept@[t] == kept1[t]);
                            assert(now[kept@.len() - 1 - t] == alive[kept1.len() - 1 - t]);
                        } else {
                            assert(now[0] == j);
                        }
                    }
                    lemma_puffs_from_widens(pool0, pool1, old_items, agent_box, j as int + 1);
                }
            }
        }
        let ghost stack = kept@;
        self.items = reversed(kept);
        proof {
            let alive = survivors_from(old_items, agent_box, 0);
            assert forall|k: int| 0 <= k < self.items@.len() implies sensed(
                old_items[alive[k]],
                agent_box,
                threshold as int,
            ).ticks_to(&(#[trigger] self.items@[k]), dt as int, player_position) by {
                assert(self.items@[k] == stack[stack.len() - 1 - k]);
            }
            assert forall|k: int| 0 <= k < self.items@.len() implies (
            #[trigger] self.items@[k]).wf() by {
                assert(self.items@[k] == stack[stack.len() - 1 - k]);
            }
        }
    }
}

/// The values of a stack from the top down.
fn reversed(stack: Vec<Collectible>) -> (items: Vec<Collectible>)
    ensures
        items@.len() == stack@.len(),
        forall|k: int| 0 <= k < items@.len() ==> items@[k] == stack@[stack@.len() - 1 - k],
{
    let mut stack = stack;
    let ghost start = stack@;
    let mut items: Vec<Collectible> = Vec::new();
    while stack.len() > 0
        invariant
            stack@.len() + items@.len() == start.len(),
            stack@ =~= start.subrange(0, stack@.len() as int),
            forall|k: int| 0 <= k < items@.len() ==> items@[k] == start[start.len() - 1 - k],
        decreases stack@.len(),
    {
        let top: Collectible = stack.pop().unwrap();
        items.push(top);
    }
    items
}

} // verus!
