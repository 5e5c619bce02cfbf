//! When pending shot batches are handed to the skill filter.
//!
//! Each club category keeps a batch of shots that have not yet reached the
//! filter. A batch is flushed when it fills, around a high-stakes wager, and
//! at the end of a session. This module holds the sizes of those batches and
//! decides the flushes; the shots themselves live with the player.

use vstd::prelude::*;
use crate::hole::{ClubCategory, Hole, catalog, hole_configurations};

verus! {

/// What the driver does with one shot, in this order: flush the category's
/// batch, insert the shot, flush again.
#[derive(Clone, Copy, Debug, PartialEq, Eq, Structural)]
pub struct StepPlan {
    /// The wager is at least ten times the mean wager of a non-empty batch.
    pub high_stakes: bool,
    /// Flush the batch before the shot goes in.
    pub flush_before: bool,
    /// Put the shot into the batch.
    pub insert: bool,
    /// Flush the batch after the shot went in.
    pub flush_after: bool,
}

/// Batch sizes per club category and the counters of one session.
#[derive(Clone, Copy, Debug, PartialEq, Eq, Structural)]
pub struct BatchSchedule {
    /// A batch is flushed once it holds this many shots.
    pub capacity: usize,
    /// Whether shots reach the filter at all.
    pub enabled: bool,
    /// Shots waiting in the wedge batch.
    pub pending_wedge: usize,
    /// Shots waiting in the mid-iron batch.
    pub pending_mid_iron: usize,
    /// Shots waiting in the long-iron batch.
    pub pending_long_iron: usize,
    /// Flushes so far.
    pub num_updates: usize,
    /// High-stakes shots so far.
    pub num_high_stakes: usize,
}

/// The decision for one shot on a batch holding `pending` shots.
///
/// `exceeds` tells whether the wager is at least ten times the mean wager of
/// the batch; on an empty batch there is no mean and it is ignored, so the
/// first shot into a batch is never high-stakes.
pub open spec fn plan_for(pending: nat, capacity: nat, enabled: bool, exceeds: bool) -> StepPlan {
    if !enabled {
        StepPlan { high_stakes: false, flush_before: false, insert: false, flush_after: false }
    } else {
        let high_stakes = pending > 0 && exceeds;
        let after_insert = if high_stakes { 1 } else { pending + 1 };
        StepPlan {
            high_stakes,
            flush_before: high_stakes,
            insert: true,
            flush_after: high_stakes || after_insert >= capacity,
        }
    }
}

/// A schedule with every batch empty and nothing counted.
pub open spec fn fresh(capacity: usize, enabled: bool) -> BatchSchedule {
    BatchSchedule {
        capacity,
        enabled,
        pending_wedge: 0,
        pending_mid_iron: 0,
        pending_long_iron: 0,
        num_updates: 0,
        num_high_stakes: 0,
    }
}

/// The first catalog target of category `c`.
pub open spec fn first_target(c: ClubCategory) -> Hole {
    match c {
        ClubCategory::Wedge => catalog()[0],
        ClubCategory::MidIron => catalog()[3],
        ClubCategory::LongIron => catalog()[5],
    }
}

/// One when the flag is set, else zero.
pub open spec fn count(b: bool) -> nat {
    if b { 1 } else { 0 }
}

/// The first catalog target of each category, in category order: the targets
/// whose multiplier is recorded with an end-of-session flush.
pub open spec fn flush_targets() -> Seq<Hole> {
    seq![catalog()[0], catalog()[3], catalog()[5]]
}

impl BatchSchedule {
    /// Shots waiting in the batch of category `c`.
    pub open spec fn pending(self, c: ClubCategory) -> nat {
        match c {
            ClubCategory::Wedge => self.pending_wedge as nat,
            ClubCategory::MidIron => self.pending_mid_iron as nat,
            ClubCategory::LongIron => self.pending_long_iron as nat,
        }
    }

    /// The schedule with the batch of category `c` holding `n` shots.
    pub open spec fn with_pending(self, c: ClubCategory, n: nat) -> BatchSchedule {
        match c {
            ClubCategory::Wedge => BatchSchedule { pending_wedge: n as usize, ..self },
            ClubCategory::MidIron => BatchSchedule { pending_mid_iron: n as usize, ..self },
            ClubCategory::LongIron => BatchSchedule { pending_long_iron: n as usize, ..self },
        }
    }

    /// The capacity is positive and no batch has reached it.
    pub open spec fn wf(self) -> bool {
        &&& self.capacity > 0
        &&& self.pending_wedge < self.capacity
        &&& self.pending_mid_iron < self.capacity
        &&& self.pending_long_iron < self.capacity
    }

    /// Room in the counters for one more shot, or for the end of the session.
    pub open spec fn has_room(self) -> bool {
        &&& self.num_updates + 3 <= usize::MAX
        &&& self.num_high_stakes + 1 <= usize::MAX
    }

    /// The plan for a shot on category `c`, and the schedule after it.
    pub open spec fn step(self, c: ClubCategory, exceeds: bool) -> (BatchSchedule, StepPlan) {
        let p = self.pending(c);
        let plan = plan_for(p, self.capacity as nat, self.enabled, exceeds);
        let after_insert = if !plan.insert {
            p
        } else if plan.flush_before {
            1
        } else {
            p + 1
        };
        let left = if plan.flush_after { 0 } else { after_insert };
        let next = BatchSchedule {
            num_updates: (self.num_updates + count(plan.flush_before) + count(
                plan.flush_after,
            )) as usize,
            num_high_stakes: (self.num_high_stakes + count(plan.high_stakes)) as usize,
            ..self.with_pending(c, left)
        };
        (next, plan)
    }

    /// The schedule after the end-of-session flushes: every batch empty, one
    /// update counted per batch that held shots.
    pub open spec fn finished(self) -> BatchSchedule {
        BatchSchedule {
            pending_wedge: 0,
            pending_mid_iron: 0,
            pending_long_iron: 0,
            num_updates: (self.num_updates + count(self.pending_wedge > 0) + count(
                self.pending_mid_iron > 0,
            ) + count(self.pending_long_iron > 0)) as usize,
            ..self
        }
    }

    /// The targets flushed at the end of a session: the first target of each
    /// category whose batch holds shots.
    pub open spec fn final_flushes(self) -> Seq<Hole> {
        flush_targets().filter(|h: Hole| self.pending(h.category) > 0)
    }

    /// A fresh schedule: every batch empty, nothing counted.
    pub fn new(capacity: usize, enabled: bool) -> (r: BatchSchedule)
        requires
            capacity > 0,
        ensures
            r == fresh(capacity, enabled),
            r.wf(),
    {
        BatchSchedule {
            capacity,
            enabled,
            pending_wedge: 0,
            pending_mid_iron: 0,
            pending_long_iron: 0,
            num_updates: 0,
            num_high_stakes: 0,
        }
    }

    /// Shots waiting in the batch of category `c`.
    pub fn pending_for(&self, c: ClubCategory) -> (r: usize)
        ensures
            r == self.pending(c),
    {
        match c {
            ClubCategory::Wedge => self.pending_wedge,
            ClubCategory::MidIron => self.pending_mid_iron,
            ClubCategory::LongIron => self.pending_long_iron,
        }
    }

    /// Whether a wager on category `c` is high-stakes: the batch holds shots
    /// and `exceeds` says the wager is at least ten times their mean wager.
    pub fn is_high_stakes(&self, c: ClubCategory, exceeds: bool) -> (r: bool)
        ensures
            r == (self.pending(c) > 0 && exceeds),
    {
        self.pending_for(c) > 0 && exceeds
    }

    /// Whether the counters have room for another shot or for the end of
    /// the session.
    pub fn can_continue(&self) -> (r: bool)
        ensures
            r == self.has_room(),
    {
        self.num_updates <= usize::MAX - 3 && self.num_high_stakes < usize::MAX
    }

    /// Decides what happens to a shot on category `c` and records it.
    pub fn record_shot(&mut self, c: ClubCategory, exceeds: bool) -> (plan: StepPlan)
        requires
            old(self).wf(),
            old(self).has_room(),
        ensures
            (*final(self), plan) == old(self).step(c, exceeds),
            final(self).wf(),
    {
        let p = self.pending_for(c);
        if !self.enabled {
            return StepPlan { high_stakes: false, flush_before: false, insert: false, flush_after: false };
        }
        let high_stakes = p > 0 && exceeds;
        let after_insert: usize = if high_stakes { 1 } else { p + 1 };
        let flush_after = high_stakes || after_insert >= self.capacity;
        let left: usize = if flush_after { 0 } else { after_insert };
        match c {
            ClubCategory::Wedge => self.pending_wedge = left,
            ClubCategory::MidIron => self.pending_mid_iron = left,
            ClubCategory::LongIron => self.pending_long_iron = left,
        }
        if high_stakes {
            self.num_updates = self.num_updates + 1;
            self.num_high_stakes = self.num_high_stakes + 1;
        }
        if flush_after {
            self.num_updates = self.num_updates + 1;
        }
        StepPlan { high_stakes, flush_before: high_stakes, insert: true, flush_after }
    }

    /// Flushes every batch that holds shots, as a session ends, and returns
    /// the targets whose multiplier goes with each flush.
    pub fn finish(&mut self) -> (r: Vec<Hole>)
        requires
            old(self).has_room(),
        ensures
            *final(self) == old(self).finished(),
            r@ == old(self).final_flushes(),
    {
        let holes = hole_configurations();
        let mut out: Vec<Hole> = Vec::new();
        if self.pending_wedge > 0 {
            out.push(holes[0]);
            self.pending_wedge = 0;
            self.num_updates = self.num_updates + 1;
        }
        if self.pending_mid_iron > 0 {
            out.push(holes[3]);
            self.pending_mid_iron = 0;
            self.num_updates = self.num_updates + 1;
        }
        if self.pending_long_iron > 0 {
            out.push(holes[5]);
            self.pending_long_iron = 0;
            self.num_updates = self.num_updates + 1;
        }
        proof {
            reveal_with_fuel(Seq::filter, 4);
            assert(out@ =~= old(self).final_flushes());
        }
        out
    }
}

/// In a session of a single shot, with batches that take more than one shot,
/// the shot causes no flush of its own, whatever its wager; the end of the
/// session then flushes the shot's category once, and no other: one update
/// in all.
pub proof fn lemma_single_shot_session(capacity: usize, c: ClubCategory, exceeds: bool)
    requires
        capacity > 1,
    ensures
        ({
            let (after, plan) = fresh(capacity, true).step(c, exceeds);
            &&& plan.insert
            &&& !plan.flush_before
            &&& !plan.flush_after
            &&& after.final_flushes() == seq![first_target(c)]
            &&& after.finished().num_updates == 1
        }),
{
    let (after, plan) = fresh(capacity, true).step(c, exceeds);
    reveal_with_fuel(Seq::filter, 4);
    assert(after.final_flushes() =~= seq![first_target(c)]);
}

/// The first shot into an empty batch is never high-stakes, however large its
/// wager: nothing is flushed before it goes in, no high-stakes shot is
/// counted, and it is flushed right after only when one shot fills a batch.
pub proof fn lemma_first_shot_not_high_stakes(s: BatchSchedule, c: ClubCategory, exceeds: bool)
    requires
        s.wf(),
        s.enabled,
        s.pending(c) == 0,
    ensures
        ({
            let (after, plan) = s.step(c, exceeds);
            &&& plan.insert
            &&& !plan.high_stakes
            &&& !plan.flush_before
            &&& (plan.flush_after <==> s.capacity == 1)
            &&& after.num_high_stakes == s.num_high_stakes
        }),
{
}

/// A high-stakes shot empties its batch both before and after it goes in:
/// two updates are counted and the batch is left empty.
pub proof fn lemma_high_stakes_flushes_twice(s: BatchSchedule, c: ClubCategory)
    requires
        s.wf(),
        s.has_room(),
        s.enabled,
        s.pending(c) > 0,
    ensures
        ({
            let (after, plan) = s.step(c, true);
            &&& plan.high_stakes && plan.flush_before && plan.insert && plan.flush_after
            &&& after.pending(c) == 0
            &&& after.num_updates == s.num_updates + 2
            &&& after.num_high_stakes == s.num_high_stakes + 1
        }),
{
}

/// With updates disabled no shot enters a batch and nothing is flushed or
/// counted.
pub proof fn lemma_disabled_never_updates(s: BatchSchedule, c: ClubCategory, exceeds: bool)
    requires
        !s.enabled,
    ensures
        ({
            let (after, plan) = s.step(c, exceeds);
            &&& !plan.insert && !plan.flush_before && !plan.flush_after
            &&& after == s
        }),
{
    let (after, plan) = s.step(c, exceeds);
    assert(after == s);
}

} // verus!
