//! An expedition: a group of players who pool resources to found a colony.

use crate::colony::ColonyState;
use crate::error::WorldError;
use crate::identity::anonymous_principal;
use crate::inventory::Inventory;
use crate::player::TimestampMillis;
use crate::resources::added;
use crate::resources::fits;
use crate::resources::quantity;
use crate::resources::Amounts;
use crate::resources::Resources;
use crate::vec_map::lemma_listed;
use crate::vec_map::VecMap;
use candid::Principal;
use vstd::prelude::*;

verus! {

/// How many times the recipe an expedition's pool must hold before the
/// expedition can leave.
pub const THRESHOLD_FACTOR: u64 = 10;

/// Where an expedition stands. The steps are taken in the order in which they
/// are listed, one at a time, and never backwards.
#[derive(Clone, Copy, Debug, PartialEq)]
pub enum ExpeditionStep {
    /// Waiting for members and resources.
    Proposed,
    /// The pool has reached the threshold.
    Ready,
    /// A new colony was asked for at the given time.
    Starting(TimestampMillis),
    /// The new colony exists under the given identity.
    Started(Principal),
    /// The colony is on record. Nothing more happens.
    Done,
}

impl ExpeditionStep {
    /// The place of the step in the order of steps.
    pub open spec fn rank(self) -> nat {
        match self {
            ExpeditionStep::Proposed => 0,
            ExpeditionStep::Ready => 1,
            ExpeditionStep::Starting(_) => 2,
            ExpeditionStep::Started(_) => 3,
            ExpeditionStep::Done => 4,
        }
    }

    /// `next` is the step that comes directly after this one.
    pub open spec fn follows(self, next: ExpeditionStep) -> bool {
        next.rank() == self.rank() + 1
    }

    /// `later` is this step, or the step directly after it.
    pub open spec fn stays_or_follows(self, later: ExpeditionStep) -> bool {
        later == self || self.follows(later)
    }

    /// Whether `next` is the step that comes directly after this one.
    pub fn is_followed_by(&self, next: &ExpeditionStep) -> (legal: bool)
        ensures
            legal == self.follows(*next),
    {
        match (self, next) {
            (ExpeditionStep::Proposed, ExpeditionStep::Ready) => true,
            (ExpeditionStep::Ready, ExpeditionStep::Starting(_)) => true,
            (ExpeditionStep::Starting(_), ExpeditionStep::Started(_)) => true,
            (ExpeditionStep::Started(_), ExpeditionStep::Done) => true,
            _ => false,
        }
    }
}

/// `pool` holds at least `factor` times what `required` lists, for every
/// resource that `required` lists.
pub open spec fn covers_scaled(
    pool: Map<Resources, u64>,
    required: Map<Resources, u64>,
    factor: u64,
) -> bool {
    forall|r: Resources| #[trigger]
        required.contains_key(r) ==> required[r] * factor <= quantity(pool, r)
}

/// One expedition.
#[derive(Debug)]
pub struct ExpeditionState {
    pub id: u64,
    pub step: ExpeditionStep,
    pub proposed_by: Principal,
    pub proposed_at: TimestampMillis,
    /// What each member pays in. Fixed when the expedition is proposed.
    pub resources_required: Amounts,
    /// What the members have paid in so far.
    pub resources_pool: Inventory,
    /// The members, in the order in which they joined.
    pub members: Vec<Principal>,
}

impl Default for ExpeditionState {
    /// An expedition with nothing in it, proposed by nobody. It is a blank to
    /// fill in, and not well formed: it has no member.
    fn default() -> (blank: Self)
        ensures
            blank.id == 0,
            blank.step == ExpeditionStep::Proposed,
            blank.proposed_at == 0,
            blank.resources_required@ == Map::<Resources, u64>::empty(),
            blank.resources_pool.size == 0,
            blank.resources_pool.contents@ == Map::<Resources, u64>::empty(),
            blank.members@ == Seq::<Principal>::empty(),
    {
        ExpeditionState {
            id: 0,
            step: ExpeditionStep::Proposed,
            proposed_by: anonymous_principal(),
            proposed_at: 0,
            resources_required: VecMap::new(),
            resources_pool: Inventory::default(),
            members: Vec::new(),
        }
    }
}

impl Clone for ExpeditionState {
    fn clone(&self) -> (copy: Self)
        ensures
            copy.id == self.id,
            copy.step == self.step,
            copy.proposed_by == self.proposed_by,
            copy.proposed_at == self.proposed_at,
            copy.resources_required@ == self.resources_required@,
            copy.resources_required.spec_keys() == self.resources_required.spec_keys(),
            copy.resources_pool.size == self.resources_pool.size,
            copy.resources_pool.contents@ == self.resources_pool.contents@,
            copy.resources_pool.contents.spec_keys() == self.resources_pool.contents.spec_keys(),
            copy.members@ == self.members@,
    {
        let mut members: Vec<Principal> = Vec::new();
        let mut i: usize = 0;
        while i < self.members.len()
            invariant
                i <= self.members.len(),
                members@ == self.members@.take(i as int),
            decreases self.members.len() - i,
        {
            members.push(self.members[i]);
            proof {
                assert(self.members@.take(i + 1) =~= self.members@.take(i as int).push(
                    self.members@[i as int],
                ));
            }
            i += 1;
        }
        proof {
            assert(self.members@.take(self.members.len() as int) =~= self.members@);
        }
        ExpeditionState {
            id: self.id,
            step: self.step,
            proposed_by: self.proposed_by,
            proposed_at: self.proposed_at,
            resources_required: self.resources_required.clone(),
            resources_pool: self.resources_pool.clone(),
            members,
        }
    }
}

impl ExpeditionState {
    /// The expedition is one that the operations of a world can have made:
    /// its proposer is a member, and no member is listed twice.
    pub open spec fn wf(&self) -> bool {
        &&& self.members@.contains(self.proposed_by)
        &&& self.members@.no_duplicates()
    }

    /// The same expedition at a later time: what was fixed at the proposal is
    /// as it was, the members of before are the first members of now, and
    /// the step is the same or the next.
    pub open spec fn continues(&self, later: &ExpeditionState) -> bool {
        &&& later.id == self.id
        &&& later.proposed_by == self.proposed_by
        &&& later.proposed_at == self.proposed_at
        &&& later.resources_required@ == self.resources_required@
        &&& self.members@.is_prefix_of(later.members@)
        &&& self.step.stays_or_follows(later.step)
    }

    /// Whether the pool has reached the threshold: ten times the recipe.
    pub open spec fn spec_has_enough_resources(&self) -> bool {
        covers_scaled(self.resources_pool.contents@, self.resources_required@, THRESHOLD_FACTOR)
    }

    /// Whether `add_resources` may be called with `resources`: the
    /// expedition is done, and nothing will be paid, or the pool stays within
    /// what a quantity can hold.
    pub open spec fn payment_in_range(&self, resources: Map<Resources, u64>) -> bool {
        !(self.step is Done) ==> fits(self.resources_pool.contents@, resources)
    }

    /// Whether `add_resources` may be called with `resources`.
    pub fn can_take(&self, resources: &Amounts) -> (in_range: bool)
        ensures
            in_range == self.payment_in_range(resources@),
    {
        match self.step {
            ExpeditionStep::Done => true,
            _ => self.resources_pool.can_hold(resources),
        }
    }

    /// Pays `resources` into the pool, as into any inventory: a resource
    /// that the pool did not mention starts from zero. An expedition that is
    /// done takes no payment: it fails with `ExpeditionDone` and stays as it
    /// is.
    pub fn add_resources(&mut self, resources: &Amounts) -> (done: Result<(), WorldError>)
        requires
            old(self).payment_in_range(resources@),
        ensures
            match done {
                Ok(()) => !(old(self).step is Done) && old(self).funded(final(self), resources@),
                Err(e) => {
                    &&& e == WorldError::ExpeditionDone
                    &&& old(self).step is Done
                    &&& *final(self) == *old(self)
                },
            },
    {
        if let ExpeditionStep::Done = self.step {
            return Err(WorldError::ExpeditionDone);
        }
        self.resources_pool.add_resources(resources);
        Ok(())
    }

    /// Takes the step `step`, if it is the one that follows the current step,
    /// and, where it is `Ready`, if the pool has reached the threshold.
    /// Otherwise the expedition stays as it is.
    pub fn set_step(&mut self, step: ExpeditionStep) -> (done: Result<(), WorldError>)
        ensures
            done == old(self).step_outcome(step),
            done is Ok ==> final(self).step == step,
            done is Err ==> final(self).step == old(self).step,
            final(self).id == old(self).id,
            final(self).proposed_by == old(self).proposed_by,
            final(self).proposed_at == old(self).proposed_at,
            final(self).resources_required == old(self).resources_required,
            final(self).resources_pool == old(self).resources_pool,
            final(self).members == old(self).members,
            old(self).step.stays_or_follows(final(self).step),
    {
        if let ExpeditionStep::Done = self.step {
            return Err(WorldError::ExpeditionDone);
        }
        if !self.step.is_followed_by(&step) {
            return Err(WorldError::IllegalStep);
        }
        if let ExpeditionStep::Ready = step {
            if !self.has_enough_resources() {
                return Err(WorldError::ThresholdNotMet);
            }
        }
        self.step = step;
        Ok(())
    }

    /// What `set_step` answers to a request for `step`.
    pub open spec fn step_outcome(&self, step: ExpeditionStep) -> Result<(), WorldError> {
        if self.step is Done {
            Err(WorldError::ExpeditionDone)
        } else if !self.step.follows(step) {
            Err(WorldError::IllegalStep)
        } else if step is Ready && !self.spec_has_enough_resources() {
            Err(WorldError::ThresholdNotMet)
        } else {
            Ok(())
        }
    }

    /// The step at which the expedition stands.
    pub fn get_step(self) -> (step: ExpeditionStep)
        ensures
            step == self.step,
    {
        self.step
    }

    /// Whether the pool has reached the threshold: ten times the recipe, for
    /// every resource of the recipe.
    pub fn has_enough_resources(&self) -> (enough: bool)
        ensures
            enough == self.spec_has_enough_resources(),
    {
        let n = self.resources_required.len();
        let ghost keys = self.resources_required.spec_keys();
        let mut i: usize = 0;
        while i < n
            invariant
                i <= n,
                n == keys.len(),
                keys == self.resources_required.spec_keys(),
                self.resources_required@.dom() == keys.to_set(),
                forall|j: int|
                    0 <= j < i ==> self.resources_required@[#[trigger] keys[j]] * THRESHOLD_FACTOR
                        <= quantity(self.resources_pool.contents@, keys[j]),
            decreases n - i,
        {
            let (r, wanted) = self.resources_required.entry_at(i);
            let pooled = self.resources_pool.get(r);
            if (pooled as u128) < (*wanted as u128) * (THRESHOLD_FACTOR as u128) {
                return false;
            }
            i += 1;
        }
        proof {
            assert forall|r: Resources| #[trigger]
                self.resources_required@.contains_key(r) implies self.resources_required@[r]
                * THRESHOLD_FACTOR <= quantity(self.resources_pool.contents@, r) by {
                let j = lemma_listed(keys, r);
            }
        }
        true
    }

    /// `colony` is the configuration of the colony that the expedition
    /// founds: a colony one generation after the first, with a
    /// tax of five percent, a hundred units of every resource for each
    /// second of work, and the expedition's pool as its till.
    pub open spec fn founds(&self, colony: &ColonyState) -> bool {
        &&& colony.generation == 1
        &&& colony.taxes_percent == 5
        &&& colony.global_resources_multiplier == 1
        &&& colony.rewards_per_second@ == Map::<Resources, u8>::empty().insert(
            Resources::Wood,
            100,
        ).insert(Resources::Stone, 100).insert(Resources::Food, 100).insert(
            Resources::Water,
            100,
        ).insert(Resources::Gold, 100)
        &&& colony.coffers.size == self.resources_pool.size
        &&& colony.coffers.contents@ == self.resources_pool.contents@
    }

    /// The configuration of the colony that the expedition founds.
    pub fn colony_settings(&self) -> (colony: ColonyState)
        ensures
            self.founds(&colony),
    {
        let mut rates: VecMap<Resources, u8> = VecMap::new();
        rates.insert(Resources::Wood, 100);
        rates.insert(Resources::Stone, 100);
        rates.insert(Resources::Food, 100);
        rates.insert(Resources::Water, 100);
        rates.insert(Resources::Gold, 100);
        ColonyState {
            generation: 1,
            taxes_percent: 5,
            global_resources_multiplier: 1,
            rewards_per_second: rates,
            coffers: self.resources_pool.clone(),
        }
    }

    /// `after` is this expedition once `amounts` have been paid into its
    /// pool, and the same otherwise. The payment fitted: every quantity of
    /// the pool is the sum of what was there and what was paid.
    pub open spec fn funded(&self, after: &ExpeditionState, amounts: Map<Resources, u64>) -> bool {
        &&& fits(self.resources_pool.contents@, amounts)
        &&& after.resources_pool.contents@ == added(self.resources_pool.contents@, amounts)
        &&& after.resources_pool.size == self.resources_pool.size
        &&& after.id == self.id
        &&& after.step == self.step
        &&& after.proposed_by == self.proposed_by
        &&& after.proposed_at == self.proposed_at
        &&& after.resources_required == self.resources_required
        &&& after.members == self.members
    }
}

} // verus!
