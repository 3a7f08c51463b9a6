//! A world: one colony, its players and their expeditions.
//!
//! `BusinessState` owns everything and offers every operation that changes
//! it. An operation either succeeds and changes exactly what its contract
//! names, or fails with a `WorldError` and changes nothing.

use crate::colony::rewards;
use crate::colony::taxed;
use crate::colony::ColonyState;
use crate::digest::checksum;
use crate::digest::sha256_hex;
use crate::error::WorldError;
use crate::expedition::ExpeditionState;
use crate::expedition::ExpeditionStep;
use crate::identity::contains_principal;
use crate::inventory::Inventory;
use crate::player::elapsed_seconds;
use crate::player::PlayerState;
use crate::player::PlayerStatus;
use crate::player::TimestampMillis;
use crate::player::MILLIS_TO_SECONDS;
use crate::resources::added;
use crate::resources::covers;
use crate::resources::fits;
use crate::resources::subtracted;
use crate::resources::Amounts;
use crate::resources::Resources;
use crate::vec_map::lemma_map_of_pairs;
use crate::vec_map::map_of_pairs;
use crate::vec_map::VecMap;
use candid::Principal;
use std::collections::HashMap;
use vstd::prelude::*;

verus! {

/// Settings of the surrounding system. There are none so far.
#[derive(Debug)]
pub struct SystemSettings {}

impl Default for SystemSettings {
    fn default() -> (settings: Self) {
        SystemSettings {  }
    }
}

/// What a colony tells about itself when asked.
#[derive(Debug)]
pub struct ColonyInfo {
    pub canister_id: Principal,
    pub generation: u8,
    pub taxes_percent: u8,
    pub rewards_per_second: VecMap<Resources, u8>,
    pub coffers: Inventory,
    pub player_count: usize,
    pub expeditions_count: u64,
}

/// What is left for the caller to do once an expedition has taken a step.
#[derive(Debug)]
pub enum ExpeditionAction {
    /// Nothing is left to do.
    Nothing,
    /// A world has to be made for a new colony with this configuration. Once
    /// it exists, `expedition_started` takes its identity.
    SpawnColony(ColonyState),
}

/// The quantity of each resource that a demonstration pays into every pool.
pub const DEMO_QUANTITY: u64 = 1000;

/// What a demonstration pays into every pool: a thousand units each of wood,
/// stone, food and water.
pub open spec fn demo_amounts() -> Map<Resources, u64> {
    Map::<Resources, u64>::empty().insert(Resources::Wood, DEMO_QUANTITY).insert(
        Resources::Stone,
        DEMO_QUANTITY,
    ).insert(Resources::Food, DEMO_QUANTITY).insert(Resources::Water, DEMO_QUANTITY)
}

/// What a demonstration pays into every pool.
pub fn demo_resources() -> (amounts: Amounts)
    ensures
        amounts@ == demo_amounts(),
{
    let mut amounts: Amounts = VecMap::new();
    amounts.insert(Resources::Wood, DEMO_QUANTITY);
    amounts.insert(Resources::Stone, DEMO_QUANTITY);
    amounts.insert(Resources::Food, DEMO_QUANTITY);
    amounts.insert(Resources::Water, DEMO_QUANTITY);
    amounts
}

/// The quantity of each resource that proposing or joining an expedition
/// costs.
pub const RECIPE_QUANTITY: u64 = 60;

/// What proposing an expedition costs: sixty units each of wood, stone, food
/// and water.
pub open spec fn recipe() -> Map<Resources, u64> {
    Map::<Resources, u64>::empty().insert(Resources::Wood, RECIPE_QUANTITY).insert(
        Resources::Stone,
        RECIPE_QUANTITY,
    ).insert(Resources::Food, RECIPE_QUANTITY).insert(Resources::Water, RECIPE_QUANTITY)
}

/// What proposing an expedition costs.
pub fn expedition_recipe() -> (amounts: Amounts)
    ensures
        amounts@ == recipe(),
{
    let mut amounts: Amounts = VecMap::new();
    amounts.insert(Resources::Wood, RECIPE_QUANTITY);
    amounts.insert(Resources::Stone, RECIPE_QUANTITY);
    amounts.insert(Resources::Food, RECIPE_QUANTITY);
    amounts.insert(Resources::Water, RECIPE_QUANTITY);
    amounts
}

/// The whole state of one world.
#[derive(Debug)]
pub struct BusinessState {
    pub colony: ColonyState,
    /// The players, by identity.
    pub player: VecMap<Principal, PlayerState>,
    /// The expeditions, by id.
    pub expeditions: HashMap<u64, ExpeditionState>,
    /// The number of expeditions proposed so far, and the id of the next.
    pub expeditions_count: u64,
    /// The colonies that expeditions of this world have founded.
    pub remote_colonies: Vec<Principal>,
    /// The program image that a new colony is installed with.
    pub wasm_store: Vec<u8>,
}

impl Default for BusinessState {
    /// A world with a first colony, and neither players nor expeditions.
    fn default() -> (world: Self)
        ensures
            world.colony.generation == 0,
            world.colony.taxes_percent == 10,
            world.colony.global_resources_multiplier == 1,
            world.colony.rewards_per_second@ == Map::<Resources, u8>::empty().insert(
                Resources::Wood,
                10,
            ).insert(Resources::Stone, 10).insert(Resources::Food, 10).insert(Resources::Water, 10),
            world.colony.coffers.size == 0,
            world.colony.coffers.contents@ == Map::<Resources, u64>::empty(),
            world.player@ == Map::<Principal, PlayerState>::empty(),
            world.expeditions@ == Map::<u64, ExpeditionState>::empty(),
            world.expeditions_count == 0,
            world.remote_colonies@ == Seq::<Principal>::empty(),
            world.wasm_store@ == Seq::<u8>::empty(),
            world.wf(),
    {
        BusinessState {
            colony: ColonyState::default(),
            player: VecMap::new(),
            expeditions: HashMap::new(),
            expeditions_count: 0,
            remote_colonies: Vec::new(),
            wasm_store: Vec::new(),
        }
    }
}

impl BusinessState {
    /// The world is one that its own operations can have made: every
    /// expedition is filed under its own id, ids are below the counter, and
    /// each expedition is well formed.
    pub open spec fn wf(&self) -> bool {
        forall|id: u64| #[trigger]
            self.expeditions@.contains_key(id) ==> {
                &&& id < self.expeditions_count
                &&& self.expeditions@[id].id == id
                &&& self.expeditions@[id].wf()
            }
    }

    /// `after` differs from this world in the record of `who` at most.
    pub open spec fn only_player_changed(&self, after: &BusinessState, who: Principal) -> bool {
        &&& after.player@ == self.player@.insert(who, after.player@[who])
        &&& after.colony == self.colony
        &&& after.expeditions == self.expeditions
        &&& after.expeditions_count == self.expeditions_count
        &&& after.remote_colonies == self.remote_colonies
        &&& after.wasm_store == self.wasm_store
    }

    /// Whether a player is registered under `principal`.
    pub fn is_player_in_world(&self, principal: Principal) -> (present: bool)
        ensures
            present == self.player@.contains_key(principal),
    {
        self.player.contains_key(&principal)
    }

    /// Registers a new, idle player with an empty inventory. Fails with
    /// `AlreadyExists` if the identity is registered already.
    pub fn add_player(&mut self, principal: Principal) -> (done: Result<(), WorldError>)
        ensures
            match done {
                Ok(()) => {
                    &&& !old(self).player@.contains_key(principal)
                    &&& old(self).only_player_changed(final(self), principal)
                    &&& final(self).player@[principal].status == PlayerStatus::Idle
                    &&& final(self).player@[principal].inventory.size == 0
                    &&& final(self).player@[principal].inventory.contents@ == Map::<
                        Resources,
                        u64,
                    >::empty()
                },
                Err(e) => {
                    &&& e == WorldError::AlreadyExists
                    &&& old(self).player@.contains_key(principal)
                    &&& *final(self) == *old(self)
                },
            },
            old(self).wf() ==> final(self).wf(),
    {
        if self.player.contains_key(&principal) {
            return Err(WorldError::AlreadyExists);
        }
        self.player.insert(principal, PlayerState::default());
        Ok(())
    }

    /// Registers a player who arrives from another world with
    /// `player_state`. They are idle here, whatever they were doing before,
    /// and what they carry is taxed at the colony's rate before it becomes
    /// their inventory. The tax is withheld; nothing is paid into the
    /// colony's till. Fails with `AlreadyExists` if the identity is
    /// registered already.
    pub fn add_traveler(&mut self, principal: Principal, player_state: PlayerState) -> (done:
        Result<(), WorldError>)
        requires
            !old(self).player@.contains_key(principal) ==> old(self).colony.taxes_percent <= 100,
        ensures
            match done {
                Ok(()) => {
                    &&& !old(self).player@.contains_key(principal)
                    &&& old(self).only_player_changed(final(self), principal)
                    &&& final(self).player@[principal].status == PlayerStatus::Idle
                    &&& final(self).player@[principal].inventory.size == 0
                    &&& final(self).player@[principal].inventory.contents@ == taxed(
                        player_state.inventory.contents@,
                        old(self).colony.taxes_percent,
                    )
                },
                Err(e) => {
                    &&& e == WorldError::AlreadyExists
                    &&& old(self).player@.contains_key(principal)
                    &&& *final(self) == *old(self)
                },
            },
            old(self).wf() ==> final(self).wf(),
    {
        if self.player.contains_key(&principal) {
            return Err(WorldError::AlreadyExists);
        }
        let kept = self.colony.apply_tax(&player_state.inventory);
        self.player.insert(principal, PlayerState { status: PlayerStatus::Idle, inventory: kept });
        Ok(())
    }

    /// What `work_set` answers for a player with the given record, if any.
    pub open spec fn start_outcome(record: Option<PlayerState>) -> Result<(), WorldError> {
        match record {
            None => Err(WorldError::PlayerNotFound),
            Some(p) => match p.status {
                PlayerStatus::Idle => Ok(()),
                PlayerStatus::WorkingAll(_) => Err(WorldError::AlreadyWorking),
                PlayerStatus::WorkingFocused(_, _) => Err(WorldError::AlreadyWorking),
                PlayerStatus::Traveling => Err(WorldError::Traveling),
            },
        }
    }

    /// The record of `who`, if there is one.
    pub open spec fn record_of(&self, who: Principal) -> Option<PlayerState> {
        if self.player@.contains_key(who) {
            Some(self.player@[who])
        } else {
            None
        }
    }

    /// Lets an idle player start to work at `now`: on `focus` if one is
    /// given, on everything if none is. A player who is working or traveling
    /// cannot start: their status, and with it the time since which they
    /// work, stays as it is.
    pub fn work_set(
        &mut self,
        principal: Principal,
        focus: Option<Resources>,
        now: TimestampMillis,
    ) -> (done: Result<(), WorldError>)
        ensures
            done == Self::start_outcome(old(self).record_of(principal)),
            match done {
                Ok(()) => {
                    &&& old(self).only_player_changed(final(self), principal)
                    &&& final(self).player@[principal].status == PlayerStatus::working(focus, now)
                    &&& final(self).player@[principal].inventory == old(
                        self,
                    ).player@[principal].inventory
                },
                Err(_) => *final(self) == *old(self),
            },
            old(self).wf() ==> final(self).wf(),
    {
        match self.player.get(&principal) {
            Some(p) => match p.get_status() {
                PlayerStatus::Idle => {},
                PlayerStatus::WorkingAll(_) => {
                    return Err(WorldError::AlreadyWorking);
                },
                PlayerStatus::WorkingFocused(_, _) => {
                    return Err(WorldError::AlreadyWorking);
                },
                PlayerStatus::Traveling => {
                    return Err(WorldError::Traveling);
                },
            },
            None => {
                return Err(WorldError::PlayerNotFound);
            },
        }
        match self.player.get_mut(&principal) {
            Some(p) => {
                match focus {
                    Some(res) => {
                        p.status = PlayerStatus::WorkingFocused(now, res);
                    },
                    None => {
                        p.status = PlayerStatus::WorkingAll(now);
                    },
                }
            },
            None => {},
        }
        Ok(())
    }

    /// What `seconds_elapsed` seconds of work earn at the colony's rates:
    /// the rate times the seconds, for each resource that has a rate.
    pub fn available_unclaimed(&self, seconds_elapsed: TimestampMillis) -> (earned: Vec<
        (Resources, u64),
    >)
        requires
            forall|r: Resources| #[trigger]
                self.colony.rewards_per_second@.contains_key(r)
                    ==> self.colony.rewards_per_second@[r] * seconds_elapsed <= u64::MAX,
        ensures
            earned@ == self.colony.earnings(seconds_elapsed),
            map_of_pairs(earned@) == rewards(self.colony.rewards_per_second@, seconds_elapsed),
    {
        let rates = &self.colony.rewards_per_second;
        let n = rates.len();
        let ghost keys = rates.spec_keys();
        let mut earned: Vec<(Resources, u64)> = Vec::new();
        let mut i: usize = 0;
        while i < n
            invariant
                i <= n,
                n == keys.len(),
                keys == rates.spec_keys(),
                rates == &self.colony.rewards_per_second,
                forall|r: Resources| #[trigger]
                    rates@.contains_key(r) ==> rates@[r] * seconds_elapsed <= u64::MAX,
                earned@.len() == i,
                forall|j: int|
                    0 <= j < i ==> (#[trigger] earned@[j]) == self.colony.earnings(
                        seconds_elapsed,
                    )[j],
            decreases n - i,
        {
            let (r, rate) = rates.entry_at(i);
            earned.push((r, *rate as u64 * seconds_elapsed));
            i += 1;
        }
        proof {
            assert(earned@ =~= self.colony.earnings(seconds_elapsed));
            assert forall|a: int, b: int| 0 <= a < b < earned@.len() implies earned@[a].0
                != earned@[b].0 by {
                assert(keys[a] != keys[b]);
            }
            lemma_map_of_pairs(earned@);
            assert forall|r: Resources| #[trigger] rates@.contains_key(r) implies map_of_pairs(
                earned@,
            ).contains_key(r) by {
                assert(keys.to_set().contains(r));
                let j = keys.index_of(r);
                assert(earned@[j].0 == r);
            }
            assert(map_of_pairs(earned@) =~= rewards(rates@, seconds_elapsed));
        }
        earned
    }

    /// What `work_claim` answers for a player with the given record, if any.
    pub open spec fn claim_outcome(record: Option<PlayerState>) -> Result<(), WorldError> {
        match record {
            None => Err(WorldError::PlayerNotFound),
            Some(p) => if p.status.spec_working_since() is Some {
                Ok(())
            } else {
                Err(WorldError::NotWorking)
            },
        }
    }

    /// If `who` is working, they started at `now` or before: time does not
    /// run backwards.
    pub open spec fn started_by(&self, who: Principal, now: TimestampMillis) -> bool {
        self.player@.contains_key(who) ==> match self.player@[who].status.spec_working_since() {
            Some(since) => since <= now,
            None => true,
        }
    }

    /// If `who` is working, they started at `now` or before, and what they
    /// have earned by `now` can be added to what they hold.
    pub open spec fn claim_in_range(&self, who: Principal, now: TimestampMillis) -> bool {
        &&& self.started_by(who, now)
        &&& self.player@.contains_key(who) ==> match self.player@[who].status.spec_working_since() {
            Some(since) => fits(
                self.player@[who].inventory.contents@,
                rewards(self.colony.rewards_per_second@, elapsed_seconds(since, now) as u64),
            ),
            None => true,
        }
    }

    /// Whether `work_claim` may be called for `principal` at `now`: the
    /// time worked does not lie after `now`, and the pay fits into what the
    /// player holds.
    pub fn can_claim(&self, principal: Principal, now: TimestampMillis) -> (in_range: bool)
        ensures
            in_range == self.claim_in_range(principal, now),
    {
        match self.player.get(&principal) {
            Some(p) => match p.status.working_since() {
                Some(since) => {
                    if since > now {
                        return false;
                    }
                    let seconds_elapsed = (now - since) / MILLIS_TO_SECONDS;
                    proof {
                        self.lemma_rewards_in_range(seconds_elapsed);
                    }
                    let earned = Amounts::from_pairs(&self.available_unclaimed(seconds_elapsed));
                    p.inventory.can_hold(&earned)
                },
                None => true,
            },
            None => true,
        }
    }

    /// `after` is this world once `who`, who was working, has claimed at
    /// `now`: for every resource that has a rate, the rate times the whole
    /// seconds worked is added to what `who` holds, and `who` is idle.
    /// The pay fitted: every quantity is the sum of what was held and what
    /// was earned. Nothing else differs.
    pub open spec fn claimed(
        &self,
        after: &BusinessState,
        who: Principal,
        now: TimestampMillis,
    ) -> bool {
        let since = self.player@[who].status.spec_working_since()->0;
        &&& since <= now
        &&& fits(
            self.player@[who].inventory.contents@,
            rewards(self.colony.rewards_per_second@, elapsed_seconds(since, now) as u64),
        )
        &&& self.only_player_changed(after, who)
        &&& after.player@[who].status == PlayerStatus::Idle
        &&& after.player@[who].inventory.size == self.player@[who].inventory.size
        &&& after.player@[who].inventory.contents@ == added(
            self.player@[who].inventory.contents@,
            rewards(self.colony.rewards_per_second@, elapsed_seconds(since, now) as u64),
        )
    }

    /// Ends the work of a player and pays them: for every resource that has
    /// a rate, the rate times the whole seconds worked is added to what they
    /// hold, and they are idle again. A focus does not narrow the pay: work
    /// with a focus earns every resource, as work without one does. A player
    /// who is not working has nothing to claim.
    pub fn work_claim(&mut self, principal: Principal, now: TimestampMillis) -> (done: Result<
        (),
        WorldError,
    >)
        requires
            old(self).claim_in_range(principal, now),
        ensures
            done == Self::claim_outcome(old(self).record_of(principal)),
            match done {
                Ok(()) => old(self).claimed(final(self), principal, now),
                Err(_) => *final(self) == *old(self),
            },
            old(self).wf() ==> final(self).wf(),
    {
        let since = match self.player.get(&principal) {
            Some(p) => match p.status.working_since() {
                Some(since) => since,
                None => {
                    return Err(WorldError::NotWorking);
                },
            },
            None => {
                return Err(WorldError::PlayerNotFound);
            },
        };
        let seconds_elapsed = (now - since) / MILLIS_TO_SECONDS;
        proof {
            self.lemma_rewards_in_range(seconds_elapsed);
        }
        let earned = Amounts::from_pairs(&self.available_unclaimed(seconds_elapsed));
        match self.player.get_mut(&principal) {
            Some(p) => {
                p.inventory.add_resources(&earned);
                p.status = PlayerStatus::Idle;
                Ok(())
            },
            None => Err(WorldError::PlayerNotFound),
        }
    }

    /// No rate times a number of whole seconds that fits a timestamp in
    /// milliseconds goes beyond what a quantity can hold.
    proof fn lemma_rewards_in_range(&self, seconds: u64)
        requires
            seconds <= u64::MAX / 1000,
        ensures
            forall|r: Resources| #[trigger]
                self.colony.rewards_per_second@.contains_key(r)
                    ==> self.colony.rewards_per_second@[r] * seconds <= u64::MAX,
    {
        assert forall|r: Resources| #[trigger]
            self.colony.rewards_per_second@.contains_key(r)
            implies self.colony.rewards_per_second@[r] * seconds <= u64::MAX by {
            let rate = self.colony.rewards_per_second@[r];
            assert(rate * seconds <= 255 * seconds) by (nonlinear_arith)
                requires
                    rate <= 255,
                    seconds >= 0,
            ;
        }
    }

    /// What a working player has earned by `now` and not yet claimed.
    pub fn unclaimed_work(&self, principal: Principal, now: TimestampMillis) -> (earned: Result<
        Vec<(Resources, u64)>,
        WorldError,
    >)
        requires
            self.started_by(principal, now),
        ensures
            match earned {
                Ok(list) => {
                    let since = self.player@[principal].status.spec_working_since()->0;
                    &&& Self::claim_outcome(self.record_of(principal)) is Ok
                    &&& list@ == self.colony.earnings(elapsed_seconds(since, now) as u64)
                },
                Err(e) => Self::claim_outcome(self.record_of(principal)) == Err::<
                    (),
                    WorldError,
                >(e),
            },
    {
        let since = match self.player.get(&principal) {
            Some(p) => match p.status.working_since() {
                Some(since) => since,
                None => {
                    return Err(WorldError::NotWorking);
                },
            },
            None => {
                return Err(WorldError::PlayerNotFound);
            },
        };
        let seconds_elapsed = (now - since) / MILLIS_TO_SECONDS;
        proof {
            self.lemma_rewards_in_range(seconds_elapsed);
        }
        Ok(self.available_unclaimed(seconds_elapsed))
    }

    /// A copy of what the player holds.
    pub fn player_inventory(&self, principal: Principal) -> (held: Result<Inventory, WorldError>)
        ensures
            match held {
                Ok(copy) => {
                    &&& self.player@.contains_key(principal)
                    &&& copy.size == self.player@[principal].inventory.size
                    &&& copy.contents@ == self.player@[principal].inventory.contents@
                },
                Err(e) => e == WorldError::PlayerNotFound && !self.player@.contains_key(principal),
            },
    {
        match self.player.get(&principal) {
            Some(p) => Ok(p.get_inventory()),
            None => Err(WorldError::PlayerNotFound),
        }
    }

    /// What the colony tells about itself, for a world that runs under the
    /// identity `canister_id`.
    pub fn colony_info(&self, canister_id: Principal) -> (info: ColonyInfo)
        ensures
            info.canister_id == canister_id,
            info.generation == self.colony.generation,
            info.taxes_percent == self.colony.taxes_percent,
            info.rewards_per_second@ == self.colony.rewards_per_second@,
            info.coffers.size == self.colony.coffers.size,
            info.coffers.contents@ == self.colony.coffers.contents@,
            info.player_count == self.player@.len(),
            info.expeditions_count == self.expeditions_count,
    {
        ColonyInfo {
            canister_id,
            generation: self.colony.generation,
            taxes_percent: self.colony.taxes_percent,
            rewards_per_second: self.colony.rewards_per_second.clone(),
            coffers: self.colony.coffers.clone(),
            player_count: self.player.len(),
            expeditions_count: self.expeditions_count,
        }
    }

    /// Stores the program image that new colonies are installed with.
    pub fn load_wasm(&mut self, wasm: Vec<u8>) -> (stored: bool)
        ensures
            stored,
            final(self).wasm_store == wasm,
            final(self).colony == old(self).colony,
            final(self).player == old(self).player,
            final(self).expeditions == old(self).expeditions,
            final(self).expeditions_count == old(self).expeditions_count,
            final(self).remote_colonies == old(self).remote_colonies,
    {
        self.wasm_store = wasm;
        true
    }

    /// The checksum of the stored program image.
    pub fn wasm_sha256(&self) -> (hex: String)
        ensures
            hex@ == sha256_hex(self.wasm_store@),
    {
        checksum(&self.wasm_store)
    }

    /// Why `who` cannot propose an expedition, if they cannot.
    pub open spec fn propose_error(&self, who: Principal) -> Option<WorldError> {
        if !self.player@.contains_key(who) {
            Some(WorldError::PlayerNotFound)
        } else if !covers(self.player@[who].inventory.contents@, recipe()) {
            Some(WorldError::InsufficientResources)
        } else {
            None
        }
    }

    /// `after` is this world once `who` has proposed an expedition at `now`:
    /// the recipe is taken from what `who` holds, and one expedition is
    /// filed under the id that the counter showed, with the recipe as its
    /// pool and `who` as its only member. Nothing else differs.
    pub open spec fn proposed(
        &self,
        after: &BusinessState,
        who: Principal,
        now: TimestampMillis,
    ) -> bool {
        let id = self.expeditions_count;
        let made = after.expeditions@[id];
        &&& after.player@ == self.player@.insert(who, after.player@[who])
        &&& after.player@[who].status == self.player@[who].status
        &&& after.player@[who].inventory.size == self.player@[who].inventory.size
        &&& after.player@[who].inventory.contents@ == subtracted(
            self.player@[who].inventory.contents@,
            recipe(),
        )
        &&& after.expeditions@ == self.expeditions@.insert(id, made)
        &&& made.id == id
        &&& made.step == ExpeditionStep::Proposed
        &&& made.proposed_by == who
        &&& made.proposed_at == now
        &&& made.resources_required@ == recipe()
        &&& made.resources_pool.size == 0
        &&& made.resources_pool.contents@ == recipe()
        &&& made.members@ == seq![who]
        &&& after.expeditions_count == id + 1
        &&& after.colony == self.colony
        &&& after.remote_colonies == self.remote_colonies
        &&& after.wasm_store == self.wasm_store
    }

    /// If the proposal of `who` is not refused, the counter of expeditions
    /// has room for it.
    pub open spec fn propose_in_range(&self, who: Principal) -> bool {
        self.propose_error(who) is None ==> self.expeditions_count < u64::MAX
    }

    /// Why `principal` cannot propose an expedition, if they cannot.
    fn propose_refusal(&self, principal: Principal) -> (why: Option<WorldError>)
        ensures
            why == self.propose_error(principal),
    {
        match self.player.get(&principal) {
            Some(p) => {
                if p.inventory.has_available_resources(&expedition_recipe()) {
                    None
                } else {
                    Some(WorldError::InsufficientResources)
                }
            },
            None => Some(WorldError::PlayerNotFound),
        }
    }

    /// Whether `propose_expedition` may be called for `principal`.
    pub fn can_propose(&self, principal: Principal) -> (in_range: bool)
        ensures
            in_range == self.propose_in_range(principal),
    {
        self.expeditions_count < u64::MAX || self.propose_refusal(principal).is_some()
    }

    /// What `propose_expedition` did, from the world before it to the world
    /// after it.
    pub open spec fn propose_outcome(
        &self,
        after: &BusinessState,
        who: Principal,
        now: TimestampMillis,
        done: Result<(), WorldError>,
    ) -> bool {
        match done {
            Ok(()) => self.propose_error(who) is None && self.proposed(after, who, now),
            Err(e) => self.propose_error(who) == Some(e) && *after == *self,
        }
    }

    /// Proposes an expedition in the name of `principal`. The proposer pays
    /// the recipe, which becomes the expedition's pool, and is its first
    /// member. Either all of this happens or nothing does.
    pub fn propose_expedition(&mut self, principal: Principal, now: TimestampMillis) -> (done:
        Result<(), WorldError>)
        requires
            old(self).propose_in_range(principal),
        ensures
            old(self).propose_outcome(final(self), principal, now, done),
            old(self).wf() ==> final(self).wf(),
            old(self).wf() && done is Ok ==> {
                &&& !old(self).expeditions@.contains_key(old(self).expeditions_count)
                &&& final(self).expeditions@.len() == old(self).expeditions@.len() + 1
                &&& old(self).expeditions_continue(final(self))
            },
    {
        broadcast use vstd::std_specs::hash::group_hash_axioms;

        if let Some(why) = self.propose_refusal(principal) {
            return Err(why);
        }
        let requirements = expedition_recipe();
        match self.player.get_mut(&principal) {
            Some(p) => {
                p.inventory.subtract_resources(&requirements);
            },
            None => {},
        }
        let id = self.expeditions_count;
        let mut members: Vec<Principal> = Vec::new();
        members.push(principal);
        let made = ExpeditionState {
            id,
            step: ExpeditionStep::Proposed,
            proposed_by: principal,
            proposed_at: now,
            resources_required: requirements.clone(),
            resources_pool: Inventory { size: 0, contents: requirements },
            members,
        };
        proof {
            assert(made.members@ =~= seq![principal]);
            assert(made.members@[0] == principal);
            assert(made.wf());
        }
        self.expeditions.insert(id, made);
        self.expeditions_count = id + 1;
        Ok(())
    }

    /// Why `who` cannot join the expedition `id`, if they cannot. The reasons
    /// are looked for in this order: the expedition is unknown; it is done,
    /// whoever asks; `who` is a member already; `who` is no player; `who`
    /// holds too little.
    pub open spec fn join_error(&self, who: Principal, id: u64) -> Option<WorldError> {
        if !self.expeditions@.contains_key(id) {
            Some(WorldError::ExpeditionNotFound)
        } else if self.expeditions@[id].step is Done {
            Some(WorldError::ExpeditionDone)
        } else if self.expeditions@[id].members@.contains(who) {
            Some(WorldError::AlreadyMember)
        } else if !self.player@.contains_key(who) {
            Some(WorldError::PlayerNotFound)
        } else if !covers(
            self.player@[who].inventory.contents@,
            self.expeditions@[id].resources_required@,
        ) {
            Some(WorldError::InsufficientResources)
        } else {
            None
        }
    }

    /// `after` is this world once `who` has joined the expedition `id`: what
    /// the expedition requires is taken from what `who` holds and paid into
    /// the pool, and `who` is the expedition's last member. The payment
    /// fitted into the pool. Nothing else differs.
    pub open spec fn joined(&self, after: &BusinessState, who: Principal, id: u64) -> bool {
        let was = self.expeditions@[id];
        let is = after.expeditions@[id];
        &&& after.player@ == self.player@.insert(who, after.player@[who])
        &&& after.player@[who].status == self.player@[who].status
        &&& after.player@[who].inventory.size == self.player@[who].inventory.size
        &&& after.player@[who].inventory.contents@ == subtracted(
            self.player@[who].inventory.contents@,
            was.resources_required@,
        )
        &&& after.expeditions@ == self.expeditions@.insert(id, is)
        &&& is.id == was.id
        &&& is.step == was.step
        &&& is.proposed_by == was.proposed_by
        &&& is.proposed_at == was.proposed_at
        &&& is.resources_required@ == was.resources_required@
        &&& is.resources_pool.size == was.resources_pool.size
        &&& fits(was.resources_pool.contents@, was.resources_required@)
        &&& is.resources_pool.contents@ == added(
            was.resources_pool.contents@,
            was.resources_required@,
        )
        &&& is.members@ == was.members@.push(who)
        &&& after.expeditions_count == self.expeditions_count
        &&& after.colony == self.colony
        &&& after.remote_colonies == self.remote_colonies
        &&& after.wasm_store == self.wasm_store
    }

    /// If the join of `who` is not refused, the pool of the expedition `id`
    /// has room for the payment.
    pub open spec fn join_in_range(&self, who: Principal, id: u64) -> bool {
        self.join_error(who, id) is None ==> fits(
            self.expeditions@[id].resources_pool.contents@,
            self.expeditions@[id].resources_required@,
        )
    }

    /// Why `principal` cannot join the expedition `expedition_id`, if they
    /// cannot.
    fn join_refusal(&self, principal: &Principal, expedition_id: u64) -> (why: Option<WorldError>)
        ensures
            why == self.join_error(*principal, expedition_id),
    {
        broadcast use vstd::std_specs::hash::group_hash_axioms;

        match self.expeditions.get(&expedition_id) {
            Some(entry) => {
                if let ExpeditionStep::Done = entry.step {
                    return Some(WorldError::ExpeditionDone);
                }
                if contains_principal(&entry.members, principal) {
                    return Some(WorldError::AlreadyMember);
                }
                match self.player.get(principal) {
                    Some(p) => {
                        if p.inventory.has_available_resources(&entry.resources_required) {
                            None
                        } else {
                            Some(WorldError::InsufficientResources)
                        }
                    },
                    None => Some(WorldError::PlayerNotFound),
                }
            },
            None => Some(WorldError::ExpeditionNotFound),
        }
    }

    /// Whether `join_expedition` may be called for `principal` and the
    /// expedition `expedition_id`.
    pub fn can_join(&self, principal: &Principal, expedition_id: u64) -> (in_range: bool)
        ensures
            in_range == self.join_in_range(*principal, expedition_id),
    {
        broadcast use vstd::std_specs::hash::group_hash_axioms;

        if self.join_refusal(principal, expedition_id).is_some() {
            return true;
        }
        match self.expeditions.get(&expedition_id) {
            Some(entry) => entry.resources_pool.can_hold(&entry.resources_required),
            None => true,
        }
    }

    /// What `join_expedition` did, from the world before it to the world
    /// after it.
    pub open spec fn join_outcome(
        &self,
        after: &BusinessState,
        who: Principal,
        id: u64,
        done: Result<(), WorldError>,
    ) -> bool {
        match done {
            Ok(()) => self.join_error(who, id) is None && self.joined(after, who, id),
            Err(e) => self.join_error(who, id) == Some(e) && *after == *self,
        }
    }

    /// Lets `principal` join the expedition `expedition_id`. The new member
    /// pays what the expedition requires into its pool. Either the payment
    /// leaves the member, reaches the pool and the member is listed, or
    /// nothing happens. An expedition that is done takes no member.
    pub fn join_expedition(&mut self, principal: &Principal, expedition_id: u64) -> (done: Result<
        (),
        WorldError,
    >)
        requires
            old(self).join_in_range(*principal, expedition_id),
        ensures
            old(self).join_outcome(final(self), *principal, expedition_id, done),
            old(self).wf() ==> final(self).wf(),
            old(self).expeditions_continue(final(self)),
    {
        broadcast use vstd::std_specs::hash::group_hash_axioms;

        if let Some(why) = self.join_refusal(principal, expedition_id) {
            return Err(why);
        }
        let ghost was = self.expeditions@[expedition_id];
        match self.expeditions.remove(&expedition_id) {
            Some(entry) => {
                let mut entry = entry;
                let requirements = entry.resources_required.clone();
                match self.player.get_mut(principal) {
                    Some(p) => {
                        p.inventory.subtract_resources(&requirements);
                    },
                    None => {},
                }
                let _ = entry.add_resources(&requirements);
                entry.members.push(*principal);
                proof {
                    if was.members@.contains(was.proposed_by) {
                        let j = was.members@.index_of(was.proposed_by);
                        assert(entry.members@[j] == was.proposed_by);
                    }
                }
                self.expeditions.insert(expedition_id, entry);
                proof {
                    assert(self.expeditions@ =~= old(self).expeditions@.insert(
                        expedition_id,
                        self.expeditions@[expedition_id],
                    ));
                }
            },
            None => {},
        }
        Ok(())
    }

    /// Every expedition of this world is in `after` too, as the same
    /// expedition at the same step or at the next.
    pub open spec fn expeditions_continue(&self, after: &BusinessState) -> bool {
        forall|id: u64| #[trigger]
            self.expeditions@.contains_key(id) ==> after.expeditions@.contains_key(id)
                && self.expeditions@[id].continues(&after.expeditions@[id])
    }

    /// Why the expedition `id` cannot take its next step, if it cannot.
    pub open spec fn advance_error(&self, id: u64) -> Option<WorldError> {
        if !self.expeditions@.contains_key(id) {
            Some(WorldError::ExpeditionNotFound)
        } else {
            match self.expeditions@[id].step {
                ExpeditionStep::Proposed => if self.expeditions@[id].spec_has_enough_resources() {
                    None
                } else {
                    Some(WorldError::ThresholdNotMet)
                },
                ExpeditionStep::Ready => None,
                ExpeditionStep::Starting(_) => Some(WorldError::SpawnPending),
                ExpeditionStep::Started(_) => None,
                ExpeditionStep::Done => Some(WorldError::ExpeditionDone),
            }
        }
    }

    /// The step that `expedition_next` takes from `step` at `now`.
    pub open spec fn next_step(step: ExpeditionStep, now: TimestampMillis) -> ExpeditionStep {
        match step {
            ExpeditionStep::Proposed => ExpeditionStep::Ready,
            ExpeditionStep::Ready => ExpeditionStep::Starting(now),
            ExpeditionStep::Started(_) => ExpeditionStep::Done,
            other => other,
        }
    }

    /// `after` is this world once the expedition `id` has taken its next
    /// step at `now`, with `action` left to the caller. The step from
    /// `Ready` leaves a colony to spawn; the step from `Started` puts the
    /// new colony on record. Nothing else differs.
    pub open spec fn advanced(
        &self,
        after: &BusinessState,
        id: u64,
        now: TimestampMillis,
        action: ExpeditionAction,
    ) -> bool {
        let was = self.expeditions@[id];
        &&& after.expeditions@ == self.expeditions@.insert(
            id,
            ExpeditionState { step: Self::next_step(was.step, now), ..was },
        )
        &&& after.remote_colonies@ == match was.step {
            ExpeditionStep::Started(colony) => self.remote_colonies@.push(colony),
            _ => self.remote_colonies@,
        }
        &&& match action {
            ExpeditionAction::Nothing => !(was.step is Ready),
            ExpeditionAction::SpawnColony(colony) => was.step is Ready && was.founds(&colony),
        }
        &&& after.colony == self.colony
        &&& after.player == self.player
        &&& after.expeditions_count == self.expeditions_count
        &&& after.wasm_store == self.wasm_store
    }

    /// Lets the expedition `expedition_id` take its next step.
    ///
    /// From `Proposed` it becomes `Ready` if its pool has reached the
    /// threshold. From `Ready` it becomes `Starting(now)`, and the caller is
    /// told to spawn the colony: the step is taken before anybody is asked
    /// for a new world, so that nobody is asked twice. From `Started` the
    /// new colony is put on record and the expedition is `Done`. An
    /// expedition that is `Starting` waits for `expedition_started`, and one
    /// that is `Done` stays as it is.
    pub fn expedition_next(&mut self, expedition_id: u64, now: TimestampMillis) -> (done: Result<
        ExpeditionAction,
        WorldError,
    >)
        ensures
            match done {
                Ok(action) => {
                    &&& old(self).advance_error(expedition_id) is None
                    &&& old(self).advanced(final(self), expedition_id, now, action)
                },
                Err(e) => {
                    &&& old(self).advance_error(expedition_id) == Some(e)
                    &&& *final(self) == *old(self)
                },
            },
            old(self).wf() ==> final(self).wf(),
            old(self).expeditions_continue(final(self)),
    {
        broadcast use vstd::std_specs::hash::group_hash_axioms;

        let (next, action) = match self.expeditions.get(&expedition_id) {
            Some(entry) => match entry.step {
                ExpeditionStep::Proposed => {
                    if !entry.has_enough_resources() {
                        return Err(WorldError::ThresholdNotMet);
                    }
                    (ExpeditionStep::Ready, ExpeditionAction::Nothing)
                },
                ExpeditionStep::Ready => (
                    ExpeditionStep::Starting(now),
                    ExpeditionAction::SpawnColony(entry.colony_settings()),
                ),
                ExpeditionStep::Starting(_) => {
                    return Err(WorldError::SpawnPending);
                },
                ExpeditionStep::Started(colony) => {
                    self.remote_colonies.push(colony);
                    (ExpeditionStep::Done, ExpeditionAction::Nothing)
                },
                ExpeditionStep::Done => {
                    return Err(WorldError::ExpeditionDone);
                },
            },
            None => {
                return Err(WorldError::ExpeditionNotFound);
            },
        };
        match self.expeditions.remove(&expedition_id) {
            Some(entry) => {
                let mut entry = entry;
                entry.step = next;
                self.expeditions.insert(expedition_id, entry);
            },
            None => {},
        }
        proof {
            let was = old(self).expeditions@[expedition_id];
            assert(self.expeditions@ =~= old(self).expeditions@.insert(
                expedition_id,
                ExpeditionState { step: next, ..was },
            ));
            assert(was.members@.is_prefix_of(was.members@));
        }
        Ok(action)
    }

    /// Why the expedition `id` cannot be marked as started, if it cannot.
    pub open spec fn started_error(&self, id: u64, colony: Principal) -> Option<WorldError> {
        if !self.expeditions@.contains_key(id) {
            Some(WorldError::ExpeditionNotFound)
        } else {
            match self.expeditions@[id].step_outcome(ExpeditionStep::Started(colony)) {
                Ok(_) => None,
                Err(e) => Some(e),
            }
        }
    }

    /// Takes note that the colony of the expedition `expedition_id` exists
    /// under the identity `colony`: the expedition goes from `Starting` to
    /// `Started(colony)`. At any other step the expedition stays as it is.
    pub fn expedition_started(&mut self, expedition_id: u64, colony: Principal) -> (done: Result<
        (),
        WorldError,
    >)
        ensures
            match done {
                Ok(()) => {
                    let was = old(self).expeditions@[expedition_id];
                    &&& old(self).started_error(expedition_id, colony) is None
                    &&& was.step is Starting
                    &&& final(self).expeditions@ == old(self).expeditions@.insert(
                        expedition_id,
                        ExpeditionState { step: ExpeditionStep::Started(colony), ..was },
                    )
                    &&& final(self).colony == old(self).colony
                    &&& final(self).player == old(self).player
                    &&& final(self).expeditions_count == old(self).expeditions_count
                    &&& final(self).remote_colonies == old(self).remote_colonies
                    &&& final(self).wasm_store == old(self).wasm_store
                },
                Err(e) => {
                    &&& old(self).started_error(expedition_id, colony) == Some(e)
                    &&& *final(self) == *old(self)
                },
            },
            old(self).wf() ==> final(self).wf(),
            old(self).expeditions_continue(final(self)),
    {
        broadcast use vstd::std_specs::hash::group_hash_axioms;

        match self.expeditions.get(&expedition_id) {
            Some(entry) => match entry.step {
                ExpeditionStep::Starting(_) => {},
                ExpeditionStep::Done => {
                    return Err(WorldError::ExpeditionDone);
                },
                _ => {
                    return Err(WorldError::IllegalStep);
                },
            },
            None => {
                return Err(WorldError::ExpeditionNotFound);
            },
        }
        match self.expeditions.remove(&expedition_id) {
            Some(entry) => {
                let mut entry = entry;
                entry.step = ExpeditionStep::Started(colony);
                self.expeditions.insert(expedition_id, entry);
            },
            None => {},
        }
        proof {
            let was = old(self).expeditions@[expedition_id];
            assert(self.expeditions@ =~= old(self).expeditions@.insert(
                expedition_id,
                ExpeditionState { step: ExpeditionStep::Started(colony), ..was },
            ));
            assert(was.members@.is_prefix_of(was.members@));
        }
        Ok(())
    }

    /// Whether the demonstration pays into the expedition filed under `id`:
    /// there is one, its id is below the counter, and it is not done.
    pub open spec fn demo_pays(&self, id: u64) -> bool {
        &&& self.expeditions@.contains_key(id)
        &&& id < self.expeditions_count
        &&& !(self.expeditions@[id].step is Done)
    }

    /// Every pool that the demonstration pays into has room for the payment.
    pub open spec fn demo_in_range(&self) -> bool {
        forall|id: u64| #[trigger]
            self.demo_pays(id) ==> fits(
                self.expeditions@[id].resources_pool.contents@,
                demo_amounts(),
            )
    }

    /// Pays a thousand units each of wood, stone, food and water into the
    /// pool of every expedition whose id is below the counter and which is
    /// not done, for demonstrations. An expedition that is done is passed
    /// over and stays as it is. This never fails.
    pub fn demo_add_res(&mut self) -> (done: Result<(), WorldError>)
        requires
            old(self).demo_in_range(),
        ensures
            done is Ok,
            final(self).expeditions@.dom() == old(self).expeditions@.dom(),
            forall|id: u64| #[trigger]
                old(self).expeditions@.contains_key(id) ==> if old(self).demo_pays(id) {
                    old(self).expeditions@[id].funded(&final(self).expeditions@[id], demo_amounts())
                } else {
                    final(self).expeditions@[id] == old(self).expeditions@[id]
                },
            final(self).colony == old(self).colony,
            final(self).player == old(self).player,
            final(self).expeditions_count == old(self).expeditions_count,
            final(self).remote_colonies == old(self).remote_colonies,
            final(self).wasm_store == old(self).wasm_store,
            old(self).wf() ==> final(self).wf(),
            old(self).expeditions_continue(final(self)),
    {
        broadcast use vstd::std_specs::hash::group_hash_axioms;

        let count = self.expeditions_count;
        let amounts = demo_resources();
        let mut next: u64 = 0;
        while next < count
            invariant
                next <= count,
                count == old(self).expeditions_count,
                amounts@ == demo_amounts(),
                self.expeditions@.dom() == old(self).expeditions@.dom(),
                old(self).demo_in_range(),
                forall|id: u64| #[trigger]
                    old(self).expeditions@.contains_key(id) ==> if id < next && old(
                        self,
                    ).demo_pays(id) {
                        old(self).expeditions@[id].funded(&self.expeditions@[id], demo_amounts())
                    } else {
                        self.expeditions@[id] == old(self).expeditions@[id]
                    },
                self.colony == old(self).colony,
                self.player == old(self).player,
                self.expeditions_count == old(self).expeditions_count,
                self.remote_colonies == old(self).remote_colonies,
                self.wasm_store == old(self).wasm_store,
            decreases count - next,
        {
            let ghost before = self.expeditions@;
            let pays = match self.expeditions.get(&next) {
                Some(entry) => match entry.step {
                    ExpeditionStep::Done => false,
                    _ => true,
                },
                None => false,
            };
            if pays {
                assert(old(self).demo_pays(next));
                match self.expeditions.remove(&next) {
                    Some(entry) => {
                        let mut entry = entry;
                        let _ = entry.add_resources(&amounts);
                        self.expeditions.insert(next, entry);
                        assert(self.expeditions@.dom() =~= before.dom());
                    },
                    None => {},
                }
            }
            next += 1;
        }
        proof {
            assert forall|id: u64| #[trigger]
                old(self).expeditions@.contains_key(id) implies self.expeditions@.contains_key(id)
                && old(self).expeditions@[id].continues(&self.expeditions@[id]) by {
                let was = old(self).expeditions@[id];
                assert(was.members@.is_prefix_of(was.members@));
            }
        }
        Ok(())
    }
}

} // verus!
