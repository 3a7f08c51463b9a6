//! The economy of a colony: its rates, its tax and its till.

use crate::inventory::Inventory;
use crate::resources::Amounts;
use crate::resources::Resources;
use crate::vec_map::VecMap;
use vstd::prelude::*;

verus! {

/// The configuration of a colony and the till that its taxes go to.
///
/// A colony is configured once, when its world is made. Nothing here changes
/// a rate afterwards.
#[derive(Debug)]
pub struct ColonyState {
    /// Zero for a first colony, one more for a colony that an expedition of
    /// another colony founded.
    pub generation: u8,
    /// The share of each resource, in percent, that a traveler leaves at the
    /// border when they enter the colony.
    pub taxes_percent: u8,
    /// A factor meant to scale rewards. No reward is scaled by it.
    pub global_resources_multiplier: u16,
    /// What a second of work earns, for each resource that work earns.
    pub rewards_per_second: VecMap<Resources, u8>,
    /// The till. Nothing is paid into it.
    pub coffers: Inventory,
}

/// What is left of `value` once `percent` hundredths of it, rounded down, are
/// taken away.
pub open spec fn after_tax(value: u64, percent: u8) -> int {
    value - (value * percent) / 100
}

/// `held` with every quantity taxed at `percent`.
pub open spec fn taxed(held: Map<Resources, u64>, percent: u8) -> Map<Resources, u64> {
    Map::new(|r: Resources| held.contains_key(r), |r: Resources| after_tax(held[r], percent) as u64)
}

/// What `seconds` seconds of work earn at the given rates.
pub open spec fn rewards(rates: Map<Resources, u8>, seconds: u64) -> Map<Resources, u64> {
    Map::new(|r: Resources| rates.contains_key(r), |r: Resources| (rates[r] * seconds) as u64)
}

/// What is left of `value` after a tax of `percent` hundredths.
pub fn tax_value(value: u64, percent: u8) -> (left: u64)
    requires
        percent <= 100,
    ensures
        left == after_tax(value, percent),
        left <= value,
{
    assert(value * percent <= value * 100) by (nonlinear_arith)
        requires
            percent <= 100,
    ;
    let product: u128 = value as u128 * percent as u128;
    let tax: u128 = product / 100;
    value - tax as u64
}

impl Default for ColonyState {
    /// A first colony: a tax of ten percent, and ten units of wood, stone,
    /// food and water for each second of work.
    fn default() -> (colony: Self)
        ensures
            colony.generation == 0,
            colony.taxes_percent == 10,
            colony.global_resources_multiplier == 1,
            colony.rewards_per_second@ == Map::<Resources, u8>::empty().insert(
                Resources::Wood,
                10,
            ).insert(Resources::Stone, 10).insert(Resources::Food, 10).insert(Resources::Water, 10),
            colony.rewards_per_second.spec_keys() == seq![
                Resources::Wood,
                Resources::Stone,
                Resources::Food,
                Resources::Water,
            ],
            colony.coffers.size == 0,
            colony.coffers.contents@ == Map::<Resources, u64>::empty(),
    {
        let mut rates: VecMap<Resources, u8> = VecMap::new();
        rates.insert(Resources::Wood, 10);
        rates.insert(Resources::Stone, 10);
        rates.insert(Resources::Food, 10);
        rates.insert(Resources::Water, 10);
        ColonyState {
            generation: 0,
            taxes_percent: 10,
            global_resources_multiplier: 1,
            rewards_per_second: rates,
            coffers: Inventory::default(),
        }
    }
}

impl ColonyState {
    /// What `seconds` seconds of work earn, as a list: one pair for each
    /// resource that has a rate, in the order in which the rates were
    /// entered.
    pub open spec fn earnings(&self, seconds: u64) -> Seq<(Resources, u64)> {
        Seq::new(
            self.rewards_per_second.spec_keys().len(),
            |i: int|
                (
                    self.rewards_per_second.spec_keys()[i],
                    (self.rewards_per_second@[self.rewards_per_second.spec_keys()[i]]
                        * seconds) as u64,
                ),
        )
    }

    /// The inventory that a traveler keeps when they enter the colony with
    /// `inventory`: every quantity is taxed at the colony's rate.
    pub fn apply_tax(&self, inventory: &Inventory) -> (kept: Inventory)
        requires
            self.taxes_percent <= 100,
        ensures
            kept.size == 0,
            kept.contents@ == taxed(inventory.contents@, self.taxes_percent),
            kept.contents.spec_keys() == inventory.contents.spec_keys(),
    {
        let n = inventory.contents.len();
        let ghost keys = inventory.contents.spec_keys();
        let mut kept: Amounts = VecMap::new();
        let mut i: usize = 0;
        while i < n
            invariant
                i <= n,
                n == keys.len(),
                keys == inventory.contents.spec_keys(),
                keys.no_duplicates(),
                inventory.contents@.dom() == keys.to_set(),
                self.taxes_percent <= 100,
                kept.spec_keys() == keys.take(i as int),
                kept@.dom() == keys.take(i as int).to_set(),
                forall|r: Resources| #[trigger]
                    kept@.contains_key(r) ==> inventory.contents@.contains_key(r) && kept@[r]
                        == after_tax(inventory.contents@[r], self.taxes_percent),
            decreases n - i,
        {
            let (r, q) = inventory.contents.entry_at(i);
            proof {
                assert(keys.take(i + 1) =~= keys.take(i as int).push(keys[i as int]));
                if keys.take(i as int).contains(r) {
                    let j = keys.take(i as int).index_of(r);
                    assert(keys[j] == keys[i as int]);
                }
                keys.take(i as int).lemma_push_to_set_commute(r);
            }
            kept.insert(r, tax_value(*q, self.taxes_percent));
            i += 1;
        }
        proof {
            assert(keys.take(n as int) =~= keys);
            assert(kept@ =~= taxed(inventory.contents@, self.taxes_percent));
        }
        Inventory { size: 0, contents: kept }
    }
}

} // verus!
