//! The resource ledger of a player, of an expedition or of a colony.

use crate::resources::added;
use crate::resources::among_first;
use crate::resources::covers;
use crate::resources::entered;
use crate::resources::fits;
use crate::resources::lemma_among_all;
use crate::resources::lemma_among_first_next;
use crate::resources::quantity;
use crate::resources::subtracted;
use crate::resources::Amounts;
use crate::resources::Resources;
use crate::vec_map::lemma_listed;
use crate::vec_map::VecMap;
use vstd::prelude::*;

verus! {

/// Quantities of resources that someone holds.
///
/// `size` is a capacity hint. No operation enforces it.
#[derive(Debug)]
pub struct Inventory {
    pub size: u32,
    pub contents: Amounts,
}

impl Default for Inventory {
    fn default() -> (empty: Self)
        ensures
            empty.size == 0,
            empty.contents@ == Map::<Resources, u64>::empty(),
    {
        Inventory { size: 0, contents: VecMap::new() }
    }
}

impl Clone for Inventory {
    fn clone(&self) -> (copy: Self)
        ensures
            copy.size == self.size,
            copy.contents@ == self.contents@,
            copy.contents.spec_keys() == self.contents.spec_keys(),
    {
        Inventory { size: self.size, contents: self.contents.clone() }
    }
}

impl Inventory {
    /// Whether the inventory holds at least what `required` lists.
    pub fn has_available_resources(&self, required: &Amounts) -> (enough: bool)
        ensures
            enough == covers(self.contents@, required@),
    {
        let n = required.len();
        let ghost keys = required.spec_keys();
        let mut i: usize = 0;
        while i < n
            invariant
                i <= n,
                n == keys.len(),
                keys == required.spec_keys(),
                required@.dom() == keys.to_set(),
                forall|j: int|
                    0 <= j < i ==> required@[#[trigger] keys[j]] <= quantity(
                        self.contents@,
                        keys[j],
                    ),
            decreases n - i,
        {
            let (r, wanted) = required.entry_at(i);
            if self.get(r) < *wanted {
                return false;
            }
            i += 1;
        }
        proof {
            assert forall|r: Resources| #[trigger] required@.contains_key(r) implies required@[r]
                <= quantity(self.contents@, r) by {
                let j = lemma_listed(keys, r);
            }
        }
        true
    }

    /// Lowers each resource that `required` lists by the listed quantity.
    ///
    /// The caller has checked before that the inventory holds that much. A
    /// listed resource that the inventory does not mention stays unmentioned.
    pub fn subtract_resources(&mut self, required: &Amounts)
        requires
            covers(old(self).contents@, required@),
        ensures
            final(self).contents@ == subtracted(old(self).contents@, required@),
            final(self).contents.spec_keys() == old(self).contents.spec_keys(),
            final(self).size == old(self).size,
    {
        let n = required.len();
        let ghost keys = required.spec_keys();
        let ghost before = self.contents@;
        let mut i: usize = 0;
        while i < n
            invariant
                i <= n,
                n == keys.len(),
                keys == required.spec_keys(),
                keys.no_duplicates(),
                required@.dom() == keys.to_set(),
                covers(before, required@),
                self.size == old(self).size,
                self.contents.spec_keys() == old(self).contents.spec_keys(),
                self.contents@.dom() == before.dom(),
                forall|r: Resources| #[trigger]
                    before.contains_key(r) ==> self.contents@[r] == if among_first(
                        keys,
                        i as int,
                        r,
                    ) {
                        (before[r] - required@[r]) as u64
                    } else {
                        before[r]
                    },
            decreases n - i,
        {
            let (r, taken) = required.entry_at(i);
            proof {
                lemma_among_first_next(keys, i as int);
            }
            match self.contents.get_mut(&r) {
                Some(q) => {
                    *q = *q - *taken;
                },
                None => {},
            }
            assert(self.contents@.dom() =~= before.dom());
            i += 1;
        }
        proof {
            lemma_among_all(keys);
            assert(self.contents@ =~= subtracted(before, required@));
        }
    }

    /// Whether every quantity stays within what a quantity can hold when
    /// `amounts` are added. Where it does, `add_resources` may be called.
    pub fn can_hold(&self, amounts: &Amounts) -> (room: bool)
        ensures
            room == fits(self.contents@, amounts@),
    {
        let n = amounts.len();
        let ghost keys = amounts.spec_keys();
        let mut i: usize = 0;
        while i < n
            invariant
                i <= n,
                n == keys.len(),
                keys == amounts.spec_keys(),
                amounts@.dom() == keys.to_set(),
                forall|j: int|
                    0 <= j < i ==> quantity(self.contents@, #[trigger] keys[j])
                        + amounts@[keys[j]] <= u64::MAX,
            decreases n - i,
        {
            let (r, given) = amounts.entry_at(i);
            if self.get(r) > u64::MAX - *given {
                return false;
            }
            i += 1;
        }
        proof {
            assert forall|r: Resources| #[trigger] amounts@.contains_key(r) implies quantity(
                self.contents@,
                r,
            ) + amounts@[r] <= u64::MAX by {
                let j = lemma_listed(keys, r);
            }
        }
        true
    }

    /// Raises each resource that `amounts` lists by the listed quantity. A
    /// listed resource that the inventory did not mention starts from zero.
    pub fn add_resources(&mut self, amounts: &Amounts)
        requires
            fits(old(self).contents@, amounts@),
        ensures
            final(self).contents@ == added(old(self).contents@, amounts@),
            final(self).contents.spec_keys() == entered(
                old(self).contents.spec_keys(),
                old(self).contents@,
                amounts.spec_keys(),
            ),
            final(self).size == old(self).size,
    {
        let n = amounts.len();
        let ghost keys = amounts.spec_keys();
        let ghost before = self.contents@;
        let ghost before_keys = self.contents.spec_keys();
        let mut i: usize = 0;
        while i < n
            invariant
                i <= n,
                n == keys.len(),
                keys == amounts.spec_keys(),
                keys.no_duplicates(),
                amounts@.dom() == keys.to_set(),
                fits(before, amounts@),
                self.size == old(self).size,
                self.contents.spec_keys() == entered(before_keys, before, keys.take(i as int)),
                forall|r: Resources|
                    #![trigger self.contents@.contains_key(r)]
                    self.contents@.contains_key(r) <==> before.contains_key(r) || among_first(
                        keys,
                        i as int,
                        r,
                    ),
                forall|r: Resources| #[trigger]
                    self.contents@.contains_key(r) ==> self.contents@[r] == if among_first(
                        keys,
                        i as int,
                        r,
                    ) {
                        (quantity(before, r) + amounts@[r]) as u64
                    } else {
                        before[r]
                    },
            decreases n - i,
        {
            let (r, given) = amounts.entry_at(i);
            proof {
                lemma_among_first_next(keys, i as int);
                assert(amounts@.contains_key(r));
                assert(keys.take(i + 1).drop_last() =~= keys.take(i as int));
            }
            let given = *given;
            match self.contents.get_mut(&r) {
                Some(q) => {
                    *q = *q + given;
                },
                None => {
                    self.contents.insert(r, given);
                },
            }
            i += 1;
        }
        proof {
            lemma_among_all(keys);
            assert(self.contents@ =~= added(before, amounts@));
            assert(keys.take(n as int) =~= keys);
        }
    }

    /// Every resource that the inventory mentions, with its quantity, in the
    /// order in which the resources were first entered.
    pub fn get_all(&self) -> (all: Vec<(Resources, u64)>)
        ensures
            all@.len() == self.contents.spec_keys().len(),
            forall|i: int|
                0 <= i < all@.len() ==> {
                    &&& (#[trigger] all@[i]).0 == self.contents.spec_keys()[i]
                    &&& self.contents@.contains_key(all@[i].0)
                    &&& all@[i].1 == self.contents@[all@[i].0]
                },
            all@.len() == self.contents@.len(),
            forall|r: Resources| #[trigger]
                self.contents@.contains_key(r) ==> all@.contains((r, self.contents@[r])),
    {
        let n = self.contents.len();
        let ghost keys = self.contents.spec_keys();
        let mut all: Vec<(Resources, u64)> = Vec::new();
        let mut i: usize = 0;
        while i < n
            invariant
                i <= n,
                n == keys.len(),
                keys == self.contents.spec_keys(),
                all@.len() == i,
                forall|j: int|
                    0 <= j < i ==> {
                        &&& (#[trigger] all@[j]).0 == keys[j]
                        &&& self.contents@.contains_key(all@[j].0)
                        &&& all@[j].1 == self.contents@[all@[j].0]
                    },
            decreases n - i,
        {
            let (r, q) = self.contents.entry_at(i);
            all.push((r, *q));
            i += 1;
        }
        proof {
            assert forall|r: Resources| #[trigger]
                self.contents@.contains_key(r) implies all@.contains((r, self.contents@[r])) by {
                let j = lemma_listed(keys, r);
                assert(all@[j] == (r, self.contents@[r]));
            }
        }
        all
    }

    /// The quantity held of `res`, zero where the inventory does not mention
    /// it.
    pub fn get(&self, res: Resources) -> (held: u64)
        ensures
            held == quantity(self.contents@, res),
    {
        match self.contents.get(&res) {
            Some(q) => *q,
            None => 0,
        }
    }
}

} // verus!
