//! Resource kinds and the arithmetic of resource amounts.
//!
//! Amounts are modelled as finite maps from a resource to a quantity. A
//! resource that a map does not mention counts as a quantity of zero.

use crate::vec_map::lemma_listed;
use crate::vec_map::MapKey;
use crate::vec_map::VecMap;
use vstd::prelude::*;

verus! {

/// The kinds of resource that a world knows.
#[derive(Clone, Copy, Debug, PartialEq, Eq, Structural, Hash, PartialOrd, Ord)]
pub enum Resources {
    Wood,
    Stone,
    /// Meant for colonies that descend from another one.
    Gold,
    Food,
    Water,
}

impl MapKey for Resources {
    fn same_key(&self, other: &Self) -> (same: bool) {
        *self == *other
    }
}

/// Quantities of resources, by kind.
pub type Amounts = VecMap<Resources, u64>;

/// The quantity of `r` in `held`: zero where `held` does not mention `r`.
pub open spec fn quantity(held: Map<Resources, u64>, r: Resources) -> u64 {
    if held.contains_key(r) {
        held[r]
    } else {
        0
    }
}

/// `held` has at least the quantity that `required` lists, for every resource
/// that `required` lists.
pub open spec fn covers(held: Map<Resources, u64>, required: Map<Resources, u64>) -> bool {
    forall|r: Resources| #[trigger] required.contains_key(r) ==> required[r] <= quantity(held, r)
}

/// `held` after each resource that it mentions has been lowered by what
/// `required` lists for it. Resources that `held` does not mention stay
/// unmentioned.
pub open spec fn subtracted(held: Map<Resources, u64>, required: Map<Resources, u64>) -> Map<
    Resources,
    u64,
> {
    Map::new(
        |r: Resources| held.contains_key(r),
        |r: Resources| (held[r] - quantity(required, r)) as u64,
    )
}

/// `held` after each resource that `amounts` lists has been raised by the
/// listed quantity. A resource that only `amounts` mentions is mentioned
/// afterwards.
pub open spec fn added(held: Map<Resources, u64>, amounts: Map<Resources, u64>) -> Map<
    Resources,
    u64,
> {
    Map::new(
        |r: Resources| held.contains_key(r) || amounts.contains_key(r),
        |r: Resources| (quantity(held, r) + quantity(amounts, r)) as u64,
    )
}

/// Raising `held` by `amounts` stays within what a quantity can hold.
pub open spec fn fits(held: Map<Resources, u64>, amounts: Map<Resources, u64>) -> bool {
    forall|r: Resources| #[trigger]
        amounts.contains_key(r) ==> quantity(held, r) + amounts[r] <= u64::MAX
}

/// The order of the resources in an inventory that listed `held_keys` and
/// held `held`, once the resources in `listed` have been entered one after the
/// other: a resource that was not held is placed after all the others.
pub open spec fn entered(
    held_keys: Seq<Resources>,
    held: Map<Resources, u64>,
    listed: Seq<Resources>,
) -> Seq<Resources>
    decreases listed.len(),
{
    if listed.len() == 0 {
        held_keys
    } else if held.contains_key(listed.last()) {
        entered(held_keys, held, listed.drop_last())
    } else {
        entered(held_keys, held, listed.drop_last()).push(listed.last())
    }
}

/// Whether `r` is among the first `n` of `keys`.
pub open spec fn among_first<K>(keys: Seq<K>, n: int, r: K) -> bool {
    exists|j: int| 0 <= j < n && j < keys.len() && keys[j] == r
}

/// Looking at one more key of a list without repetitions adds that key to
/// those seen, and no other; the key was not seen before.
pub proof fn lemma_among_first_next<K>(keys: Seq<K>, n: int)
    requires
        keys.no_duplicates(),
        0 <= n < keys.len(),
    ensures
        !among_first(keys, n, keys[n]),
        forall|other: K|
            among_first(keys, n + 1, other) <==> among_first(keys, n, other) || keys[n] == other,
{
    if among_first(keys, n, keys[n]) {
        let j = choose|j: int| 0 <= j < n && j < keys.len() && keys[j] == keys[n];
        assert(keys[j] == keys[n]);
    }
    assert forall|other: K|
        among_first(keys, n + 1, other) <==> among_first(keys, n, other) || keys[n] == other by {
        if among_first(keys, n + 1, other) {
            let j = choose|j: int| 0 <= j < n + 1 && j < keys.len() && keys[j] == other;
            if j < n {
                assert(among_first(keys, n, other));
            }
        }
        if among_first(keys, n, other) {
            let j = choose|j: int| 0 <= j < n && j < keys.len() && keys[j] == other;
            assert(0 <= j < n + 1 && j < keys.len() && keys[j] == other);
        }
        if keys[n] == other {
            assert(0 <= n < n + 1 && n < keys.len() && keys[n] == other);
        }
    }
}

/// Once every key of a list has been looked at, the keys seen are the members
/// of the set that the list stands for.
pub proof fn lemma_among_all<K>(keys: Seq<K>)
    ensures
        forall|k: K| among_first(keys, keys.len() as int, k) <==> keys.to_set().contains(k),
{
    assert forall|k: K| among_first(keys, keys.len() as int, k) <==> keys.to_set().contains(
        k,
    ) by {
        if keys.to_set().contains(k) {
            let j = lemma_listed(keys, k);
            assert(0 <= j < keys.len() && j < keys.len() && keys[j] == k);
        }
        if among_first(keys, keys.len() as int, k) {
            let j = choose|j: int| 0 <= j < keys.len() && j < keys.len() && keys[j] == k;
            assert(keys.contains(k));
        }
    }
}

} // verus!
