//! What holds of a world whatever happens to it.
//!
//! Each law is stated over the same relations as the contracts of the
//! operations, so that it holds of every state that the operations can reach.

use crate::colony::rewards;
use crate::error::ErrorKind;
use crate::error::WorldError;
use crate::expedition::ExpeditionStep;
use crate::player::elapsed_seconds;
use crate::resources::added;
use crate::resources::covers;
use crate::resources::fits;
use crate::resources::quantity;
use crate::resources::subtracted;
use crate::resources::Resources;
use crate::world::recipe;
use crate::world::BusinessState;
use crate::world::RECIPE_QUANTITY;
use candid::Principal;
use vstd::prelude::*;

verus! {

/// Taking `required` from an inventory that covers it, and putting the same
/// back, restores every quantity. The second step is always within range.
pub proof fn law_subtract_then_add_restores(
    held: Map<Resources, u64>,
    required: Map<Resources, u64>,
)
    requires
        covers(held, required),
    ensures
        fits(subtracted(held, required), required),
        forall|r: Resources|
            quantity(added(subtracted(held, required), required), r) == quantity(held, r),
{
    assert forall|r: Resources|
        quantity(added(subtracted(held, required), required), r) == quantity(held, r) by {
        if required.contains_key(r) {
            assert(required[r] <= quantity(held, r));
        }
    }
    assert forall|r: Resources| #[trigger] required.contains_key(r) implies quantity(
        subtracted(held, required),
        r,
    ) + required[r] <= u64::MAX by {
        assert(required[r] <= quantity(held, r));
    }
}

/// Where the inventory mentions every resource that `required` lists, taking
/// `required` and putting it back restores the inventory itself.
pub proof fn law_subtract_then_add_is_identity(
    held: Map<Resources, u64>,
    required: Map<Resources, u64>,
)
    requires
        covers(held, required),
        required.dom().subset_of(held.dom()),
    ensures
        added(subtracted(held, required), required) == held,
{
    assert forall|r: Resources| held.contains_key(r) implies added(
        subtracted(held, required),
        required,
    )[r] == held[r] by {
        if required.contains_key(r) {
            assert(required[r] <= quantity(held, r));
        }
    }
    assert forall|r: Resources| #[trigger] required.contains_key(r) implies held.contains_key(
        r,
    ) by {
        assert(required.dom().contains(r));
    }
    assert(added(subtracted(held, required), required) =~= held);
}

/// A claim pays exactly the rate times the whole seconds worked, for every
/// resource that has a rate, and nothing for any other resource.
pub proof fn law_claim_pays_rate_times_seconds(
    before: BusinessState,
    after: BusinessState,
    who: Principal,
    now: u64,
    r: Resources,
)
    requires
        before.player@.contains_key(who),
        before.player@[who].status.spec_working_since() is Some,
        before.claimed(&after, who, now),
    ensures
        ({
            let since = before.player@[who].status.spec_working_since()->0;
            let rates = before.colony.rewards_per_second@;
            let paid = quantity(after.player@[who].inventory.contents@, r) - quantity(
                before.player@[who].inventory.contents@,
                r,
            );
            paid == if rates.contains_key(r) {
                rates[r] * elapsed_seconds(since, now)
            } else {
                0
            }
        }),
{
    let since = before.player@[who].status.spec_working_since()->0;
    let rates = before.colony.rewards_per_second@;
    let seconds = elapsed_seconds(since, now);
    if rates.contains_key(r) {
        let rate = rates[r];
        assert(rate * seconds <= 255 * seconds) by (nonlinear_arith)
            requires
                rate <= 255,
                seconds >= 0,
        ;
        assert(rewards(rates, seconds as u64).contains_key(r));
    }
}

/// A player who has claimed is idle, so a second claim without a new start
/// fails, and the failure is of the kind `InvalidState`.
pub proof fn law_second_claim_fails(
    before: BusinessState,
    after: BusinessState,
    who: Principal,
    now: u64,
)
    requires
        before.player@.contains_key(who),
        before.claimed(&after, who, now),
    ensures
        BusinessState::claim_outcome(after.record_of(who)) == Err::<(), WorldError>(
            WorldError::NotWorking,
        ),
        WorldError::NotWorking.spec_kind() == ErrorKind::InvalidState,
{
    assert(after.player@.contains_key(who));
}

/// A proposal is all or nothing. Where it succeeds, sixty units each of
/// wood, stone, food and water leave the proposer and nothing else does;
/// one expedition is filed under the id that the counter showed, at the step
/// `Proposed`, with the proposer as its only member and the recipe as its
/// requirement and its pool; the counter goes up by one; and, where that id
/// was free, every expedition of before is as it was and there is one more.
/// Where it fails, the world is as it was.
pub proof fn law_propose_all_or_nothing(
    before: BusinessState,
    after: BusinessState,
    who: Principal,
    now: u64,
    done: Result<(), WorldError>,
    r: Resources,
)
    requires
        before.propose_outcome(&after, who, now, done),
    ensures
        done is Err ==> after == before,
        done is Ok <==> before.player@.contains_key(who) && covers(
            before.player@[who].inventory.contents@,
            recipe(),
        ),
        done is Ok ==> {
            let id = before.expeditions_count;
            let made = after.expeditions@[id];
            let paid = quantity(before.player@[who].inventory.contents@, r) - quantity(
                after.player@[who].inventory.contents@,
                r,
            );
            &&& paid == if r == Resources::Gold {
                0
            } else {
                RECIPE_QUANTITY as int
            }
            &&& after.player@[who].status == before.player@[who].status
            &&& forall|other: Principal|
                other != who ==> after.record_of(other) == before.record_of(other)
            &&& after.expeditions@.contains_key(id)
            &&& made.id == id
            &&& made.step == ExpeditionStep::Proposed
            &&& made.proposed_by == who
            &&& made.proposed_at == now
            &&& made.members@ == seq![who]
            &&& made.resources_required@ == recipe()
            &&& made.resources_pool.contents@ == recipe()
            &&& after.expeditions_count == id + 1
            &&& after.colony == before.colony
            &&& !before.expeditions@.contains_key(id) ==> {
                &&& after.expeditions@.remove(id) == before.expeditions@
                &&& after.expeditions@.len() == before.expeditions@.len() + 1
            }
        },
{
    broadcast use vstd::std_specs::hash::group_hash_axioms;

    if done is Ok {
        let id = before.expeditions_count;
        let held = before.player@[who].inventory.contents@;
        assert(recipe().contains_key(Resources::Wood));
        assert(recipe().contains_key(Resources::Stone));
        assert(recipe().contains_key(Resources::Food));
        assert(recipe().contains_key(Resources::Water));
        assert(!recipe().contains_key(Resources::Gold));
        if recipe().contains_key(r) {
            assert(recipe()[r] <= quantity(held, r));
        }
        assert forall|other: Principal| other != who implies after.record_of(other)
            == before.record_of(other) by {
            assert(after.player@.contains_key(other) == before.player@.contains_key(other));
        }
        if !before.expeditions@.contains_key(id) {
            assert(after.expeditions@.remove(id) =~= before.expeditions@);
        }
    }
}

/// A join fails with an error of the kind `NotFound` where the expedition is
/// unknown, whoever asks; with one of the kind `InvalidState` where the
/// expedition is done, whoever asks; and with one of the kind `AlreadyMember`
/// where the expedition is known, not done, and lists the one who asks.
pub proof fn law_join_failures(world: BusinessState, who: Principal, id: u64)
    ensures
        !world.expeditions@.contains_key(id) ==> {
            &&& world.join_error(who, id) is Some
            &&& world.join_error(who, id)->0.spec_kind() == ErrorKind::NotFound
        },
        world.expeditions@.contains_key(id) && world.expeditions@[id].step is Done ==> {
            &&& world.join_error(who, id) == Some(WorldError::ExpeditionDone)
            &&& world.join_error(who, id)->0.spec_kind() == ErrorKind::InvalidState
        },
        world.expeditions@.contains_key(id) && !(world.expeditions@[id].step is Done)
            && world.expeditions@[id].members@.contains(who) ==> {
            &&& world.join_error(who, id) == Some(WorldError::AlreadyMember)
            &&& world.join_error(who, id)->0.spec_kind() == ErrorKind::AlreadyMember
        },
{
}

/// When a player joins an expedition, what leaves the player is what
/// reaches the pool, resource by resource: the quantity that the expedition
/// requires. The member is listed last, and what was fixed at the proposal
/// stays as it was.
pub proof fn law_join_debit_equals_credit(
    before: BusinessState,
    after: BusinessState,
    who: Principal,
    id: u64,
    r: Resources,
)
    requires
        before.join_outcome(&after, who, id, Ok(())),
    ensures
        ({
            let debit = quantity(before.player@[who].inventory.contents@, r) - quantity(
                after.player@[who].inventory.contents@,
                r,
            );
            let credit = quantity(after.expeditions@[id].resources_pool.contents@, r) - quantity(
                before.expeditions@[id].resources_pool.contents@,
                r,
            );
            &&& debit == credit
            &&& debit == quantity(before.expeditions@[id].resources_required@, r)
        }),
        after.expeditions@[id].members@ == before.expeditions@[id].members@.push(who),
        !before.expeditions@[id].members@.contains(who),
        after.expeditions@[id].resources_required@ == before.expeditions@[id].resources_required@,
        after.expeditions@[id].step == before.expeditions@[id].step,
        after.expeditions@[id].id == before.expeditions@[id].id,
        after.expeditions@[id].proposed_by == before.expeditions@[id].proposed_by,
        after.expeditions_count == before.expeditions_count,
{
    let held = before.player@[who].inventory.contents@;
    let required = before.expeditions@[id].resources_required@;
    assert(after.expeditions@.contains_key(id));
    if required.contains_key(r) {
        assert(required[r] <= quantity(held, r));
    }
}

/// A world whose expeditions are untouched continues every expedition.
pub proof fn law_untouched_expeditions_continue(before: BusinessState, after: BusinessState)
    requires
        after.expeditions@ == before.expeditions@,
    ensures
        before.expeditions_continue(&after),
{
    assert forall|id: u64| #[trigger]
        before.expeditions@.contains_key(id) implies after.expeditions@.contains_key(id)
        && before.expeditions@[id].continues(&after.expeditions@[id]) by {
        let was = before.expeditions@[id];
        assert(was.members@.is_prefix_of(was.members@));
    }
}

/// Along any history of a world in which each state continues the
/// expeditions of the state before it, an expedition is never lost and its
/// step never goes backward.
pub proof fn law_steps_never_go_backward(history: Seq<BusinessState>, id: u64, a: int, b: int)
    requires
        forall|i: int|
            0 <= i < history.len() - 1 ==> (#[trigger] history[i]).expeditions_continue(
                &history[i + 1],
            ),
        0 <= a <= b < history.len(),
        history[a].expeditions@.contains_key(id),
    ensures
        history[b].expeditions@.contains_key(id),
        history[a].expeditions@[id].step.rank() <= history[b].expeditions@[id].step.rank(),
        history[b].expeditions@[id].step.rank() <= history[a].expeditions@[id].step.rank() + (b
            - a),
    decreases b - a,
{
    if a < b {
        law_steps_never_go_backward(history, id, a, b - 1);
        assert(history[b - 1].expeditions_continue(&history[b - 1 + 1]));
    }
}

/// Along any such history, an expedition that is found `Proposed` or `Ready`
/// at one time and `Started` or `Done` at a later time was `Starting` at some
/// time in between: no step is skipped on the way.
pub proof fn law_started_only_after_starting(
    history: Seq<BusinessState>,
    id: u64,
    a: int,
    b: int,
) -> (between: int)
    requires
        forall|i: int|
            0 <= i < history.len() - 1 ==> (#[trigger] history[i]).expeditions_continue(
                &history[i + 1],
            ),
        0 <= a <= b < history.len(),
        history[a].expeditions@.contains_key(id),
        history[a].expeditions@[id].step.rank() < 2,
        history[b].expeditions@.contains_key(id),
        history[b].expeditions@[id].step.rank() > 2,
    ensures
        a < between < b,
        history[between].expeditions@.contains_key(id),
        history[between].expeditions@[id].step is Starting,
    decreases b - a,
{
    law_steps_never_go_backward(history, id, a, b);
    law_steps_never_go_backward(history, id, a, b - 1);
    assert(history[b - 1].expeditions_continue(&history[b - 1 + 1]));
    let before_last = history[b - 1].expeditions@[id].step;
    if before_last is Starting {
        b - 1
    } else if before_last.rank() < 2 {
        // The last step alone would have to skip `Starting`.
        assert(before_last.stays_or_follows(history[b].expeditions@[id].step));
        b - 1
    } else {
        law_started_only_after_starting(history, id, a, b - 1)
    }
}

/// An expedition that is `Done` stays `Done` in every state that continues
/// it, and each operation of the world that is aimed at it, a join or a
/// request for a step, fails with an error of the kind `InvalidState`.
pub proof fn law_done_is_absorbing(
    before: BusinessState,
    after: BusinessState,
    id: u64,
    next: ExpeditionStep,
    colony: Principal,
    who: Principal,
)
    requires
        before.expeditions@.contains_key(id),
        before.expeditions@[id].step is Done,
        before.expeditions_continue(&after),
    ensures
        after.expeditions@.contains_key(id),
        after.expeditions@[id].step is Done,
        before.join_error(who, id) == Some(WorldError::ExpeditionDone),
        before.advance_error(id) == Some(WorldError::ExpeditionDone),
        before.started_error(id, colony) == Some(WorldError::ExpeditionDone),
        before.expeditions@[id].step_outcome(next) == Err::<(), WorldError>(
            WorldError::ExpeditionDone,
        ),
        WorldError::ExpeditionDone.spec_kind() == ErrorKind::InvalidState,
{
}

} // verus!
