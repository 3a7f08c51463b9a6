//! A player: what they are doing and what they hold.

use crate::inventory::Inventory;
use crate::resources::Resources;
use vstd::prelude::*;

verus! {

/// A point in time, in milliseconds.
pub type TimestampMillis = u64;

/// The number of milliseconds in a second.
pub const MILLIS_TO_SECONDS: u64 = 1000;

/// The whole seconds that lie between `since` and `now`.
pub open spec fn elapsed_seconds(since: TimestampMillis, now: TimestampMillis) -> int {
    (now - since) / (MILLIS_TO_SECONDS as int)
}

/// What a player is doing.
#[derive(Clone, Copy, Debug, PartialEq, Eq, Structural)]
pub enum PlayerStatus {
    Idle,
    /// Working for every resource, since the given time.
    WorkingAll(TimestampMillis),
    /// Working with a focus on one resource, since the given time.
    WorkingFocused(TimestampMillis, Resources),
    Traveling,
}

impl Default for PlayerStatus {
    fn default() -> (status: Self)
        ensures
            status == PlayerStatus::Idle,
    {
        PlayerStatus::Idle
    }
}

impl PlayerStatus {
    /// The time at which the player started to work, if they are working.
    pub open spec fn spec_working_since(self) -> Option<TimestampMillis> {
        match self {
            PlayerStatus::WorkingAll(since) => Some(since),
            PlayerStatus::WorkingFocused(since, _) => Some(since),
            _ => None,
        }
    }

    /// The time at which the player started to work, if they are working.
    pub fn working_since(&self) -> (since: Option<TimestampMillis>)
        ensures
            since == self.spec_working_since(),
    {
        match self {
            PlayerStatus::WorkingAll(since) => Some(*since),
            PlayerStatus::WorkingFocused(since, _) => Some(*since),
            _ => None,
        }
    }

    /// The status of a player who starts to work at `now`, on `focus` if one
    /// is given and on everything if none is.
    pub open spec fn working(focus: Option<Resources>, now: TimestampMillis) -> PlayerStatus {
        match focus {
            Some(res) => PlayerStatus::WorkingFocused(now, res),
            None => PlayerStatus::WorkingAll(now),
        }
    }
}

/// The record that a world keeps of one player.
#[derive(Debug)]
pub struct PlayerState {
    pub status: PlayerStatus,
    pub inventory: Inventory,
}

impl Default for PlayerState {
    fn default() -> (fresh: Self)
        ensures
            fresh.status == PlayerStatus::Idle,
            fresh.inventory.size == 0,
            fresh.inventory.contents@ == Map::<Resources, u64>::empty(),
    {
        PlayerState { status: PlayerStatus::Idle, inventory: Inventory::default() }
    }
}

impl Clone for PlayerState {
    fn clone(&self) -> (copy: Self)
        ensures
            copy.status == self.status,
            copy.inventory.size == self.inventory.size,
            copy.inventory.contents@ == self.inventory.contents@,
            copy.inventory.contents.spec_keys() == self.inventory.contents.spec_keys(),
    {
        PlayerState { status: self.status, inventory: self.inventory.clone() }
    }
}

impl PlayerState {
    /// What the player is doing.
    pub fn get_status(&self) -> (status: PlayerStatus)
        ensures
            status == self.status,
    {
        self.status
    }

    /// Replaces the status and leaves the inventory alone.
    pub fn set_status(&mut self, status: PlayerStatus)
        ensures
            final(self).status == status,
            final(self).inventory == old(self).inventory,
    {
        self.status = status
    }

    /// A copy of what the player holds.
    pub fn get_inventory(&self) -> (copy: Inventory)
        ensures
            copy.size == self.inventory.size,
            copy.contents@ == self.inventory.contents@,
            copy.contents.spec_keys() == self.inventory.contents.spec_keys(),
    {
        self.inventory.clone()
    }
}

} // verus!
