//! What an operation on a world can fail with.

use vstd::prelude::*;

verus! {

/// The five kinds of failure. Every error is of exactly one kind.
#[derive(Clone, Copy, Debug, PartialEq, Eq, Structural)]
pub enum ErrorKind {
    /// An identity or an expedition id is unknown.
    NotFound,
    /// A player is registered a second time.
    AlreadyExists,
    /// A player joins an expedition that they are a member of already.
    AlreadyMember,
    /// The operation is not legal in the current status or step.
    InvalidState,
    /// Somebody holds less than an operation asks for.
    InsufficientResources,
}

/// The reason why an operation failed. No failure changes the world.
#[derive(Clone, Copy, Debug, PartialEq, Eq, Structural)]
pub enum WorldError {
    /// No player is registered under the identity.
    PlayerNotFound,
    /// No expedition has the id.
    ExpeditionNotFound,
    /// A player is registered under the identity already.
    AlreadyExists,
    /// The player is a member of the expedition already.
    AlreadyMember,
    /// The player is not working, so there is nothing to claim.
    NotWorking,
    /// The player is working and cannot start to work.
    AlreadyWorking,
    /// The player is traveling and cannot start to work.
    Traveling,
    /// The player holds less than the expedition's recipe asks for.
    InsufficientResources,
    /// The expedition's pool is below the threshold for departure.
    ThresholdNotMet,
    /// The new colony has been asked for and the answer is still out.
    SpawnPending,
    /// The expedition is done: it takes no further step, no member and no
    /// payment.
    ExpeditionDone,
    /// The step asked for is not the one that follows the current step.
    IllegalStep,
}

impl WorldError {
    /// The kind of failure that the error belongs to.
    pub open spec fn spec_kind(self) -> ErrorKind {
        match self {
            WorldError::PlayerNotFound => ErrorKind::NotFound,
            WorldError::ExpeditionNotFound => ErrorKind::NotFound,
            WorldError::AlreadyExists => ErrorKind::AlreadyExists,
            WorldError::AlreadyMember => ErrorKind::AlreadyMember,
            WorldError::NotWorking => ErrorKind::InvalidState,
            WorldError::AlreadyWorking => ErrorKind::InvalidState,
            WorldError::Traveling => ErrorKind::InvalidState,
            WorldError::InsufficientResources => ErrorKind::InsufficientResources,
            WorldError::ThresholdNotMet => ErrorKind::InsufficientResources,
            WorldError::SpawnPending => ErrorKind::InvalidState,
            WorldError::ExpeditionDone => ErrorKind::InvalidState,
            WorldError::IllegalStep => ErrorKind::InvalidState,
        }
    }

    /// The kind of failure that the error belongs to.
    pub fn kind(&self) -> (kind: ErrorKind)
        ensures
            kind == self.spec_kind(),
    {
        match self {
            WorldError::PlayerNotFound => ErrorKind::NotFound,
            WorldError::ExpeditionNotFound => ErrorKind::NotFound,
            WorldError::AlreadyExists => ErrorKind::AlreadyExists,
            WorldError::AlreadyMember => ErrorKind::AlreadyMember,
            WorldError::NotWorking => ErrorKind::InvalidState,
            WorldError::AlreadyWorking => ErrorKind::InvalidState,
            WorldError::Traveling => ErrorKind::InvalidState,
            WorldError::InsufficientResources => ErrorKind::InsufficientResources,
            WorldError::ThresholdNotMet => ErrorKind::InsufficientResources,
            WorldError::SpawnPending => ErrorKind::InvalidState,
            WorldError::ExpeditionDone => ErrorKind::InvalidState,
            WorldError::IllegalStep => ErrorKind::InvalidState,
        }
    }

    /// The text that `message` gives for the error.
    pub open spec fn spec_message(self) -> Seq<char> {
        match self {
            WorldError::PlayerNotFound => "Principal not found"@,
            WorldError::ExpeditionNotFound => "Can't find expedition"@,
            WorldError::AlreadyExists => "The player already exists in this world"@,
            WorldError::AlreadyMember => "The player is already a member of this expedition"@,
            WorldError::NotWorking => "The player is not currently working"@,
            WorldError::AlreadyWorking => "Player is already working."@,
            WorldError::Traveling => "Cannot start work when traveling"@,
            WorldError::InsufficientResources =>
                "The player doesn't have enough resources to propose an expedition"@,
            WorldError::ThresholdNotMet => "Not enough resources to start the expedition"@,
            WorldError::SpawnPending => "Retry logic not implemented"@,
            WorldError::ExpeditionDone => "This expedition cannot be changed anymore"@,
            WorldError::IllegalStep => "The expedition cannot take this step"@,
        }
    }

    /// A sentence for the caller that says what went wrong.
    pub fn message(&self) -> (text: String)
        ensures
            text@ == self.spec_message(),
    {
        match self {
            WorldError::PlayerNotFound => "Principal not found".to_owned(),
            WorldError::ExpeditionNotFound => "Can't find expedition".to_owned(),
            WorldError::AlreadyExists => "The player already exists in this world".to_owned(),
            WorldError::AlreadyMember =>
                "The player is already a member of this expedition".to_owned(),
            WorldError::NotWorking => "The player is not currently working".to_owned(),
            WorldError::AlreadyWorking => "Player is already working.".to_owned(),
            WorldError::Traveling => "Cannot start work when traveling".to_owned(),
            WorldError::InsufficientResources =>
                "The player doesn't have enough resources to propose an expedition".to_owned(),
            WorldError::ThresholdNotMet =>
                "Not enough resources to start the expedition".to_owned(),
            WorldError::SpawnPending => "Retry logic not implemented".to_owned(),
            WorldError::ExpeditionDone => "This expedition cannot be changed anymore".to_owned(),
            WorldError::IllegalStep => "The expedition cannot take this step".to_owned(),
        }
    }
}

/// An error turns into its message where a caller reports failures as text.
impl From<WorldError> for String {
    fn from(error: WorldError) -> (text: String)
        ensures
            text@ == error.spec_message(),
    {
        error.message()
    }
}

/// The conversion is specified by the text that it yields, stated on `from`
/// itself, and not by a value of `String`.
impl vstd::std_specs::convert::FromSpecImpl<WorldError> for String {
    open spec fn obeys_from_spec() -> bool {
        false
    }

    open spec fn from_spec(error: WorldError) -> String {
        arbitrary()
    }
}

} // verus!
