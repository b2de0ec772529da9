use vstd::prelude::*;

verus! {

/// Why a create-game request is turned down at the protocol level.
#[derive(Clone, Copy, Debug, PartialEq, Eq, Structural)]
pub enum ControllerCreateGameRejectReason {
    GameExists,
    PlayerBusy,
}

/// Failures of the session registry.
#[derive(Clone, Copy, Debug, PartialEq, Eq, Structural)]
pub enum Error {
    /// The request binds no player to any slot.
    NoPlayer,
    /// The named player is already routed through a live connection.
    PlayerBusy(i32),
    /// A game with this identifier has already advanced past `Created`.
    GameExists,
    /// The request carries no game descriptor.
    PacketFieldNotPresent,
    /// The tokens offered for a registration are not one fresh token per bound player.
    TokenRejected,
}

pub type Result<T, E = Error> = std::result::Result<T, E>;

impl Error {
    /// The reject reason that stands for this error, where it is a protocol-level reject.
    pub open spec fn spec_reject_reason(self) -> Option<ControllerCreateGameRejectReason> {
        match self {
            Error::GameExists => Some(ControllerCreateGameRejectReason::GameExists),
            Error::PlayerBusy(_) => Some(ControllerCreateGameRejectReason::PlayerBusy),
            _ => None,
        }
    }

    /// Tells a protocol-level reject (`Some`) from a hard failure (`None`).
    pub fn reject_reason(&self) -> (reason: Option<ControllerCreateGameRejectReason>)
        ensures
            reason == self.spec_reject_reason(),
    {
        match self {
            Error::GameExists => Some(ControllerCreateGameRejectReason::GameExists),
            Error::PlayerBusy(_) => Some(ControllerCreateGameRejectReason::PlayerBusy),
            _ => None,
        }
    }
}

} // verus!
