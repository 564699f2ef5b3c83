//! The decision layer of the monsters: how much an action is worth to an
//! actor, and which action it then takes.

pub mod pickers;
pub mod scorers;

use vstd::prelude::*;

verus! {

/// Where an action of an actor stands. An actor that wants to act asks for it;
/// the turn engine answers every request of a turn.
#[derive(Copy, Clone, Eq, PartialEq, Structural, Debug)]
pub enum ActionState {
    Init,
    Requested,
    Executing,
    Cancelled,
    Success,
    Failure,
}

/// The action of an actor, by the actor's entity.
#[derive(Copy, Clone, Eq, PartialEq, Structural, Debug)]
pub struct ActorRequest {
    pub actor: u64,
    pub state: ActionState,
}

} // verus!
