//! What the log panel is told.

use vstd::prelude::*;

verus! {

/// Who an event of the log is about.
#[derive(Debug, Clone, PartialEq, Eq)]
pub enum EventTarget {
    Player,
    Npc(String),
}

/// An event for the log panel. The panel adds the time at which it shows it.
#[derive(Debug, Clone, PartialEq, Eq)]
pub enum LogEvent {
    PlayerAttack { defender: EventTarget, damage: u32 },
    NPCAttackPlayer { attacker: EventTarget, damage: u32 },
    NPCAttackNPC { attacker: EventTarget, defender: EventTarget, damage: u32 },
}

impl LogEvent {
    /// The player has hit the monster called `defender`.
    pub fn player_attack(defender: String, damage: u32) -> (event: Self)
        ensures
            event == (LogEvent::PlayerAttack { defender: EventTarget::Npc(defender), damage }),
    {
        Self::PlayerAttack { defender: EventTarget::Npc(defender), damage }
    }

    /// The monster called `attacker` has hit the player.
    pub fn npc_attacks_player(attacker: String, damage: u32) -> (event: Self)
        ensures
            event == (LogEvent::NPCAttackPlayer { attacker: EventTarget::Npc(attacker), damage }),
    {
        Self::NPCAttackPlayer { attacker: EventTarget::Npc(attacker), damage }
    }

    /// The monster called `attacker` has hit the monster called `defender`.
    pub fn npc_attacks_npc(attacker: String, defender: String, damage: u32) -> (event: Self)
        ensures
            event == (LogEvent::NPCAttackNPC {
                attacker: EventTarget::Npc(attacker),
                defender: EventTarget::Npc(defender),
                damage,
            }),
    {
        Self::NPCAttackNPC {
            attacker: EventTarget::Npc(attacker),
            defender: EventTarget::Npc(defender),
            damage,
        }
    }
}

} // verus!
