//! The player character.

use crate::components::{Blocking, BlockingType, Health, ItemName, Level, Race, State, Stats};
use vstd::prelude::*;

verus! {

/// Marks the entity that the player steers.
#[derive(Clone, Copy, Debug)]
pub struct Player;

/// Marks the camera that follows the player.
#[derive(Clone, Copy, Debug)]
pub struct PlayerCamera;

pub const PLAYER_MAX_HEALTH: usize = 100;

/// The experience of the player: what was gathered, and what the next level takes.
#[derive(Clone, Copy, Debug, PartialEq, Eq, Structural)]
pub struct XP {
    pub current: usize,
    pub max: usize,
}

/// All that the player character is made of.
#[derive(Debug)]
pub struct PlayerBundle {
    pub _p: Player,
    pub name: ItemName,
    pub race: Race,
    pub level: Level,
    pub xp: XP,
    pub health: Health,
    pub blocking: Blocking,
    pub state: State,
    pub stats: Stats,
}

impl PlayerBundle {
    /// A new player character at full health, on level 1 and without experience.
    pub fn new(max_health: i32) -> (bundle: Self)
        ensures
            bundle.name.0@ == "ReadyPlayer1"@,
            bundle.race == Race::Unknown,
            bundle.level.0 == 1,
            bundle.xp == (XP { current: 0, max: PLAYER_MAX_HEALTH }),
            bundle.health == (Health { current: max_health, max: max_health, min: 0 }),
            bundle.blocking.blocking_type == BlockingType::Player,
            bundle.state == State::Idle,
            bundle.stats.strength.0 == 10,
            bundle.stats.agility.0 == 5,
            bundle.stats.endurance.0 == 8,
            bundle.stats.intelligence.0 == 3,
    {
        PlayerBundle {
            _p: Player,
            name: ItemName(String::from_str("ReadyPlayer1")),
            race: Race::Unknown,
            level: Level(1),
            xp: XP { current: 0, max: PLAYER_MAX_HEALTH },
            health: Health::new(max_health, 0),
            blocking: Blocking::player(),
            state: State::default(),
            stats: Stats::new(10, 5, 8, 3),
        }
    }
}

} // verus!
