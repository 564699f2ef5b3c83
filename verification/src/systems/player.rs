//! The turn of the player: from the keys that were pressed to what the
//! player character does, and what is changed by it.

use crate::components::{Blocking, Health};
use crate::position::GridPos;
use crate::resources::GameState;
use crate::systems::ui::{EventTarget, LogEvent};
use crate::systems::{find_first, keys_of, Keyed};
use vstd::prelude::*;

verus! {

/// The keys of the game that were pressed since the last look.
#[derive(Clone, Copy, Debug, PartialEq, Eq, Structural)]
pub struct KeyInput {
    pub left: bool,
    pub up: bool,
    pub right: bool,
    pub down: bool,
    pub targeting: bool,
    pub skip: bool,
}

/// What the keys ask for.
#[derive(Clone, Copy, Debug, PartialEq, Eq, Structural)]
pub enum PlayerAction {
    NoAction,
    /// A step onto the tile with these coordinates.
    Movement(i32, i32),
    RangedTargeting,
    SkipTurn,
}

/// What the player character does.
#[derive(Clone, Copy, Debug, PartialEq, Eq, Structural)]
pub enum PlayerActionEvent {
    /// It steps onto the tile with these coordinates.
    Move(i32, i32),
    /// It attacks this entity.
    Attack(u64),
}

/// An entity that blocks the tile it stands on.
#[derive(Clone, Copy, Debug, PartialEq, Eq, Structural)]
pub struct Blocker {
    pub entity: u64,
    pub pos: GridPos,
    pub blocking: Blocking,
}

/// A monster with its health and its name.
#[derive(Debug, Clone, PartialEq, Eq)]
pub struct Foe {
    pub entity: u64,
    pub health: Health,
    pub name: String,
}

/// What the keys ask for when the player stands at `pos`. Of several keys
/// the first of left, up, right, down, targeting and skip counts. A step
/// that would leave the grid is no action.
pub open spec fn action_of(keys: KeyInput, pos: GridPos) -> PlayerAction {
    if keys.left {
        if pos.x > i32::MIN {
            PlayerAction::Movement((pos.x - 1) as i32, pos.y)
        } else {
            PlayerAction::NoAction
        }
    } else if keys.up {
        if pos.y < i32::MAX {
            PlayerAction::Movement(pos.x, (pos.y + 1) as i32)
        } else {
            PlayerAction::NoAction
        }
    } else if keys.right {
        if pos.x < i32::MAX {
            PlayerAction::Movement((pos.x + 1) as i32, pos.y)
        } else {
            PlayerAction::NoAction
        }
    } else if keys.down {
        if pos.y > i32::MIN {
            PlayerAction::Movement(pos.x, (pos.y - 1) as i32)
        } else {
            PlayerAction::NoAction
        }
    } else if keys.targeting {
        PlayerAction::RangedTargeting
    } else if keys.skip {
        PlayerAction::SkipTurn
    } else {
        PlayerAction::NoAction
    }
}

impl Keyed for Blocker {
    type Key = GridPos;

    open spec fn key(&self) -> GridPos {
        self.pos
    }

    fn has_key(&self, key: &GridPos) -> (has: bool) {
        self.pos == *key
    }
}

impl Keyed for Foe {
    type Key = u64;

    open spec fn key(&self) -> u64 {
        self.entity
    }

    fn has_key(&self, key: &u64) -> (has: bool) {
        self.entity == *key
    }
}

/// The tiles of `blockers`, in their order.
pub open spec fn blocker_tiles(blockers: Seq<Blocker>) -> Seq<GridPos> {
    keys_of(blockers)
}

/// What the player character does for `action`: a step onto a tile that
/// nothing blocks is a move, a step onto an enemy is an attack on it, a step
/// onto anything else that blocks is nothing. Of several blockers on one tile
/// the first counts.
pub open spec fn event_of(action: PlayerAction, blockers: Seq<Blocker>) -> Option<
    PlayerActionEvent,
> {
    match action {
        PlayerAction::Movement(x, y) => match blocker_tiles(blockers).index_of_first(
            GridPos { x, y },
        ) {
            Some(index) => if blockers[index].blocking.attackable() {
                Some(PlayerActionEvent::Attack(blockers[index].entity))
            } else {
                None
            },
            None => Some(PlayerActionEvent::Move(x, y)),
        },
        _ => None,
    }
}

/// The state that `action` itself brings about: targeting opens the
/// targeting of ranged attacks, skipping hands the turn to the monsters.
pub open spec fn state_of(action: PlayerAction) -> Option<GameState> {
    match action {
        PlayerAction::RangedTargeting => Some(GameState::RangedTargeting),
        PlayerAction::SkipTurn => Some(GameState::EnemyTurn),
        _ => None,
    }
}

/// What the keys ask for when the player stands at `pos`.
pub fn read_action(keys: &KeyInput, pos: GridPos) -> (action: PlayerAction)
    ensures
        action == action_of(*keys, pos),
{
    if keys.left {
        if pos.x > i32::MIN {
            PlayerAction::Movement(pos.x - 1, pos.y)
        } else {
            PlayerAction::NoAction
        }
    } else if keys.up {
        if pos.y < i32::MAX {
            PlayerAction::Movement(pos.x, pos.y + 1)
        } else {
            PlayerAction::NoAction
        }
    } else if keys.right {
        if pos.x < i32::MAX {
            PlayerAction::Movement(pos.x + 1, pos.y)
        } else {
            PlayerAction::NoAction
        }
    } else if keys.down {
        if pos.y > i32::MIN {
            PlayerAction::Movement(pos.x, pos.y - 1)
        } else {
            PlayerAction::NoAction
        }
    } else if keys.targeting {
        PlayerAction::RangedTargeting
    } else if keys.skip {
        PlayerAction::SkipTurn
    } else {
        PlayerAction::NoAction
    }
}

/// The first of `blockers` that stands on `pos`.
pub fn find_blocker(blockers: &Vec<Blocker>, pos: GridPos) -> (found: Option<usize>)
    ensures
        match found {
            Some(index) => blocker_tiles(blockers@).index_of_first(pos) == Some(index as int)
                && index < blockers@.len(),
            None => blocker_tiles(blockers@).index_of_first(pos) is None,
        },
{
    find_first(blockers, &pos)
}

/// Turns the keys that were pressed into what the player character does and
/// into the state that the keys themselves bring about. A step is a move, an
/// attack or, where something else blocks the way, nothing; it changes no
/// state by itself. Targeting and skipping change the state and do nothing else.
pub fn handle_key_input(
    key_input: &KeyInput,
    player_position: GridPos,
    blocker_position: &Vec<Blocker>,
) -> (decided: (Option<PlayerActionEvent>, Option<GameState>))
    ensures
        decided.0 == event_of(action_of(*key_input, player_position), blocker_position@),
        decided.1 == state_of(action_of(*key_input, player_position)),
{
    let action = read_action(key_input, player_position);
    match action {
        PlayerAction::Movement(x, y) => {
            match find_blocker(blocker_position, GridPos::new(x, y)) {
                Some(index) => {
                    if blocker_position[index].blocking.is_attackable() {
                        (Some(PlayerActionEvent::Attack(blocker_position[index].entity)), None)
                    } else {
                        (None, None)
                    }
                },
                None => (Some(PlayerActionEvent::Move(x, y)), None),
            }
        },
        PlayerAction::RangedTargeting => (None, Some(GameState::RangedTargeting)),
        PlayerAction::SkipTurn => (None, Some(GameState::EnemyTurn)),
        PlayerAction::NoAction => (None, None),
    }
}

/// The entities of `enemies`, in their order.
pub open spec fn foe_ids(enemies: Seq<Foe>) -> Seq<u64> {
    keys_of(enemies)
}

/// `enemies` with one taken from the health of `target`. A target that is
/// not there is not hurt.
pub open spec fn struck(enemies: Seq<Foe>, target: u64) -> Seq<Foe> {
    match foe_ids(enemies).index_of_first(target) {
        Some(index) => enemies.update(
            index,
            Foe {
                entity: enemies[index].entity,
                health: Health {
                    current: (enemies[index].health.current - 1) as i32,
                    max: enemies[index].health.max,
                    min: enemies[index].health.min,
                },
                name: enemies[index].name,
            },
        ),
        None => enemies,
    }
}

/// What the log is told of an attack of the player on `target`: the name of
/// the monster that was hit, if it is there.
pub open spec fn strike_event(enemies: Seq<Foe>, target: u64) -> Option<LogEvent> {
    match foe_ids(enemies).index_of_first(target) {
        Some(index) => Some(
            LogEvent::PlayerAttack { defender: EventTarget::Npc(enemies[index].name), damage: 1 },
        ),
        None => None,
    }
}

/// Whether the health of the monster that `event` attacks, if it attacks one
/// that is there, has room for the hit.
pub open spec fn can_be_struck(enemies: Seq<Foe>, event: Option<PlayerActionEvent>) -> bool {
    event matches Some(PlayerActionEvent::Attack(target)) ==> (foe_ids(enemies).index_of_first(
        target,
    ) matches Some(index) ==> enemies[index].health.current > i32::MIN)
}

/// Where the first monster with this entity stands in `enemies`.
pub fn find_foe(enemies: &Vec<Foe>, entity: u64) -> (found: Option<usize>)
    ensures
        match found {
            Some(index) => foe_ids(enemies@).index_of_first(entity) == Some(index as int) && index
                < enemies@.len(),
            None => foe_ids(enemies@).index_of_first(entity) is None,
        },
{
    find_first(enemies, &entity)
}

/// Carries out what the player character does. A move puts the player and
/// the camera on the tile; an attack takes one from the health of its target,
/// if the target is still there, and is told to the log. After either it is
/// the monsters' turn. Without an event nothing happens.
pub fn player_move_or_attack(
    event: Option<PlayerActionEvent>,
    cameras: &mut Vec<GridPos>,
    enemies: &mut Vec<Foe>,
) -> (outcome: (Option<GameState>, Option<LogEvent>))
    requires
        can_be_struck(old(enemies)@, event),
    ensures
        match event {
            Some(PlayerActionEvent::Move(x, y)) => {
                &&& final(cameras)@ == Seq::new(old(cameras)@.len(), |i: int| GridPos { x, y })
                &&& final(enemies)@ == old(enemies)@
                &&& outcome.0 == Some(GameState::EnemyTurn)
                &&& outcome.1 is None
            },
            Some(PlayerActionEvent::Attack(target)) => {
                &&& final(cameras)@ == old(cameras)@
                &&& final(enemies)@ == struck(old(enemies)@, target)
                &&& outcome.0 == Some(GameState::EnemyTurn)
                &&& outcome.1 == strike_event(old(enemies)@, target)
            },
            None => {
                &&& final(cameras)@ == old(cameras)@
                &&& final(enemies)@ == old(enemies)@
                &&& outcome.0 is None
                &&& outcome.1 is None
            },
        },
{
    match event {
        Some(PlayerActionEvent::Move(x, y)) => {
            let mut i: usize = 0;
            while i < cameras.len()
                invariant
                    i <= cameras@.len(),
                    cameras@.len() == old(cameras)@.len(),
                    forall|k: int| 0 <= k < i ==> cameras@[k] == (GridPos { x, y }),
                decreases cameras@.len() - i,
            {
                cameras.set(i, GridPos::new(x, y));
                i += 1;
            }
            assert(cameras@ =~= Seq::new(old(cameras)@.len(), |i: int| GridPos { x, y }));
            (Some(GameState::EnemyTurn), None)
        },
        Some(PlayerActionEvent::Attack(target)) => {
            match find_foe(enemies, target) {
                Some(index) => {
                    let name = enemies[index].name.clone();
                    let entity = enemies[index].entity;
                    let health = enemies[index].health;
                    enemies.set(
                        index,
                        Foe {
                            entity,
                            health: Health {
                                current: health.current - 1,
                                max: health.max,
                                min: health.min,
                            },
                            name: name.clone(),
                        },
                    );
                    (Some(GameState::EnemyTurn), Some(LogEvent::player_attack(name, 1)))
                },
                None => (Some(GameState::EnemyTurn), None),
            }
        },
        None => (None, None),
    }
}

/// Whether the player has died: its health is at the threshold or below.
/// Then the game goes over to the state of the dead player.
pub fn check_player_health(health: &Health) -> (next: Option<GameState>)
    ensures
        next == if health.spent() {
            Some(GameState::PlayerDead)
        } else {
            None
        },
{
    if health.current <= health.min {
        Some(GameState::PlayerDead)
    } else {
        None
    }
}

} // verus!
