//! Attacks from afar: the player picks a tile and hits the monster on it.

use crate::components::Health;
use crate::position::GridPos;
use crate::resources::GameState;
use crate::systems::ui::{EventTarget, LogEvent};
use crate::systems::{find_first, keys_of, Keyed};
use vstd::prelude::*;

verus! {

/// A shot at the tile with these coordinates.
#[derive(Default, Debug, Clone, Copy, PartialEq, Eq, Structural)]
pub struct RangedAttackEvent {
    pub x: i32,
    pub y: i32,
}

/// The tile that the player points at.
#[derive(Default, Debug, Clone, Copy, PartialEq, Eq, Structural)]
pub struct TargetLocation {
    pub x: i32,
    pub y: i32,
}

/// A monster that can be shot at: where it stands, its health and its name.
#[derive(Debug, Clone, PartialEq, Eq)]
pub struct Mark {
    pub entity: u64,
    pub pos: GridPos,
    pub health: Health,
    pub name: String,
}

/// What a shot has done.
#[derive(Debug, Clone, PartialEq, Eq)]
pub struct ShotOutcome {
    /// The state that follows, if the shot changes it.
    pub next: Option<GameState>,
    /// What the log is told.
    pub event: Option<LogEvent>,
    /// The monster that the shot has killed and taken off the map.
    pub despawned: Option<u64>,
}

impl Keyed for Mark {
    type Key = GridPos;

    open spec fn key(&self) -> GridPos {
        self.pos
    }

    fn has_key(&self, key: &GridPos) -> (has: bool) {
        self.pos == *key
    }
}

/// The tiles of `marks`, in their order.
pub open spec fn mark_tiles(marks: Seq<Mark>) -> Seq<GridPos> {
    keys_of(marks)
}

/// The monster `mark` after it was hit once.
pub open spec fn hit_once(mark: Mark) -> Mark {
    Mark {
        entity: mark.entity,
        pos: mark.pos,
        health: Health {
            current: (mark.health.current - 1) as i32,
            max: mark.health.max,
            min: mark.health.min,
        },
        name: mark.name,
    }
}

/// Whether the health of the monster that `target` hits, if a monster stands
/// on its tile, has room for the hit.
pub open spec fn can_be_shot(marks: Seq<Mark>, target: Option<RangedAttackEvent>) -> bool {
    target matches Some(shot) ==> (mark_tiles(marks).index_of_first(
        GridPos { x: shot.x, y: shot.y },
    ) matches Some(index) ==> marks[index].health.current > i32::MIN)
}

/// The first of `marks` that stands on `pos`.
pub fn find_mark(marks: &Vec<Mark>, pos: GridPos) -> (found: Option<usize>)
    ensures
        match found {
            Some(index) => mark_tiles(marks@).index_of_first(pos) == Some(index as int) && index
                < marks@.len(),
            None => mark_tiles(marks@).index_of_first(pos) is None,
        },
{
    find_first(marks, &pos)
}

/// Shoots at a tile. The first monster that stands on it loses one health,
/// the log is told, and the turn goes to the monsters; a monster whose health
/// is used up by the shot is taken off the map. A shot at a tile without a
/// monster, like no shot at all, changes nothing, and the player may aim again.
pub fn ranged_attack(target: Option<RangedAttackEvent>, query: &mut Vec<Mark>) -> (outcome:
    ShotOutcome)
    requires
        can_be_shot(old(query)@, target),
    ensures
        match target {
            Some(shot) => match mark_tiles(old(query)@).index_of_first(
                GridPos { x: shot.x, y: shot.y },
            ) {
                Some(index) => {
                    let hit = hit_once(old(query)@[index]);
                    &&& outcome.next == Some(GameState::EnemyTurn)
                    &&& outcome.event == Some(
                        LogEvent::PlayerAttack { defender: EventTarget::Npc(hit.name), damage: 1 },
                    )
                    &&& if hit.health.current <= 0 {
                        final(query)@ == old(query)@.remove(index) && outcome.despawned == Some(
                            hit.entity,
                        )
                    } else {
                        final(query)@ == old(query)@.update(index, hit) && outcome.despawned is None
                    }
                },
                None => final(query)@ == old(query)@ && outcome.next is None && outcome.event
                    is None && outcome.despawned is None,
            },
            None => final(query)@ == old(query)@ && outcome.next is None && outcome.event is None
                && outcome.despawned is None,
        },
{
    if let Some(attack_target) = target {
        let pos = GridPos::new(attack_target.x, attack_target.y);
        if let Some(index) = find_mark(query, pos) {
            let struck = query.remove(index);
            let name = struck.name.clone();
            let entity = struck.entity;
            let current = struck.health.current - 1;
            let event = LogEvent::player_attack(name, 1);
            if current <= 0 {
                return ShotOutcome {
                    next: Some(GameState::EnemyTurn),
                    event: Some(event),
                    despawned: Some(entity),
                };
            }
            query.insert(
                index,
                Mark {
                    entity,
                    pos: struck.pos,
                    health: Health { current, max: struck.health.max, min: struck.health.min },
                    name: struck.name,
                },
            );
            assert(query@ =~= old(query)@.update(index as int, hit_once(old(query)@[index as int])));
            return ShotOutcome { next: Some(GameState::EnemyTurn), event: Some(event), despawned: None };
        }
    }
    ShotOutcome { next: None, event: None, despawned: None }
}

} // verus!
