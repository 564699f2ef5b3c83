//! The turn of the monsters. Deciding and changing are two steps:
//! `enemy_turn` answers every request of the turn with a list of actions,
//! `enemy_move` then carries the actions out.

use crate::ai::{ActionState, ActorRequest};
use crate::position::GridPos;
use crate::random::random_index;
use crate::resources::GameState;
use crate::systems::ui::LogEvent;
use crate::systems::{
    find_first, find_living, find_positioned, hurt, keys_of, lemma_hurt_keeps_ids,
    lemma_put_keeps_ids, living_ids, positioned_ids, put, Keyed, Living, Positioned,
};
use vstd::prelude::*;

verus! {

/// One of the four directions in which an idle monster wanders.
#[derive(Debug, PartialEq, Eq, Structural, Clone, Copy)]
pub enum RandomMoveDirection {
    Up,
    Right,
    Down,
    Left,
}

/// What a monster does in its turn.
#[derive(Debug, Clone, PartialEq, Eq)]
pub enum NPCActionType {
    /// The actor steps onto the tile at `(x, y)`.
    Move { actor: u64, x: i32, y: i32 },
    /// The target is attacked by the monster of that name.
    Attack { target: u64, attacker_name: String },
}

/// A monster that is alive: its entity, where it stands and what it is called.
#[derive(Debug, Clone, PartialEq, Eq)]
pub struct EnemyRecord {
    pub entity: u64,
    pub pos: GridPos,
    pub name: String,
}

/// The tile one step from `pos` along `(dx, dy)`, if the grid reaches that far.
pub open spec fn shifted(pos: GridPos, dx: int, dy: int) -> Option<GridPos> {
    if i32::MIN <= pos.x + dx <= i32::MAX && i32::MIN <= pos.y + dy <= i32::MAX {
        Some(GridPos { x: (pos.x + dx) as i32, y: (pos.y + dy) as i32 })
    } else {
        None
    }
}

impl RandomMoveDirection {
    /// The direction with this number: 0 is up, 1 right, 2 down, 3 left.
    pub open spec fn of_index(index: int) -> RandomMoveDirection {
        if index == 0 {
            RandomMoveDirection::Up
        } else if index == 1 {
            RandomMoveDirection::Right
        } else if index == 2 {
            RandomMoveDirection::Down
        } else {
            RandomMoveDirection::Left
        }
    }

    /// The tile one step from `pos` in this direction, if the grid reaches that far.
    pub open spec fn target(self, pos: GridPos) -> Option<GridPos> {
        match self {
            RandomMoveDirection::Up => shifted(pos, 0, 1),
            RandomMoveDirection::Right => shifted(pos, 1, 0),
            RandomMoveDirection::Down => shifted(pos, 0, -1),
            RandomMoveDirection::Left => shifted(pos, -1, 0),
        }
    }

    /// The direction with this number: 0 is up, 1 right, 2 down, 3 left.
    pub fn from_index(index: u32) -> (direction: RandomMoveDirection)
        requires
            index <= 3,
        ensures
            direction == Self::of_index(index as int),
    {
        if index == 0 {
            RandomMoveDirection::Up
        } else if index == 1 {
            RandomMoveDirection::Right
        } else if index == 2 {
            RandomMoveDirection::Down
        } else {
            RandomMoveDirection::Left
        }
    }

    /// The tile one step from `pos` in this direction, if the grid reaches that far.
    pub fn step_from(&self, pos: GridPos) -> (tile: Option<GridPos>)
        ensures
            tile == self.target(pos),
    {
        match self {
            RandomMoveDirection::Up => if pos.y < i32::MAX {
                Some(GridPos::new(pos.x, pos.y + 1))
            } else {
                None
            },
            RandomMoveDirection::Right => if pos.x < i32::MAX {
                Some(GridPos::new(pos.x + 1, pos.y))
            } else {
                None
            },
            RandomMoveDirection::Down => if pos.y > i32::MIN {
                Some(GridPos::new(pos.x, pos.y - 1))
            } else {
                None
            },
            RandomMoveDirection::Left => if pos.x > i32::MIN {
                Some(GridPos::new(pos.x - 1, pos.y))
            } else {
                None
            },
        }
    }
}

/// Whether `action` is a move onto `p`.
pub open spec fn moves_to(action: NPCActionType, p: GridPos) -> bool {
    action matches NPCActionType::Move { x, y, .. } && x == p.x && y == p.y
}

/// Whether one of `actions` is a move onto `p`: the tile is claimed.
pub open spec fn claimed(actions: Seq<NPCActionType>, p: GridPos) -> bool {
    exists|i: int| 0 <= i < actions.len() && moves_to(#[trigger] actions[i], p)
}

/// Whether a monster cannot step onto `p`: something blocks the tile, or a
/// monster that acted earlier in the turn has claimed it.
pub open spec fn occupied(blockers: Seq<GridPos>, actions: Seq<NPCActionType>, p: GridPos) -> bool {
    blockers.contains(p) || claimed(actions, p)
}

/// The step of a monster at `npc` towards the player at `player`, when the
/// tiles for which `taken` holds cannot be entered. The directions are tried
/// in a fixed order: right, left, up, down. A direction counts only if the
/// player lies that way, and the first whose tile can be entered is taken.
pub open spec fn free_step(npc: GridPos, player: GridPos, taken: spec_fn(GridPos) -> bool) -> Option<
    GridPos,
> {
    let right = GridPos { x: (npc.x + 1) as i32, y: npc.y };
    let left = GridPos { x: (npc.x - 1) as i32, y: npc.y };
    let up = GridPos { x: npc.x, y: (npc.y + 1) as i32 };
    let down = GridPos { x: npc.x, y: (npc.y - 1) as i32 };
    if player.x > npc.x && !taken(right) {
        Some(right)
    } else if player.x < npc.x && !taken(left) {
        Some(left)
    } else if player.y > npc.y && !taken(up) {
        Some(up)
    } else if player.y < npc.y && !taken(down) {
        Some(down)
    } else {
        None
    }
}

/// Whether `blockers` holds `pos`.
pub fn is_blocked(blockers: &Vec<GridPos>, pos: GridPos) -> (blocked: bool)
    ensures
        blocked == blockers@.contains(pos),
{
    let mut i: usize = 0;
    while i < blockers.len()
        invariant
            i <= blockers@.len(),
            forall|k: int| 0 <= k < i ==> blockers@[k] != pos,
        decreases blockers@.len() - i,
    {
        if blockers[i] == pos {
            return true;
        }
        i += 1;
    }
    false
}

/// Whether one of `actions` is a move onto `pos`.
pub fn is_claimed(actions: &Vec<NPCActionType>, pos: GridPos) -> (taken: bool)
    ensures
        taken == claimed(actions@, pos),
{
    let mut i: usize = 0;
    while i < actions.len()
        invariant
            i <= actions@.len(),
            forall|k: int| 0 <= k < i ==> !moves_to(#[trigger] actions@[k], pos),
        decreases actions@.len() - i,
    {
        match &actions[i] {
            NPCActionType::Move { actor: _, x, y } => {
                if *x == pos.x && *y == pos.y {
                    return true;
                }
            },
            NPCActionType::Attack { target: _, attacker_name: _ } => {},
        }
        i += 1;
    }
    false
}

/// The step of a monster at `npc` towards the player at `player` that the
/// blockers allow: right, left, up or down, in this order of choice, and only
/// towards the player. None if every way towards the player is blocked, or if
/// the monster stands on the tile of the player.
pub fn resolve_position(npc: GridPos, player: GridPos, blockers: &Vec<GridPos>) -> (step: Option<
    GridPos,
>)
    ensures
        step == free_step(npc, player, |p: GridPos| blockers@.contains(p)),
{
    // if player is right to the npc
    if player.x > npc.x {
        let right = GridPos::new(npc.x + 1, npc.y);
        if !is_blocked(blockers, right) {
            return Some(right);
        }
    }
    // if player is left to the npc
    if player.x < npc.x {
        let left = GridPos::new(npc.x - 1, npc.y);
        if !is_blocked(blockers, left) {
            return Some(left);
        }
    }
    // if player is above the npc
    if player.y > npc.y {
        let up = GridPos::new(npc.x, npc.y + 1);
        if !is_blocked(blockers, up) {
            return Some(up);
        }
    }
    // if player is below the npc
    if player.y < npc.y {
        let down = GridPos::new(npc.x, npc.y - 1);
        if !is_blocked(blockers, down) {
            return Some(down);
        }
    }
    None
}

impl Keyed for EnemyRecord {
    type Key = u64;

    open spec fn key(&self) -> u64 {
        self.entity
    }

    fn has_key(&self, key: &u64) -> (has: bool) {
        self.entity == *key
    }
}

/// The entities of `enemies`, in their order.
pub open spec fn enemy_ids(enemies: Seq<EnemyRecord>) -> Seq<u64> {
    keys_of(enemies)
}

/// The place of the monster with this entity among `enemies`, if it is alive.
pub fn find_enemy(enemies: &Vec<EnemyRecord>, entity: u64) -> (found: Option<usize>)
    ensures
        match found {
            Some(index) => enemy_ids(enemies@).index_of_first(entity) == Some(index as int)
                && index < enemies@.len() && enemies@[index as int].entity == entity,
            None => enemy_ids(enemies@).index_of_first(entity) is None,
        },
{
    find_first(enemies, &entity)
}

/// Whether the blocker at `p` is worth a look for a monster at `npc`: it
/// stands in a column or a row next to the monster's.
pub open spec fn lined_up(npc: GridPos, p: GridPos) -> bool {
    ||| p.x == npc.x + 1
    ||| p.x == npc.x - 1
    ||| p.y == npc.y + 1
    ||| p.y == npc.y - 1
}

proof fn lemma_contains_push(s: Seq<GridPos>, x: GridPos)
    ensures
        forall|p: GridPos| #[trigger] s.push(x).contains(p) <==> s.contains(p) || p == x,
{
    let grown = s.push(x);
    assert forall|p: GridPos| #[trigger] grown.contains(p) <==> s.contains(p) || p == x by {
        if grown.contains(p) {
            let w = choose|w: int| 0 <= w < grown.len() && grown[w] == p;
            if w < s.len() {
                assert(s[w] == p);
            }
        }
        if s.contains(p) {
            let w = choose|w: int| 0 <= w < s.len() && s[w] == p;
            assert(grown[w] == p);
        }
        if p == x {
            assert(grown[s.len() as int] == p);
        }
    }
}

/// A tile is claimed after one more action if it was claimed before or the
/// action is a move onto it.
pub proof fn lemma_claimed_push(actions: Seq<NPCActionType>, action: NPCActionType)
    ensures
        forall|p: GridPos| #[trigger]
            claimed(actions.push(action), p) <==> claimed(actions, p) || moves_to(action, p),
{
    let grown = actions.push(action);
    assert forall|p: GridPos| #[trigger] claimed(grown, p) <==> claimed(actions, p) || moves_to(
        action,
        p,
    ) by {
        if claimed(grown, p) {
            let w = choose|w: int| 0 <= w < grown.len() && moves_to(#[trigger] grown[w], p);
            if w < actions.len() {
                assert(moves_to(actions[w], p));
            }
        }
        if claimed(actions, p) {
            let w = choose|w: int| 0 <= w < actions.len() && moves_to(#[trigger] actions[w], p);
            assert(moves_to(grown[w], p));
        }
        if moves_to(action, p) {
            assert(moves_to(grown[actions.len() as int], p));
        }
    }
}

/// Whether `p` may stand in the way of the monster at `npc`: a blocker is
/// there, in a column or row next to the monster's, or the tile is claimed.
pub open spec fn in_way(
    npc: GridPos,
    blockers: Seq<GridPos>,
    actions: Seq<NPCActionType>,
    p: GridPos,
) -> bool {
    (blockers.contains(p) && lined_up(npc, p)) || claimed(actions, p)
}

/// What may stand in the way of the monster at `npc`: the blockers in the
/// columns and rows next to it, and every tile that a monster has claimed
/// earlier in the turn.
pub fn possible_blockers(npc: GridPos, blockers: &Vec<GridPos>, to_move: &Vec<NPCActionType>) -> (possible:
    Vec<GridPos>)
    ensures
        forall|p: GridPos| #[trigger] possible@.contains(p) <==> in_way(npc, blockers@, to_move@, p),
{
    let mut possible: Vec<GridPos> = Vec::new();
    let mut i: usize = 0;
    assert(blockers@.take(0) =~= Seq::empty());
    while i < blockers.len()
        invariant
            i <= blockers@.len(),
            forall|p: GridPos| #[trigger]
                possible@.contains(p) <==> in_way(npc, blockers@.take(i as int), Seq::empty(), p),
        decreases blockers@.len() - i,
    {
        let b = blockers[i];
        proof {
            assert(blockers@.take(i + 1) =~= blockers@.take(i as int).push(b));
            lemma_contains_push(blockers@.take(i as int), b);
            lemma_contains_push(possible@, b);
        }
        if npc.x as i64 + 1 == b.x as i64 || npc.x as i64 - 1 == b.x as i64 || npc.y as i64 + 1
            == b.y as i64 || npc.y as i64 - 1 == b.y as i64 {
            possible.push(b);
        }
        i += 1;
    }
    let mut j: usize = 0;
    proof {
        assert(blockers@.take(blockers@.len() as int) =~= blockers@);
        assert(to_move@.take(0) =~= Seq::empty());
    }
    while j < to_move.len()
        invariant
            j <= to_move@.len(),
            forall|p: GridPos| #[trigger]
                possible@.contains(p) <==> in_way(npc, blockers@, to_move@.take(j as int), p),
        decreases to_move@.len() - j,
    {
        proof {
            assert(to_move@.take(j + 1) =~= to_move@.take(j as int).push(to_move@[j as int]));
            lemma_claimed_push(to_move@.take(j as int), to_move@[j as int]);
        }
        match &to_move[j] {
            NPCActionType::Move { actor: _, x, y } => {
                let claim = GridPos::new(*x, *y);
                proof {
                    lemma_contains_push(possible@, claim);
                }
                possible.push(claim);
            },
            NPCActionType::Attack { target: _, attacker_name: _ } => {},
        }
        j += 1;
    }
    proof {
        assert(to_move@.take(to_move@.len() as int) =~= to_move@);
    }
    possible
}

/// What the monster `enemy` does to get at the player when `done` was decided
/// before it in the turn: it takes the step towards the player that is free,
/// and if that step leads onto the tile of the player it attacks instead and
/// claims no tile. With no free step it does nothing.
pub open spec fn seek_action(
    player_entity: u64,
    player_pos: GridPos,
    enemy: EnemyRecord,
    blockers: Seq<GridPos>,
    done: Seq<NPCActionType>,
) -> Option<NPCActionType> {
    match free_step(enemy.pos, player_pos, |p: GridPos| occupied(blockers, done, p)) {
        None => None,
        Some(dest) => if dest == player_pos {
            Some(NPCActionType::Attack { target: player_entity, attacker_name: enemy.name })
        } else {
            Some(NPCActionType::Move { actor: enemy.entity, x: dest.x, y: dest.y })
        },
    }
}

/// Whether the monster of this request acts in the turn: it is a request,
/// and its actor is a monster that is alive.
pub open spec fn is_due(enemies: Seq<EnemyRecord>, request: ActorRequest) -> bool {
    request.state == ActionState::Requested && enemy_ids(enemies).index_of_first(request.actor)
        is Some
}

/// The monster that `request` is about.
pub open spec fn enemy_of(enemies: Seq<EnemyRecord>, request: ActorRequest) -> EnemyRecord {
    enemies[enemy_ids(enemies).index_of_first(request.actor).unwrap()]
}

/// The request after the turn: a request is a success, whatever its monster
/// could do and even if the monster is gone; anything else is as it was.
pub open spec fn answered(request: ActorRequest) -> ActorRequest {
    if request.state == ActionState::Requested {
        ActorRequest { actor: request.actor, state: ActionState::Success }
    } else {
        request
    }
}

/// The actions of the turn once the first `k` of the monsters that go after
/// the player have decided, each knowing what those before it do.
pub open spec fn seek_turn(
    player_entity: u64,
    player_pos: GridPos,
    enemies: Seq<EnemyRecord>,
    actors: Seq<ActorRequest>,
    blockers: Seq<GridPos>,
    k: int,
) -> Seq<NPCActionType>
    decreases k,
{
    if k <= 0 {
        Seq::empty()
    } else {
        let done = seek_turn(player_entity, player_pos, enemies, actors, blockers, k - 1);
        if is_due(enemies, actors[k - 1]) {
            match seek_action(
                player_entity,
                player_pos,
                enemy_of(enemies, actors[k - 1]),
                blockers,
                done,
            ) {
                Some(action) => done.push(action),
                None => done,
            }
        } else {
            done
        }
    }
}

/// Whether `to` is one step from `from` along one axis.
pub open spec fn cardinal_step(from: GridPos, to: GridPos) -> bool {
    exists|direction: RandomMoveDirection| #[trigger] direction.target(from) == Some(to)
}

/// Whether an idle monster at `pos` cannot wander at all: whichever way it
/// turns, the grid ends or the tile is occupied.
pub open spec fn hemmed_in(pos: GridPos, blockers: Seq<GridPos>, done: Seq<NPCActionType>) -> bool {
    forall|direction: RandomMoveDirection|
        (#[trigger] direction.target(pos)) matches Some(tile) ==> occupied(blockers, done, tile)
}

/// Whether `after` may be the actions of the turn once the idle monster of
/// `request` has had its go after `before`: a monster that is due steps onto
/// one of the free tiles beside it, whichever, and stays where it is only if
/// it is hemmed in.
pub open spec fn wander_step(
    enemies: Seq<EnemyRecord>,
    request: ActorRequest,
    blockers: Seq<GridPos>,
    before: Seq<NPCActionType>,
    after: Seq<NPCActionType>,
) -> bool {
    if is_due(enemies, request) {
        let enemy = enemy_of(enemies, request);
        ||| after == before && hemmed_in(enemy.pos, blockers, before)
        ||| exists|tile: GridPos|
            #[trigger] cardinal_step(enemy.pos, tile) && !occupied(blockers, before, tile) && after
                == before.push(NPCActionType::Move { actor: enemy.entity, x: tile.x, y: tile.y })
    } else {
        after == before
    }
}

/// Whether `after` may be the actions of the turn once the first `k` idle
/// monsters have had their go, one after the other, starting from `start`.
pub open spec fn wandered(
    enemies: Seq<EnemyRecord>,
    idle_actors: Seq<ActorRequest>,
    blockers: Seq<GridPos>,
    start: Seq<NPCActionType>,
    after: Seq<NPCActionType>,
    k: int,
) -> bool
    decreases k,
{
    if k <= 0 {
        after == start
    } else {
        exists|before: Seq<NPCActionType>|
            wandered(enemies, idle_actors, blockers, start, before, k - 1) && #[trigger] wander_step(
                enemies,
                idle_actors[k - 1],
                blockers,
                before,
                after,
            )
    }
}

/// Whether no tile is claimed twice and no blocked tile is claimed: any two
/// moves among `actions` lead to different tiles, none of them to a blocker.
pub open spec fn collision_free(blockers: Seq<GridPos>, actions: Seq<NPCActionType>) -> bool {
    &&& forall|i: int, j: int, p: GridPos|
        0 <= i < j < actions.len() && #[trigger] moves_to(actions[i], p) ==> !#[trigger] moves_to(
            actions[j],
            p,
        )
    &&& forall|i: int, p: GridPos|
        0 <= i < actions.len() && #[trigger] moves_to(actions[i], p) ==> !blockers.contains(p)
}

/// A move onto a tile that is not occupied keeps the actions free of collisions.
pub proof fn lemma_move_keeps_collision_free(
    blockers: Seq<GridPos>,
    actions: Seq<NPCActionType>,
    actor: u64,
    tile: GridPos,
)
    requires
        collision_free(blockers, actions),
        !occupied(blockers, actions, tile),
    ensures
        collision_free(
            blockers,
            actions.push(NPCActionType::Move { actor, x: tile.x, y: tile.y }),
        ),
{
    let grown = actions.push(NPCActionType::Move { actor, x: tile.x, y: tile.y });
    assert forall|i: int, j: int, p: GridPos|
        0 <= i < j < grown.len() && #[trigger] moves_to(grown[i], p) implies !#[trigger] moves_to(
        grown[j],
        p,
    ) by {
        if j < actions.len() {
            assert(grown[i] == actions[i] && grown[j] == actions[j]);
        } else {
            assert(grown[i] == actions[i]);
            if moves_to(grown[j], p) {
                assert(p == tile);
                assert(moves_to(actions[i], tile));
            }
        }
    }
    assert forall|i: int, p: GridPos|
        0 <= i < grown.len() && #[trigger] moves_to(grown[i], p) implies !blockers.contains(p) by {
        if i < actions.len() {
            assert(grown[i] == actions[i]);
        } else {
            assert(p == tile);
        }
    }
}

/// An attack claims no tile, so it keeps the actions free of collisions.
pub proof fn lemma_attack_keeps_collision_free(
    blockers: Seq<GridPos>,
    actions: Seq<NPCActionType>,
    target: u64,
    attacker_name: String,
)
    requires
        collision_free(blockers, actions),
    ensures
        collision_free(blockers, actions.push(NPCActionType::Attack { target, attacker_name })),
{
    let grown = actions.push(NPCActionType::Attack { target, attacker_name });
    assert forall|i: int, j: int, p: GridPos|
        0 <= i < j < grown.len() && #[trigger] moves_to(grown[i], p) implies !#[trigger] moves_to(
        grown[j],
        p,
    ) by {
        if j < actions.len() {
            assert(grown[i] == actions[i] && grown[j] == actions[j]);
        }
    }
    assert forall|i: int, p: GridPos|
        0 <= i < grown.len() && #[trigger] moves_to(grown[i], p) implies !blockers.contains(p) by {
        if i < actions.len() {
            assert(grown[i] == actions[i]);
        }
    }
}

/// No two monsters that go after the player claim the same tile, and none
/// claims a blocked one.
pub proof fn lemma_seek_turn_collision_free(
    player_entity: u64,
    player_pos: GridPos,
    enemies: Seq<EnemyRecord>,
    actors: Seq<ActorRequest>,
    blockers: Seq<GridPos>,
    k: int,
)
    ensures
        collision_free(
            blockers,
            seek_turn(player_entity, player_pos, enemies, actors, blockers, k),
        ),
    decreases k,
{
    if k > 0 {
        lemma_seek_turn_collision_free(player_entity, player_pos, enemies, actors, blockers, k - 1);
        let done = seek_turn(player_entity, player_pos, enemies, actors, blockers, k - 1);
        if is_due(enemies, actors[k - 1]) {
            let enemy = enemy_of(enemies, actors[k - 1]);
            match free_step(enemy.pos, player_pos, |p: GridPos| occupied(blockers, done, p)) {
                None => {},
                Some(dest) => {
                    if dest == player_pos {
                        lemma_attack_keeps_collision_free(blockers, done, player_entity, enemy.name);
                    } else {
                        lemma_move_keeps_collision_free(blockers, done, enemy.entity, dest);
                    }
                },
            }
        }
    }
}

/// Idle monsters that wander claim no tile that is claimed or blocked.
pub proof fn lemma_wandered_collision_free(
    enemies: Seq<EnemyRecord>,
    idle_actors: Seq<ActorRequest>,
    blockers: Seq<GridPos>,
    start: Seq<NPCActionType>,
    after: Seq<NPCActionType>,
    k: int,
)
    requires
        collision_free(blockers, start),
        wandered(enemies, idle_actors, blockers, start, after, k),
    ensures
        collision_free(blockers, after),
    decreases k,
{
    if k > 0 {
        let before = choose|before: Seq<NPCActionType>|
            wandered(enemies, idle_actors, blockers, start, before, k - 1) && #[trigger] wander_step(
                enemies,
                idle_actors[k - 1],
                blockers,
                before,
                after,
            );
        lemma_wandered_collision_free(enemies, idle_actors, blockers, start, before, k - 1);
        if is_due(enemies, idle_actors[k - 1]) && after != before {
            let enemy = enemy_of(enemies, idle_actors[k - 1]);
            let tile = choose|tile: GridPos|
                #[trigger] cardinal_step(enemy.pos, tile) && !occupied(blockers, before, tile)
                    && after == before.push(
                    NPCActionType::Move { actor: enemy.entity, x: tile.x, y: tile.y },
                );
            lemma_move_keeps_collision_free(blockers, before, enemy.entity, tile);
        }
    }
}

/// Whatever the monsters do in one turn, no two of them move onto the same
/// tile and none moves onto a blocked tile.
pub proof fn lemma_turn_is_collision_free(
    player_entity: u64,
    player_pos: GridPos,
    enemies: Seq<EnemyRecord>,
    actors: Seq<ActorRequest>,
    idle_actors: Seq<ActorRequest>,
    blockers: Seq<GridPos>,
    to_move: Seq<NPCActionType>,
)
    requires
        wandered(
            enemies,
            idle_actors,
            blockers,
            seek_turn(player_entity, player_pos, enemies, actors, blockers, actors.len() as int),
            to_move,
            idle_actors.len() as int,
        ),
    ensures
        collision_free(blockers, to_move),
        forall|i: int, j: int|
            0 <= i < j < to_move.len() ==> !(#[trigger] to_move[i] matches NPCActionType::Move {
                x: x1,
                y: y1,
                ..
            } && #[trigger] to_move[j] matches NPCActionType::Move { x: x2, y: y2, .. } && x1 == x2
                && y1 == y2),
{
    lemma_seek_turn_collision_free(
        player_entity,
        player_pos,
        enemies,
        actors,
        blockers,
        actors.len() as int,
    );
    lemma_wandered_collision_free(
        enemies,
        idle_actors,
        blockers,
        seek_turn(player_entity, player_pos, enemies, actors, blockers, actors.len() as int),
        to_move,
        idle_actors.len() as int,
    );
    assert forall|i: int, j: int| 0 <= i < j < to_move.len() implies !(
    #[trigger] to_move[i] matches NPCActionType::Move { x: x1, y: y1, .. }
        && #[trigger] to_move[j] matches NPCActionType::Move { x: x2, y: y2, .. } && x1 == x2 && y1
        == y2) by {
        if let NPCActionType::Move { x, y, .. } = to_move[i] {
            let p = GridPos { x, y };
            assert(moves_to(to_move[i], p));
            assert(!moves_to(to_move[j], p));
        }
    }
}

/// After the turn of the monsters no request is left open: every request
/// has become a success, and nothing has become a request.
pub proof fn lemma_turn_answers_requests(request: ActorRequest)
    ensures
        answered(request).state != ActionState::Requested,
        request.state == ActionState::Requested ==> answered(request).state == ActionState::Success,
        answered(request).actor == request.actor,
{
}

/// The tile that the monster at `pos` steps onto when it turns in
/// `direction`, if the grid reaches that far and the tile is not occupied.
pub fn try_direction(
    pos: GridPos,
    direction: RandomMoveDirection,
    blockers: &Vec<GridPos>,
    to_move: &Vec<NPCActionType>,
) -> (step: Option<GridPos>)
    ensures
        step == match direction.target(pos) {
            Some(tile) => if occupied(blockers@, to_move@, tile) {
                None
            } else {
                Some(tile)
            },
            None => None,
        },
{
    match direction.step_from(pos) {
        Some(new_pos) => {
            if !is_blocked(blockers, new_pos) && !is_claimed(to_move, new_pos) {
                Some(new_pos)
            } else {
                None
            }
        },
        None => None,
    }
}

/// Where an idle monster at `pos` wanders: the directions are tried in a
/// random order, each once, and the first free tile is taken. The monster
/// stays only if none of the four is free.
pub fn wander(pos: GridPos, blockers: &Vec<GridPos>, to_move: &Vec<NPCActionType>) -> (step: Option<
    GridPos,
>)
    ensures
        match step {
            Some(tile) => cardinal_step(pos, tile) && !occupied(blockers@, to_move@, tile),
            None => hemmed_in(pos, blockers@, to_move@),
        },
{
    let mut possible_tries: Vec<u32> = Vec::new();
    possible_tries.push(0);
    possible_tries.push(1);
    possible_tries.push(2);
    possible_tries.push(3);
    assert(possible_tries@[0] == 0 && possible_tries@[1] == 1 && possible_tries@[2] == 2
        && possible_tries@[3] == 3);
    while possible_tries.len() > 0
        invariant
            forall|k: int| 0 <= k < possible_tries@.len() ==> #[trigger] possible_tries@[k] <= 3,
            forall|n: u32|
                n <= 3 ==> possible_tries@.contains(n) || (#[trigger] RandomMoveDirection::of_index(
                    n as int,
                ).target(pos) matches Some(tile) ==> occupied(blockers@, to_move@, tile)),
        decreases possible_tries@.len(),
    {
        let pick = random_index(possible_tries.len());
        let ghost left = possible_tries@;
        let number = possible_tries.remove(pick);
        let move_direction = RandomMoveDirection::from_index(number);
        match try_direction(pos, move_direction, blockers, to_move) {
            Some(new_pos) => {
                assert(move_direction.target(pos) == Some(new_pos));
                return Some(new_pos);
            },
            None => {},
        }
        proof {
            assert forall|n: u32| n <= 3 implies possible_tries@.contains(n) || (
            #[trigger] RandomMoveDirection::of_index(n as int).target(pos) matches Some(tile)
                ==> occupied(blockers@, to_move@, tile)) by {
                if n != number && left.contains(n) {
                    let w = choose|w: int| 0 <= w < left.len() && left[w] == n;
                    if w < pick {
                        assert(possible_tries@[w] == n);
                    } else {
                        assert(possible_tries@[w - 1] == n);
                    }
                }
            }
        }
    }
    proof {
        assert forall|direction: RandomMoveDirection|
            (#[trigger] direction.target(pos)) matches Some(tile) ==> occupied(
                blockers@,
                to_move@,
                tile,
            ) by {
            let n: u32 = match direction {
                RandomMoveDirection::Up => 0,
                RandomMoveDirection::Right => 1,
                RandomMoveDirection::Down => 2,
                RandomMoveDirection::Left => 3,
            };
            assert(RandomMoveDirection::of_index(n as int) == direction);
            assert(!possible_tries@.contains(n));
        }
    }
    None
}

proof fn lemma_free_step_agrees(
    npc: GridPos,
    player: GridPos,
    f: spec_fn(GridPos) -> bool,
    g: spec_fn(GridPos) -> bool,
)
    requires
        forall|p: GridPos| lined_up(npc, p) ==> #[trigger] f(p) == g(p),
    ensures
        free_step(npc, player, f) == free_step(npc, player, g),
{
    let right = GridPos { x: (npc.x + 1) as i32, y: npc.y };
    let left = GridPos { x: (npc.x - 1) as i32, y: npc.y };
    let up = GridPos { x: npc.x, y: (npc.y + 1) as i32 };
    let down = GridPos { x: npc.x, y: (npc.y - 1) as i32 };
    if player.x > npc.x {
        assert(lined_up(npc, right));
        assert(f(right) == g(right));
    }
    if player.x < npc.x {
        assert(lined_up(npc, left));
        assert(f(left) == g(left));
    }
    if player.y > npc.y {
        assert(lined_up(npc, up));
        assert(f(up) == g(up));
    }
    if player.y < npc.y {
        assert(lined_up(npc, down));
        assert(f(down) == g(down));
    }
}

/// Decides the turn of the monsters. The monsters that go after the player
/// come first, in their order, then the idle ones; each decides knowing what
/// those before it do, so a tile that one has claimed is taken for the next.
/// A monster that goes after the player steps towards it, or attacks it when
/// the step would lead onto the player's tile. An idle monster steps onto a
/// free tile beside it, picked at random. Every request is answered, whether
/// its monster could do anything or not, and even if the monster is gone, so
/// that no request is left open after the turn. No tile is claimed twice and
/// no blocked tile is claimed.
pub fn enemy_turn(
    player_entity: u64,
    player_pos: GridPos,
    enemies: &Vec<EnemyRecord>,
    actors: &mut Vec<ActorRequest>,
    idle_actors: &mut Vec<ActorRequest>,
    blockers: &Vec<GridPos>,
) -> (to_move: Vec<NPCActionType>)
    ensures
        final(actors)@.len() == old(actors)@.len(),
        forall|i: int|
            0 <= i < old(actors)@.len() ==> #[trigger] final(actors)@[i] == answered(old(actors)@[i]),
        final(idle_actors)@.len() == old(idle_actors)@.len(),
        forall|i: int|
            0 <= i < old(idle_actors)@.len() ==> #[trigger] final(idle_actors)@[i] == answered(old(idle_actors)@[i]),
        wandered(
            enemies@,
            old(idle_actors)@,
            blockers@,
            seek_turn(
                player_entity,
                player_pos,
                enemies@,
                old(actors)@,
                blockers@,
                old(actors)@.len() as int,
            ),
            to_move@,
            old(idle_actors)@.len() as int,
        ),
        collision_free(blockers@, to_move@),
{
    let mut to_move: Vec<NPCActionType> = Vec::new();
    let mut i: usize = 0;
    while i < actors.len()
        invariant
            i <= actors@.len(),
            actors@.len() == old(actors)@.len(),
            forall|k: int| 0 <= k < i ==> #[trigger] actors@[k] == answered(old(actors)@[k]),
            forall|k: int| i <= k < actors@.len() ==> #[trigger] actors@[k] == old(actors)@[k],
            to_move@ == seek_turn(
                player_entity,
                player_pos,
                enemies@,
                old(actors)@,
                blockers@,
                i as int,
            ),
        decreases actors@.len() - i,
    {
        let request = actors[i];
        match request.state {
            ActionState::Requested => {
                if let Some(found) = find_enemy(enemies, request.actor) {
                    let npc = &enemies[found];
                    let possible = possible_blockers(npc.pos, blockers, &to_move);
                    proof {
                        lemma_free_step_agrees(
                            npc.pos,
                            player_pos,
                            |p: GridPos| possible@.contains(p),
                            |p: GridPos| occupied(blockers@, to_move@, p),
                        );
                    }
                    match resolve_position(npc.pos, player_pos, &possible) {
                        None => {},
                        Some(future_pos) => {
                            if future_pos == player_pos {
                                to_move.push(
                                    NPCActionType::Attack {
                                        target: player_entity,
                                        attacker_name: npc.name.clone(),
                                    },
                                );
                            } else {
                                to_move.push(
                                    NPCActionType::Move {
                                        actor: npc.entity,
                                        x: future_pos.x,
                                        y: future_pos.y,
                                    },
                                );
                            }
                        },
                    }
                }
                actors.set(i, ActorRequest { actor: request.actor, state: ActionState::Success });
            },
            _ => {},
        }
        i += 1;
    }
    let ghost sought = to_move@;
    proof {
        lemma_seek_turn_collision_free(
            player_entity,
            player_pos,
            enemies@,
            old(actors)@,
            blockers@,
            old(actors)@.len() as int,
        );
    }
    let mut j: usize = 0;
    while j < idle_actors.len()
        invariant
            j <= idle_actors@.len(),
            idle_actors@.len() == old(idle_actors)@.len(),
            forall|k: int|
                0 <= k < j ==> #[trigger] idle_actors@[k] == answered(old(idle_actors)@[k]),
            forall|k: int|
                j <= k < idle_actors@.len() ==> #[trigger] idle_actors@[k] == old(idle_actors)@[k],
            wandered(enemies@, old(idle_actors)@, blockers@, sought, to_move@, j as int),
        decreases idle_actors@.len() - j,
    {
        let request = idle_actors[j];
        let ghost before = to_move@;
        match request.state {
            ActionState::Requested => {
                if let Some(found) = find_enemy(enemies, request.actor) {
                    let npc = &enemies[found];
                    match wander(npc.pos, blockers, &to_move) {
                        Some(new_pos) => {
                            to_move.push(
                                NPCActionType::Move {
                                    actor: request.actor,
                                    x: new_pos.x,
                                    y: new_pos.y,
                                },
                            );
                            proof {
                                let enemy = enemy_of(enemies@, request);
                                assert(enemy == enemies@[found as int]);
                                assert(cardinal_step(enemy.pos, new_pos));
                                assert(to_move@ == before.push(
                                    NPCActionType::Move {
                                        actor: enemy.entity,
                                        x: new_pos.x,
                                        y: new_pos.y,
                                    },
                                ));
                            }
                        },
                        None => {},
                    }
                }
                idle_actors.set(
                    j,
                    ActorRequest { actor: request.actor, state: ActionState::Success },
                );
            },
            _ => {},
        }
        proof {
            assert(wander_step(enemies@, old(idle_actors)@[j as int], blockers@, before, to_move@));
            assert(wandered(enemies@, old(idle_actors)@, blockers@, sought, before, j + 1 - 1));
            assert(wander_step(
                enemies@,
                old(idle_actors)@[j + 1 - 1],
                blockers@,
                before,
                to_move@,
            ));
            assert(wandered(enemies@, old(idle_actors)@, blockers@, sought, to_move@, j + 1));
        }
        j += 1;
    }
    proof {
        lemma_wandered_collision_free(
            enemies@,
            old(idle_actors)@,
            blockers@,
            sought,
            to_move@,
            old(idle_actors)@.len() as int,
        );
    }
    to_move
}

/// Where everything stands once the first `k` of `actions` are carried out:
/// every move puts its actor on its tile.
pub open spec fn positions_after(placed: Seq<Positioned>, actions: Seq<NPCActionType>, k: int) -> Seq<
    Positioned,
>
    decreases k,
{
    if k <= 0 {
        placed
    } else {
        let done = positions_after(placed, actions, k - 1);
        match actions[k - 1] {
            NPCActionType::Move { actor, x, y } => put(done, actor, GridPos { x, y }),
            NPCActionType::Attack { .. } => done,
        }
    }
}

/// The health of everyone once the first `k` of `actions` are carried out:
/// every attack takes one from the health of its target. An attack on a
/// target that is gone hurts nobody.
pub open spec fn targets_after(living: Seq<Living>, actions: Seq<NPCActionType>, k: int) -> Seq<
    Living,
>
    decreases k,
{
    if k <= 0 {
        living
    } else {
        let done = targets_after(living, actions, k - 1);
        match actions[k - 1] {
            NPCActionType::Move { .. } => done,
            NPCActionType::Attack { target, .. } => hurt(done, target, 1),
        }
    }
}

/// What the log is told once the first `k` of `actions` are carried out: one
/// event for every attack that found its target, in the order of the attacks.
pub open spec fn log_after(living: Seq<Living>, actions: Seq<NPCActionType>, k: int) -> Seq<
    LogEvent,
>
    decreases k,
{
    if k <= 0 {
        Seq::empty()
    } else {
        let done = log_after(living, actions, k - 1);
        match actions[k - 1] {
            NPCActionType::Move { .. } => done,
            NPCActionType::Attack { target, attacker_name } => if living_ids(living).index_of_first(
                target,
            ) is Some {
                done.push(
                    LogEvent::NPCAttackPlayer {
                        attacker: crate::systems::ui::EventTarget::Npc(attacker_name),
                        damage: 1,
                    },
                )
            } else {
                done
            },
        }
    }
}

/// The targets that were gone when they were attacked, once the first `k` of
/// `actions` are carried out: one entry for every attack that found nobody,
/// in the order of the attacks.
pub open spec fn stale_after(living: Seq<Living>, actions: Seq<NPCActionType>, k: int) -> Seq<u64>
    decreases k,
{
    if k <= 0 {
        Seq::empty()
    } else {
        let done = stale_after(living, actions, k - 1);
        match actions[k - 1] {
            NPCActionType::Move { .. } => done,
            NPCActionType::Attack { target, .. } => if living_ids(living).index_of_first(target)
                is Some {
                done
            } else {
                done.push(target)
            },
        }
    }
}

/// Whether every move of `actions` has its actor among `placed`.
pub open spec fn movers_are_there(placed: Seq<Positioned>, actions: Seq<NPCActionType>) -> bool {
    forall|i: int|
        0 <= i < actions.len() ==> (#[trigger] actions[i] matches NPCActionType::Move { actor, .. }
            ==> positioned_ids(placed).index_of_first(actor) is Some)
}

/// Whether `action` is an attack on `target`.
pub open spec fn attacks(action: NPCActionType, target: u64) -> bool {
    action matches NPCActionType::Attack { target: hit, .. } && hit == target
}

/// How many of `actions`, from the one at `from` on, are attacks on `target`.
pub open spec fn attacks_on(actions: Seq<NPCActionType>, from: int, target: u64) -> int
    decreases actions.len() - from,
{
    if from < 0 || from >= actions.len() {
        0
    } else if attacks(actions[from], target) {
        1 + attacks_on(actions, from + 1, target)
    } else {
        attacks_on(actions, from + 1, target)
    }
}

/// Whether the health of every target has room for the attacks on it that
/// `actions` holds from the one at `from` on. Only the one that an attack
/// hits is asked: the first of `living` with the entity of the target.
pub open spec fn can_take(living: Seq<Living>, actions: Seq<NPCActionType>, from: int) -> bool {
    forall|i: int|
        0 <= i < living.len() && living_ids(living).index_of_first((#[trigger] living[i]).entity)
            == Some(i) ==> living[i].health.current - attacks_on(actions, from, living[i].entity)
            >= i32::MIN
}

proof fn lemma_attacks_on_is_count(actions: Seq<NPCActionType>, from: int, target: u64)
    ensures
        attacks_on(actions, from, target) >= 0,
    decreases actions.len() - from,
{
    if 0 <= from < actions.len() {
        lemma_attacks_on_is_count(actions, from + 1, target);
    }
}

proof fn lemma_targets_keep_ids(living: Seq<Living>, actions: Seq<NPCActionType>, k: int)
    ensures
        living_ids(targets_after(living, actions, k)) == living_ids(living),
    decreases k,
{
    if k > 0 {
        lemma_targets_keep_ids(living, actions, k - 1);
        match actions[k - 1] {
            NPCActionType::Move { .. } => {},
            NPCActionType::Attack { target, .. } => {
                lemma_hurt_keeps_ids(targets_after(living, actions, k - 1), target, 1);
            },
        }
    }
}

proof fn lemma_positions_keep_ids(placed: Seq<Positioned>, actions: Seq<NPCActionType>, k: int)
    ensures
        positioned_ids(positions_after(placed, actions, k)) == positioned_ids(placed),
    decreases k,
{
    if k > 0 {
        lemma_positions_keep_ids(placed, actions, k - 1);
        match actions[k - 1] {
            NPCActionType::Move { actor, x, y } => {
                lemma_put_keeps_ids(positions_after(placed, actions, k - 1), actor, GridPos { x, y });
            },
            NPCActionType::Attack { .. } => {},
        }
    }
}

/// What carrying out the actions of the monsters has brought about.
#[derive(Debug, Clone, PartialEq, Eq)]
pub struct TurnOutcome {
    /// Whose turn it is next.
    pub next: GameState,
    /// What the log is told: one event for every attack that hit.
    pub log: Vec<LogEvent>,
    /// The targets of the attacks that found nobody, to be reported.
    pub stale: Vec<u64>,
}

/// Carries out what the monsters have decided, action by action: a move puts
/// its actor on its tile, an attack takes one from the health of its target
/// and is told to the log. An attack on a target that is gone changes
/// nothing and is handed back to be reported; the actions after it are
/// carried out all the same. Then it is the player's turn.
pub fn enemy_move(
    to_move: Vec<NPCActionType>,
    q: &mut Vec<Positioned>,
    targets: &mut Vec<Living>,
) -> (outcome: TurnOutcome)
    requires
        movers_are_there(old(q)@, to_move@),
        can_take(old(targets)@, to_move@, 0),
    ensures
        outcome.next == GameState::PlayerTurn,
        final(q)@ == positions_after(old(q)@, to_move@, to_move@.len() as int),
        final(targets)@ == targets_after(old(targets)@, to_move@, to_move@.len() as int),
        outcome.log@ == log_after(old(targets)@, to_move@, to_move@.len() as int),
        outcome.stale@ == stale_after(old(targets)@, to_move@, to_move@.len() as int),
{
    let mut log: Vec<LogEvent> = Vec::new();
    let mut stale: Vec<u64> = Vec::new();
    let mut i: usize = 0;
    while i < to_move.len()
        invariant
            i <= to_move@.len(),
            movers_are_there(old(q)@, to_move@),
            q@ == positions_after(old(q)@, to_move@, i as int),
            targets@ == targets_after(old(targets)@, to_move@, i as int),
            log@ == log_after(old(targets)@, to_move@, i as int),
            stale@ == stale_after(old(targets)@, to_move@, i as int),
            can_take(targets@, to_move@, i as int),
        decreases to_move@.len() - i,
    {
        let ghost before = targets@;
        proof {
            lemma_positions_keep_ids(old(q)@, to_move@, i as int);
            lemma_targets_keep_ids(old(targets)@, to_move@, i as int);
        }
        match &to_move[i] {
            NPCActionType::Move { actor, x, y } => {
                let found = find_positioned(q, *actor);
                match found {
                    Some(index) => {
                        let entity = q[index].entity;
                        q.set(index, Positioned { entity, pos: GridPos::new(*x, *y) });
                    },
                    None => {
                        assert(false);
                    },
                }
            },
            NPCActionType::Attack { target, attacker_name } => {
                match find_living(targets, *target) {
                    Some(index) => {
                        let hit = targets[index];
                        proof {
                            lemma_attacks_on_is_count(to_move@, i + 1, *target);
                            assert(attacks(to_move@[i as int], *target));
                        }
                        targets.set(
                            index,
                            Living {
                                entity: hit.entity,
                                health: crate::components::Health {
                                    current: hit.health.current - 1,
                                    max: hit.health.max,
                                    min: hit.health.min,
                                },
                            },
                        );
                        log.push(LogEvent::npc_attacks_player(attacker_name.clone(), 1));
                        proof {
                            assert(targets@ == hurt(before, *target, 1));
                            lemma_hurt_keeps_ids(before, *target, 1);
                        }
                    },
                    None => {
                        stale.push(*target);
                    },
                }
            },
        }
        proof {
            assert(living_ids(targets@) == living_ids(before));
            assert forall|k: int|
                0 <= k < targets@.len() && living_ids(targets@).index_of_first(
                    (#[trigger] targets@[k]).entity,
                ) == Some(k) implies targets@[k].health.current - attacks_on(
                to_move@,
                i + 1,
                targets@[k].entity,
            ) >= i32::MIN by {
                assert(living_ids(before)[k] == before[k].entity);
                assert(living_ids(targets@)[k] == targets@[k].entity);
                assert(before[k].health.current - attacks_on(to_move@, i as int, before[k].entity)
                    >= i32::MIN);
            }
        }
        i += 1;
    }
    TurnOutcome { next: GameState::PlayerTurn, log, stale }
}

} // verus!
