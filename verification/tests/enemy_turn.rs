use lonely_wanderer::ai::{ActionState, ActorRequest};
use lonely_wanderer::components::Health;
use lonely_wanderer::position::GridPos;
use lonely_wanderer::resources::GameState;
use lonely_wanderer::systems::enemy::{
    enemy_move, enemy_turn, find_enemy, is_blocked, is_claimed, possible_blockers,
    resolve_position, try_direction, wander, EnemyRecord, NPCActionType, RandomMoveDirection,
};
use lonely_wanderer::systems::ui::LogEvent;
use lonely_wanderer::systems::{Living, Positioned};

const PLAYER: u64 = 1;

fn enemy(entity: u64, x: i32, y: i32) -> EnemyRecord {
    EnemyRecord {
        entity,
        pos: GridPos::new(x, y),
        name: format!("monster {}", entity),
    }
}

fn requested(actor: u64) -> ActorRequest {
    ActorRequest {
        actor,
        state: ActionState::Requested,
    }
}

fn move_to(actor: u64, x: i32, y: i32) -> NPCActionType {
    NPCActionType::Move { actor, x, y }
}

#[test]
fn a_step_goes_right_first() {
    let npc = GridPos::new(0, 0);
    // the player is to the right and above: right is tried first
    assert_eq!(
        resolve_position(npc, GridPos::new(5, 5), &vec![]),
        Some(GridPos::new(1, 0))
    );
    assert_eq!(
        resolve_position(npc, GridPos::new(-5, 5), &vec![]),
        Some(GridPos::new(-1, 0))
    );
    assert_eq!(
        resolve_position(npc, GridPos::new(0, 5), &vec![]),
        Some(GridPos::new(0, 1))
    );
    assert_eq!(
        resolve_position(npc, GridPos::new(0, -5), &vec![]),
        Some(GridPos::new(0, -1))
    );
}

#[test]
fn a_blocked_step_falls_through_to_the_next_direction() {
    let npc = GridPos::new(0, 0);
    let player = GridPos::new(5, 5);
    let right_blocked = vec![GridPos::new(1, 0)];
    assert_eq!(
        resolve_position(npc, player, &right_blocked),
        Some(GridPos::new(0, 1))
    );
    let both_blocked = vec![GridPos::new(1, 0), GridPos::new(0, 1)];
    assert_eq!(resolve_position(npc, player, &both_blocked), None);
    // a monster never steps away from the player
    let player = GridPos::new(5, 0);
    assert_eq!(resolve_position(npc, player, &right_blocked), None);
}

#[test]
fn no_step_on_the_tile_of_the_player() {
    let here = GridPos::new(3, 3);
    assert_eq!(resolve_position(here, here, &vec![]), None);
}

#[test]
fn a_step_at_the_edge_of_the_grid() {
    let npc = GridPos::new(i32::MAX - 1, i32::MIN + 1);
    let player = GridPos::new(i32::MAX, i32::MIN);
    assert_eq!(
        resolve_position(npc, player, &vec![]),
        Some(GridPos::new(i32::MAX, i32::MIN + 1))
    );
    let blocked = vec![GridPos::new(i32::MAX, i32::MIN + 1)];
    assert_eq!(
        resolve_position(npc, player, &blocked),
        Some(GridPos::new(i32::MAX - 1, i32::MIN))
    );
}

#[test]
fn blocked_and_claimed_tiles() {
    let blockers = vec![GridPos::new(1, 1), GridPos::new(2, 2)];
    assert!(is_blocked(&blockers, GridPos::new(2, 2)));
    assert!(!is_blocked(&blockers, GridPos::new(2, 1)));
    let actions = vec![
        NPCActionType::Attack {
            target: PLAYER,
            attacker_name: "a".to_string(),
        },
        move_to(7, 4, 5),
    ];
    assert!(is_claimed(&actions, GridPos::new(4, 5)));
    assert!(!is_claimed(&actions, GridPos::new(5, 4)));
    assert!(!is_claimed(&vec![], GridPos::new(4, 5)));
}

#[test]
fn what_may_stand_in_the_way() {
    let npc = GridPos::new(0, 0);
    let blockers = vec![
        GridPos::new(1, 0),
        GridPos::new(5, 5),
        GridPos::new(7, -1),
        GridPos::new(0, 0),
    ];
    let actions = vec![move_to(9, 20, 20)];
    let possible = possible_blockers(npc, &blockers, &actions);
    assert!(possible.contains(&GridPos::new(1, 0)));
    // in the row below the monster
    assert!(possible.contains(&GridPos::new(7, -1)));
    // neither in a column nor in a row next to the monster
    assert!(!possible.contains(&GridPos::new(5, 5)));
    assert!(!possible.contains(&GridPos::new(0, 0)));
    // claims count wherever they are
    assert!(possible.contains(&GridPos::new(20, 20)));
}

#[test]
fn find_enemy_takes_the_first() {
    let enemies = vec![enemy(4, 0, 0), enemy(5, 1, 1), enemy(4, 2, 2)];
    assert_eq!(find_enemy(&enemies, 4), Some(0));
    assert_eq!(find_enemy(&enemies, 5), Some(1));
    assert_eq!(find_enemy(&enemies, 6), None);
}

#[test]
fn a_monster_moves_towards_the_player() {
    let enemies = vec![enemy(10, 5, 0)];
    let mut actors = vec![requested(10)];
    let mut idle = vec![];
    let actions = enemy_turn(
        PLAYER,
        GridPos::new(0, 0),
        &enemies,
        &mut actors,
        &mut idle,
        &vec![],
    );
    assert_eq!(actions, vec![move_to(10, 4, 0)]);
    assert_eq!(actors[0].state, ActionState::Success);
}

#[test]
fn a_monster_next_to_the_player_attacks() {
    let enemies = vec![enemy(10, 1, 0)];
    let mut actors = vec![requested(10)];
    let mut idle = vec![];
    let actions = enemy_turn(
        PLAYER,
        GridPos::new(0, 0),
        &enemies,
        &mut actors,
        &mut idle,
        &vec![GridPos::new(1, 0)],
    );
    assert_eq!(
        actions,
        vec![NPCActionType::Attack {
            target: PLAYER,
            attacker_name: "monster 10".to_string()
        }]
    );
    assert_eq!(actors[0].state, ActionState::Success);
}

#[test]
fn the_earlier_monster_gets_the_tile() {
    // both want (1, 0); the second has to go another way
    let enemies = vec![enemy(10, 2, 0), enemy(11, 1, 1)];
    let blockers = vec![GridPos::new(2, 0), GridPos::new(1, 1)];
    let mut actors = vec![requested(10), requested(11)];
    let mut idle = vec![];
    let actions = enemy_turn(
        PLAYER,
        GridPos::new(0, 0),
        &enemies,
        &mut actors,
        &mut idle,
        &blockers,
    );
    // the second monster is right of the player and above it: left is tried
    // first and is free, so it goes to (0, 1)
    assert_eq!(actions, vec![move_to(10, 1, 0), move_to(11, 0, 1)]);

    let enemies = vec![enemy(10, 2, 0), enemy(11, 1, 1)];
    let mut actors = vec![requested(11), requested(10)];
    let actions = enemy_turn(
        PLAYER,
        GridPos::new(0, 0),
        &enemies,
        &mut actors,
        &mut idle,
        &blockers,
    );
    assert_eq!(actions, vec![move_to(11, 0, 1), move_to(10, 1, 0)]);
}

#[test]
fn a_claimed_tile_blocks_the_next_monster() {
    // two monsters in a row, both left of the player: the first steps
    // right, the second cannot follow onto the tile where the first stands
    // but may not claim the tile that the first has claimed either
    let enemies = vec![enemy(10, -2, 0), enemy(11, -2, 1)];
    let blockers = vec![GridPos::new(-2, 0), GridPos::new(-2, 1)];
    let mut actors = vec![requested(10), requested(11)];
    let mut idle = vec![];
    let player = GridPos::new(-1, -5);
    let actions = enemy_turn(PLAYER, player, &enemies, &mut actors, &mut idle, &blockers);
    // first: right to (-1, 0). second: right to (-1, 1) is free
    assert_eq!(actions, vec![move_to(10, -1, 0), move_to(11, -1, 1)]);

    let enemies = vec![enemy(10, -2, 0), enemy(11, -1, 1)];
    let blockers = vec![GridPos::new(-2, 0), GridPos::new(-1, 1)];
    let mut actors = vec![requested(10), requested(11)];
    let actions = enemy_turn(PLAYER, player, &enemies, &mut actors, &mut idle, &blockers);
    // second: the player is straight below, but (-1, 0) is claimed
    assert_eq!(actions, vec![move_to(10, -1, 0)]);
    assert_eq!(actors[1].state, ActionState::Success);
}

#[test]
fn a_monster_that_cannot_move_still_succeeds() {
    let enemies = vec![enemy(10, 3, 0)];
    let blockers = vec![GridPos::new(2, 0)];
    let mut actors = vec![requested(10)];
    let mut idle = vec![];
    let actions = enemy_turn(
        PLAYER,
        GridPos::new(0, 0),
        &enemies,
        &mut actors,
        &mut idle,
        &blockers,
    );
    assert!(actions.is_empty());
    assert_eq!(actors[0].state, ActionState::Success);
}

#[test]
fn every_request_is_answered_and_nothing_else() {
    let enemies = vec![enemy(10, 3, 0)];
    let mut actors = vec![
        ActorRequest { actor: 10, state: ActionState::Executing },
        ActorRequest { actor: 10, state: ActionState::Init },
        // the monster of this request is gone
        requested(99),
        requested(10),
    ];
    let mut idle = vec![requested(98), ActorRequest { actor: 10, state: ActionState::Failure }];
    let actions = enemy_turn(
        PLAYER,
        GridPos::new(0, 0),
        &enemies,
        &mut actors,
        &mut idle,
        &vec![],
    );
    // only the live monster with a request acts
    assert_eq!(actions, vec![move_to(10, 2, 0)]);
    assert_eq!(actors[0].state, ActionState::Executing);
    assert_eq!(actors[1].state, ActionState::Init);
    assert_eq!(actors[2].state, ActionState::Success);
    assert_eq!(actors[3].state, ActionState::Success);
    assert_eq!(idle[0].state, ActionState::Success);
    assert_eq!(idle[1].state, ActionState::Failure);
    assert_eq!(actors[2].actor, 99);
}

#[test]
fn directions_by_number() {
    assert_eq!(RandomMoveDirection::from_index(0), RandomMoveDirection::Up);
    assert_eq!(RandomMoveDirection::from_index(1), RandomMoveDirection::Right);
    assert_eq!(RandomMoveDirection::from_index(2), RandomMoveDirection::Down);
    assert_eq!(RandomMoveDirection::from_index(3), RandomMoveDirection::Left);
    let pos = GridPos::new(0, 0);
    assert_eq!(RandomMoveDirection::Up.step_from(pos), Some(GridPos::new(0, 1)));
    assert_eq!(RandomMoveDirection::Right.step_from(pos), Some(GridPos::new(1, 0)));
    assert_eq!(RandomMoveDirection::Down.step_from(pos), Some(GridPos::new(0, -1)));
    assert_eq!(RandomMoveDirection::Left.step_from(pos), Some(GridPos::new(-1, 0)));
    let corner = GridPos::new(i32::MAX, i32::MIN);
    assert_eq!(RandomMoveDirection::Right.step_from(corner), None);
    assert_eq!(RandomMoveDirection::Down.step_from(corner), None);
    assert_eq!(
        RandomMoveDirection::Up.step_from(corner),
        Some(GridPos::new(i32::MAX, i32::MIN + 1))
    );
}

#[test]
fn a_direction_is_tried() {
    let pos = GridPos::new(0, 0);
    let blockers = vec![GridPos::new(0, 1)];
    let actions = vec![move_to(3, 1, 0)];
    assert_eq!(try_direction(pos, RandomMoveDirection::Up, &blockers, &actions), None);
    assert_eq!(try_direction(pos, RandomMoveDirection::Right, &blockers, &actions), None);
    assert_eq!(
        try_direction(pos, RandomMoveDirection::Down, &blockers, &actions),
        Some(GridPos::new(0, -1))
    );
    assert_eq!(
        try_direction(pos, RandomMoveDirection::Left, &blockers, &actions),
        Some(GridPos::new(-1, 0))
    );
}

#[test]
fn wandering_takes_a_free_neighbour() {
    let pos = GridPos::new(0, 0);
    let mut seen = std::collections::HashSet::new();
    for _ in 0..200 {
        let step = wander(pos, &vec![], &vec![]).expect("all four are free");
        assert_eq!((step.x - pos.x).abs() + (step.y - pos.y).abs(), 1);
        seen.insert((step.x, step.y));
    }
    // every direction comes up
    assert_eq!(seen.len(), 4);
}

#[test]
fn wandering_finds_the_only_free_tile() {
    let pos = GridPos::new(0, 0);
    let blockers = vec![GridPos::new(0, 1), GridPos::new(1, 0)];
    let actions = vec![move_to(3, 0, -1)];
    for _ in 0..50 {
        assert_eq!(wander(pos, &blockers, &actions), Some(GridPos::new(-1, 0)));
    }
}

#[test]
fn a_hemmed_in_monster_stays() {
    let pos = GridPos::new(0, 0);
    let blockers = vec![
        GridPos::new(0, 1),
        GridPos::new(1, 0),
        GridPos::new(0, -1),
        GridPos::new(-1, 0),
    ];
    assert_eq!(wander(pos, &blockers, &vec![]), None);
    // at the corner of the grid two ways do not exist
    let corner = GridPos::new(i32::MIN, i32::MAX);
    let blockers = vec![GridPos::new(i32::MIN + 1, i32::MAX), GridPos::new(i32::MIN, i32::MAX - 1)];
    assert_eq!(wander(corner, &blockers, &vec![]), None);
}

#[test]
fn idle_monsters_wander_without_collisions() {
    for _ in 0..100 {
        // four idle monsters around one free tile, and a seeker
        let enemies = vec![
            enemy(20, 0, 1),
            enemy(21, 1, 0),
            enemy(22, 0, -1),
            enemy(23, -1, 0),
            enemy(10, 5, 5),
        ];
        let blockers: Vec<GridPos> = enemies.iter().map(|e| e.pos).collect();
        let mut actors = vec![requested(10)];
        let mut idle = vec![requested(20), requested(21), requested(22), requested(23)];
        let actions = enemy_turn(
            PLAYER,
            GridPos::new(9, 9),
            &enemies,
            &mut actors,
            &mut idle,
            &blockers,
        );
        assert_eq!(actions.len(), 5);
        assert_eq!(actions[0], move_to(10, 6, 5));
        let mut claimed = std::collections::HashSet::new();
        for (action, actor) in actions.iter().zip([10u64, 20, 21, 22, 23]) {
            match action {
                NPCActionType::Move { actor: who, x, y } => {
                    assert_eq!(*who, actor);
                    let from = enemies.iter().find(|e| e.entity == actor).unwrap().pos;
                    assert_eq!((x - from.x).abs() + (y - from.y).abs(), 1);
                    assert!(!blockers.contains(&GridPos::new(*x, *y)));
                    assert!(claimed.insert((*x, *y)));
                }
                NPCActionType::Attack { .. } => panic!("nobody is next to the player"),
            }
        }
        for request in idle.iter() {
            assert_eq!(request.state, ActionState::Success);
        }
    }
}

#[test]
fn a_hemmed_in_idle_monster_is_answered_too() {
    let enemies = vec![enemy(20, 0, 0)];
    let blockers = vec![
        GridPos::new(0, 0),
        GridPos::new(0, 1),
        GridPos::new(1, 0),
        GridPos::new(0, -1),
        GridPos::new(-1, 0),
    ];
    let mut actors = vec![];
    let mut idle = vec![requested(20)];
    let actions = enemy_turn(
        PLAYER,
        GridPos::new(9, 9),
        &enemies,
        &mut actors,
        &mut idle,
        &blockers,
    );
    assert!(actions.is_empty());
    assert_eq!(idle[0].state, ActionState::Success);
}

#[test]
fn no_request_stays_open_after_the_turn() {
    let enemies = vec![enemy(10, 3, 3), enemy(11, -4, 2), enemy(12, 1, 0), enemy(13, 8, 8)];
    let blockers: Vec<GridPos> = enemies.iter().map(|e| e.pos).collect();
    let mut actors = vec![requested(10), requested(11), requested(12)];
    let mut idle = vec![requested(13)];
    let actions = enemy_turn(
        PLAYER,
        GridPos::new(0, 0),
        &enemies,
        &mut actors,
        &mut idle,
        &blockers,
    );
    for request in actors.iter().chain(idle.iter()) {
        assert_eq!(request.state, ActionState::Success);
    }
    assert_eq!(actions.len(), 4);
    assert_eq!(
        actions[2],
        NPCActionType::Attack { target: PLAYER, attacker_name: "monster 12".to_string() }
    );
}

#[test]
fn moves_and_attacks_are_carried_out() {
    let mut placed = vec![
        Positioned { entity: PLAYER, pos: GridPos::new(0, 0) },
        Positioned { entity: 10, pos: GridPos::new(5, 0) },
        Positioned { entity: 11, pos: GridPos::new(1, 0) },
    ];
    let mut living = vec![
        Living { entity: 10, health: Health::new(5, 0) },
        Living { entity: PLAYER, health: Health::new(10, 0) },
    ];
    let actions = vec![
        move_to(10, 4, 0),
        NPCActionType::Attack { target: PLAYER, attacker_name: "Flamey".to_string() },
        NPCActionType::Attack { target: PLAYER, attacker_name: "Cave MOLE".to_string() },
    ];
    let outcome = enemy_move(actions, &mut placed, &mut living);
    assert_eq!(outcome.next, GameState::PlayerTurn);
    assert!(outcome.stale.is_empty());
    let log = outcome.log;
    assert_eq!(placed[1], Positioned { entity: 10, pos: GridPos::new(4, 0) });
    assert_eq!(placed[0].pos, GridPos::new(0, 0));
    assert_eq!(placed[2].pos, GridPos::new(1, 0));
    assert_eq!(living[1].health, Health { current: 8, max: 10, min: 0 });
    assert_eq!(living[0].health, Health { current: 5, max: 5, min: 0 });
    assert_eq!(
        log,
        vec![
            LogEvent::npc_attacks_player("Flamey".to_string(), 1),
            LogEvent::npc_attacks_player("Cave MOLE".to_string(), 1),
        ]
    );
}

#[test]
fn an_attack_on_a_target_that_is_gone_changes_nothing() {
    let mut placed = vec![];
    let mut living = vec![Living { entity: 10, health: Health::new(5, 0) }];
    let actions = vec![NPCActionType::Attack { target: 77, attacker_name: "x".to_string() }];
    let outcome = enemy_move(actions, &mut placed, &mut living);
    assert_eq!(outcome.next, GameState::PlayerTurn);
    assert!(outcome.log.is_empty());
    // the attack is handed back to be reported
    assert_eq!(outcome.stale, vec![77]);
    assert_eq!(living[0].health.current, 5);
}

#[test]
fn the_turn_goes_on_after_a_stale_attack() {
    let mut placed = vec![Positioned { entity: 10, pos: GridPos::new(5, 0) }];
    let mut living = vec![Living { entity: PLAYER, health: Health::new(10, 0) }];
    let actions = vec![
        NPCActionType::Attack { target: 77, attacker_name: "a".to_string() },
        NPCActionType::Attack { target: PLAYER, attacker_name: "b".to_string() },
        NPCActionType::Attack { target: 78, attacker_name: "c".to_string() },
        move_to(10, 4, 0),
    ];
    let outcome = enemy_move(actions, &mut placed, &mut living);
    assert_eq!(outcome.stale, vec![77, 78]);
    assert_eq!(outcome.log, vec![LogEvent::npc_attacks_player("b".to_string(), 1)]);
    assert_eq!(living[0].health.current, 9);
    assert_eq!(placed[0].pos, GridPos::new(4, 0));
}

#[test]
fn only_the_target_needs_room_for_a_hit() {
    // nobody attacks the entity whose health is at the lowest value there is
    let mut placed = vec![Positioned { entity: 10, pos: GridPos::new(5, 0) }];
    let mut living = vec![
        Living { entity: 30, health: Health { current: i32::MIN, max: 5, min: 0 } },
        Living { entity: PLAYER, health: Health { current: i32::MIN + 2, max: 5, min: 0 } },
    ];
    let actions = vec![
        move_to(10, 4, 0),
        NPCActionType::Attack { target: PLAYER, attacker_name: "a".to_string() },
        move_to(10, 3, 0),
        NPCActionType::Attack { target: PLAYER, attacker_name: "b".to_string() },
    ];
    let outcome = enemy_move(actions, &mut placed, &mut living);
    assert_eq!(outcome.log.len(), 2);
    assert_eq!(living[0].health.current, i32::MIN);
    assert_eq!(living[1].health.current, i32::MIN);
    assert_eq!(placed[0].pos, GridPos::new(3, 0));
}

#[test]
fn an_empty_turn_still_hands_over() {
    let mut placed = vec![Positioned { entity: 3, pos: GridPos::new(1, 1) }];
    let mut living = vec![];
    let outcome = enemy_move(vec![], &mut placed, &mut living);
    assert_eq!(outcome.next, GameState::PlayerTurn);
    assert!(outcome.log.is_empty());
    assert!(outcome.stale.is_empty());
    assert_eq!(placed[0].pos, GridPos::new(1, 1));
}

#[test]
fn health_may_fall_below_the_threshold() {
    let mut placed = vec![];
    let mut living = vec![Living { entity: PLAYER, health: Health { current: 0, max: 10, min: 0 } }];
    let actions = vec![NPCActionType::Attack { target: PLAYER, attacker_name: "x".to_string() }];
    enemy_move(actions, &mut placed, &mut living);
    assert_eq!(living[0].health.current, -1);
    assert!(living[0].health.is_spent());
}
