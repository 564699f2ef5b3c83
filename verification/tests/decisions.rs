use lonely_wanderer::ai::pickers::{Below, FirstToScore};
use lonely_wanderer::ai::scorers::player_in_range_scorer_system;
use lonely_wanderer::position::GridPos;
use lonely_wanderer::utils::distance;

#[test]
fn same_tile_scores_full() {
    let score = player_in_range_scorer_system(GridPos::new(4, -2), GridPos::new(4, -2));
    assert_eq!(score, 100);
    assert_eq!(score as f64 / 100.0, 1.0);
}

#[test]
fn next_to_the_player_scores_full() {
    let player = GridPos::new(0, 0);
    for dx in -1..=1 {
        for dy in -1..=1 {
            assert_eq!(player_in_range_scorer_system(player, GridPos::new(dx, dy)), 100);
        }
    }
}

#[test]
fn fifty_tiles_away_scores_half() {
    let score = player_in_range_scorer_system(GridPos::new(0, 0), GridPos::new(50, 0));
    assert_eq!(score, 50);
    assert_eq!(score as f64 / 100.0, 0.5);
    assert_eq!(player_in_range_scorer_system(GridPos::new(0, 0), GridPos::new(0, -50)), 50);
}

#[test]
fn the_score_falls_with_the_distance_along_both_axes() {
    let player = GridPos::new(10, 10);
    assert_eq!(player_in_range_scorer_system(player, GridPos::new(12, 10)), 98);
    assert_eq!(player_in_range_scorer_system(player, GridPos::new(12, 11)), 97);
    assert_eq!(player_in_range_scorer_system(player, GridPos::new(7, 14)), 93);
    assert_eq!(player_in_range_scorer_system(player, GridPos::new(11, 12)), 97);
}

#[test]
fn far_away_the_score_is_negative() {
    assert_eq!(player_in_range_scorer_system(GridPos::new(0, 0), GridPos::new(100, 0)), 0);
    assert_eq!(player_in_range_scorer_system(GridPos::new(0, 0), GridPos::new(100, 50)), -50);
    let far = player_in_range_scorer_system(
        GridPos::new(i32::MIN, i32::MIN),
        GridPos::new(i32::MAX, i32::MAX),
    );
    assert_eq!(far, 100 - 2 * (u32::MAX as i64));
}

#[test]
fn below_picks_the_first_under_the_threshold() {
    let picker = Below::new(50);
    assert_eq!(picker.threshold, 50);
    assert_eq!(picker.pick(&vec![80, 40, 10]), Some(1));
    assert_eq!(picker.pick(&vec![49, 0]), Some(0));
    // the threshold itself is not below
    assert_eq!(picker.pick(&vec![50, 51]), None);
    assert_eq!(picker.pick(&vec![]), None);
}

#[test]
fn first_to_score_picks_the_first_that_reaches_the_threshold() {
    let picker = FirstToScore::new(95);
    assert_eq!(picker.pick(&vec![94, 95, 100]), Some(1));
    // declaration order decides, not the height of the score
    assert_eq!(picker.pick(&vec![96, 100]), Some(0));
    assert_eq!(picker.pick(&vec![94, 0, -20]), None);
    assert_eq!(picker.pick(&vec![]), None);
}

#[test]
fn a_monster_chases_from_five_tiles() {
    let picker = FirstToScore::new(95);
    let player = GridPos::new(0, 0);
    let near = vec![player_in_range_scorer_system(player, GridPos::new(3, 2))];
    let far = vec![player_in_range_scorer_system(player, GridPos::new(3, 3))];
    assert_eq!(picker.pick(&near), Some(0));
    assert_eq!(picker.pick(&far), None);
}

#[test]
fn steps_with_diagonals() {
    assert_eq!(distance(&GridPos::new(0, 0), &GridPos::new(0, 0)), 0);
    assert_eq!(distance(&GridPos::new(0, 0), &GridPos::new(3, 4)), 4);
    assert_eq!(distance(&GridPos::new(-2, 5), &GridPos::new(4, 5)), 6);
    assert_eq!(distance(&GridPos::new(1, 1), &GridPos::new(-1, -1)), 2);
    assert_eq!(
        distance(&GridPos::new(i32::MIN, 0), &GridPos::new(i32::MAX, 0)),
        u32::MAX as i64
    );
}
