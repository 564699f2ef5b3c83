//! Scores of actions.

use crate::position::GridPos;
use vstd::prelude::*;

verus! {

/// The distance between two coordinates along one axis.
pub open spec fn span(a: int, b: int) -> int {
    if a <= b {
        b - a
    } else {
        a - b
    }
}

/// Whether the actor stands on the tile of the player or on one of the eight
/// tiles around it.
pub open spec fn in_reach(player: GridPos, actor: GridPos) -> bool {
    span(player.x as int, actor.x as int) <= 1 && span(player.y as int, actor.y as int) <= 1
}

/// How much it is worth to an actor to go after the player, in hundredths.
/// Within reach it is the full 100. Further away every tile between them,
/// counted along the axes, takes one hundredth off; far away the score is
/// negative.
pub open spec fn player_in_range_score(player: GridPos, actor: GridPos) -> int {
    if in_reach(player, actor) {
        100
    } else {
        100 - (span(player.x as int, actor.x as int) + span(player.y as int, actor.y as int))
    }
}

/// Scores, in hundredths, how much it is worth to the actor at `actor` to go
/// after the player at `player`.
pub fn player_in_range_scorer_system(player: GridPos, actor: GridPos) -> (score: i64)
    ensures
        score == player_in_range_score(player, actor),
{
    let dx: i64 = if player.x <= actor.x {
        actor.x as i64 - player.x as i64
    } else {
        player.x as i64 - actor.x as i64
    };
    let dy: i64 = if player.y <= actor.y {
        actor.y as i64 - player.y as i64
    } else {
        player.y as i64 - actor.y as i64
    };
    if dx <= 1 && dy <= 1 {
        100
    } else {
        100 - (dx + dy)
    }
}

/// The score is never above 100, and it is 100 exactly within reach of the
/// player or, out of reach, never: one step out of reach it is 98 at most.
pub proof fn lemma_score_bounds(player: GridPos, actor: GridPos)
    ensures
        player_in_range_score(player, actor) <= 100,
        player_in_range_score(player, actor) == 100 <==> in_reach(player, actor),
        !in_reach(player, actor) ==> player_in_range_score(player, actor) <= 98,
{
}

} // verus!
