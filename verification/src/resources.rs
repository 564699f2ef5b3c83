//! State that the whole game shares.

use vstd::prelude::*;

verus! {

/// Whose turn it is. Exactly one side acts at a time.
#[derive(Copy, Clone, Eq, PartialEq, Structural, Hash, Debug)]
pub enum GameState {
    PlayerTurn,
    EnemyTurn,
    RangedTargeting,
    PlayerDead,
}

} // verus!
