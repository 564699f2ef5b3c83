//! Helpers on coordinates.

use crate::ai::scorers::span;
use crate::position::GridPos;
use vstd::prelude::*;

verus! {

/// The number of steps from one tile to another when a step may go along a
/// diagonal: the greater of the distances along the two axes.
pub open spec fn steps_between(pos1: GridPos, pos2: GridPos) -> int {
    let dx = span(pos1.x as int, pos2.x as int);
    let dy = span(pos1.y as int, pos2.y as int);
    if dx >= dy {
        dx
    } else {
        dy
    }
}

/// The number of steps from `pos1` to `pos2`: as many diagonal steps as the
/// shorter of the two distances along the axes takes, and straight steps for
/// the rest.
pub fn distance(pos1: &GridPos, pos2: &GridPos) -> (steps: i64)
    ensures
        steps == steps_between(*pos1, *pos2),
{
    let dx: i64 = if pos1.x <= pos2.x {
        pos2.x as i64 - pos1.x as i64
    } else {
        pos1.x as i64 - pos2.x as i64
    };
    let dy: i64 = if pos1.y <= pos2.y {
        pos2.y as i64 - pos1.y as i64
    } else {
        pos1.y as i64 - pos2.y as i64
    };
    let min = if dx <= dy {
        dx
    } else {
        dy
    };
    let max = if dx >= dy {
        dx
    } else {
        dy
    };
    let diagonal_steps = min;
    let straight_steps = max - min;
    diagonal_steps + straight_steps
}

} // verus!
