//! Integer coordinates of the tile grid.

use vstd::prelude::*;

verus! {

/// A coordinate of the tile grid. One unit is one tile.
#[derive(Clone, Copy, Debug, PartialEq, Eq, Structural, Hash)]
pub struct GridPos {
    pub x: i32,
    pub y: i32,
}

impl GridPos {
    pub fn new(x: i32, y: i32) -> (pos: GridPos)
        ensures
            pos.x == x,
            pos.y == y,
    {
        GridPos { x, y }
    }
}

} // verus!
