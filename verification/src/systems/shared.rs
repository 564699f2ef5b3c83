//! Helpers that the systems share.

use vstd::prelude::*;

verus! {

/// Whether the tile `(x, y)` lies outside a map that is `max_x` tiles wide
/// and `max_y` tiles high and begins at the origin.
pub fn is_out_of_bounds(x: i32, y: i32, max_x: usize, max_y: usize) -> (out: bool)
    ensures
        out == (x < 0 || x >= max_x || y < 0 || y >= max_y),
{
    x < 0 || x as usize >= max_x || y < 0 || y as usize >= max_y
}

} // verus!
