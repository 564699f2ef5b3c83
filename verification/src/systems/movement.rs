//! Steps in the eight directions of the grid.

use crate::position::GridPos;
use vstd::prelude::*;

verus! {

/// How far a step goes when no distance is given, in tiles.
pub const STEP: i32 = 1;

/// One of the eight directions of the grid.
#[derive(Debug, Copy, Clone, PartialEq, Eq, Structural)]
pub enum MoveDirection {
    Left,
    LeftUp,
    Up,
    RightUp,
    Right,
    DownRight,
    Down,
    DownLeft,
}

/// The wish of an entity to step in a direction.
#[derive(Debug, Copy, Clone, PartialEq, Eq, Structural)]
pub struct Movement {
    pub direction: MoveDirection,
    pub entity: u64,
}

impl Movement {
    pub fn new(direction: MoveDirection, entity: u64) -> (movement: Self)
        ensures
            movement.direction == direction,
            movement.entity == entity,
    {
        Movement { direction, entity }
    }
}

/// The distance of a step: the one that is given, or one tile.
pub open spec fn distance_or_step(distance: Option<i32>) -> int {
    match distance {
        Some(d) => d as int,
        None => STEP as int,
    }
}

impl MoveDirection {
    /// How far a step of `distance` in this direction leads along the x
    /// axis: to the right it counts up, to the left down.
    pub open spec fn x_part(&self, distance: int) -> int {
        match self {
            MoveDirection::Left | MoveDirection::LeftUp | MoveDirection::DownLeft => -distance,
            MoveDirection::Right | MoveDirection::RightUp | MoveDirection::DownRight => distance,
            _ => 0,
        }
    }

    /// How far a step of `distance` in this direction leads along the y
    /// axis: upwards it counts up, downwards down.
    pub open spec fn y_part(&self, distance: int) -> int {
        match self {
            MoveDirection::LeftUp | MoveDirection::Up | MoveDirection::RightUp => distance,
            MoveDirection::DownLeft | MoveDirection::Down | MoveDirection::DownRight => -distance,
            _ => 0,
        }
    }

    /// Where a step of `distance` from `pos` in this direction leads.
    pub open spec fn destination(&self, pos: GridPos, distance: Option<i32>) -> (int, int) {
        (
            pos.x + self.x_part(distance_or_step(distance)),
            pos.y + self.y_part(distance_or_step(distance)),
        )
    }

    /// Whether a step of `distance` from `pos` in this direction stays on the grid.
    pub open spec fn in_bounds(&self, pos: GridPos, distance: Option<i32>) -> bool {
        &&& i32::MIN < distance_or_step(distance)
        &&& i32::MIN <= self.destination(pos, distance).0 <= i32::MAX
        &&& i32::MIN <= self.destination(pos, distance).1 <= i32::MAX
    }

    /// How far a step of `distance` leads along the y axis.
    pub fn move_on_y(&self, distance: i32) -> (part: i32)
        requires
            distance > i32::MIN,
        ensures
            part == self.y_part(distance as int),
    {
        match self {
            Self::LeftUp | Self::Up | Self::RightUp => distance,
            Self::DownLeft | Self::Down | Self::DownRight => -distance,
            _ => 0,
        }
    }

    /// How far a step of `distance` leads along the x axis.
    pub fn move_on_x(&self, distance: i32) -> (part: i32)
        requires
            distance > i32::MIN,
        ensures
            part == self.x_part(distance as int),
    {
        match self {
            Self::Left | Self::LeftUp | Self::DownLeft => -distance,
            Self::Right | Self::RightUp | Self::DownRight => distance,
            _ => 0,
        }
    }

    /// Moves `position` by a step of `distance` in this direction, or by one
    /// tile if no distance is given.
    pub fn step(&self, position: &mut GridPos, distance: Option<i32>)
        requires
            self.in_bounds(*old(position), distance),
        ensures
            final(position).x == self.destination(*old(position), distance).0,
            final(position).y == self.destination(*old(position), distance).1,
    {
        let distance = match distance {
            Some(d) => d,
            None => STEP,
        };
        position.x = position.x + self.move_on_x(distance);
        position.y = position.y + self.move_on_y(distance);
    }

    /// Where a step of `distance` from `position` in this direction leads, or
    /// a step of one tile if no distance is given.
    pub fn get_new_translation(&self, position: &GridPos, distance: Option<i32>) -> (moved: GridPos)
        requires
            self.in_bounds(*position, distance),
        ensures
            moved.x == self.destination(*position, distance).0,
            moved.y == self.destination(*position, distance).1,
    {
        let distance = match distance {
            Some(d) => d,
            None => STEP,
        };
        GridPos::new(position.x + self.move_on_x(distance), position.y + self.move_on_y(distance))
    }
}

} // verus!
