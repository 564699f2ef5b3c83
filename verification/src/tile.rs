//! Tiles of the dungeon and the set that holds at most one tile per coordinate.

use crate::components::Blocking;
use crate::position::GridPos;
use std::hash::{Hash, Hasher};
use vstd::prelude::*;
use vstd::std_specs::cmp::PartialEqSpecImpl;

verus! {

/// What stands on a coordinate.
#[derive(Clone, Copy, Debug, PartialEq, Eq, Structural)]
pub enum TileType {
    Wall,
    Floor,
}

/// A single tile. Two tiles are the same tile when they share a coordinate,
/// whatever their kind: equality and hashing read the coordinate only.
#[derive(Clone, Copy, Debug)]
pub struct Tile {
    pub pos: GridPos,
    pub kind: TileType,
}

impl Tile {
    /// Creates a tile of the given kind.
    pub fn new(x: i32, y: i32, kind: TileType) -> (tile: Tile)
        ensures
            tile.pos.x == x,
            tile.pos.y == y,
            tile.kind == kind,
    {
        Tile { pos: GridPos::new(x, y), kind }
    }

    /// Creates a wall tile.
    pub fn wall(x: i32, y: i32) -> (tile: Tile)
        ensures
            tile == (Tile { pos: GridPos { x, y }, kind: TileType::Wall }),
    {
        Self::new(x, y, TileType::Wall)
    }

    /// Creates a floor tile.
    pub fn floor(x: i32, y: i32) -> (tile: Tile)
        ensures
            tile == (Tile { pos: GridPos { x, y }, kind: TileType::Floor }),
    {
        Self::new(x, y, TileType::Floor)
    }
}

impl TileType {
    /// How a tile of this kind stands in the way: a wall blocks the path,
    /// floor does not.
    pub fn blocking(&self) -> (blocking: Option<Blocking>)
        ensures
            blocking == match self {
                TileType::Wall => Some(
                    Blocking { blocking_type: crate::components::BlockingType::Wall },
                ),
                TileType::Floor => None,
            },
    {
        match self {
            TileType::Wall => Some(Blocking::wall()),
            TileType::Floor => None,
        }
    }
}

impl PartialEq for Tile {
    fn eq(&self, other: &Self) -> (same: bool) {
        self.pos.x == other.pos.x && self.pos.y == other.pos.y
    }
}

impl PartialEqSpecImpl for Tile {
    open spec fn obeys_eq_spec() -> bool {
        true
    }

    open spec fn eq_spec(&self, other: &Self) -> bool {
        self.pos.x == other.pos.x && self.pos.y == other.pos.y
    }
}

impl Eq for Tile {

}

/// `Hash::hash` of std for `i32`: feeds the integer to the hasher. Nothing is
/// claimed about the hasher's state afterwards.
pub assume_specification<H: Hasher>[ <i32 as Hash>::hash ](value: &i32, state: &mut H)
;

impl Hash for Tile {
    fn hash<H: Hasher>(&self, state: &mut H) {
        self.pos.x.hash(state);
        self.pos.y.hash(state);
    }
}

/// The tiles of a map, at most one per coordinate. It is a hash set of the
/// `bevy` utilities, keyed by the tiles' own notion of equality.
#[verifier::external_body]
pub struct TileSet {
    inner: bevy::utils::HashSet<Tile>,
}

/// What a tile set holds: the kind of the one tile at each coordinate it covers.
pub uninterp spec fn tile_set_contents(set: TileSet) -> Map<GridPos, TileType>;

/// `HashSet::default` of hashbrown, through bevy's alias: a set without items.
#[verifier::external_body]
fn tile_set_empty() -> (set: TileSet)
    ensures
        (tile_set_contents(set) == Map::<GridPos, TileType>::empty()),
{
    TileSet { inner: bevy::utils::HashSet::default() }
}

/// `HashSet::replace` of hashbrown: puts the tile into the set in place of the
/// tile that is equal to it, that is of the one at the same coordinate, and
/// returns the tile that left, if there was one.
#[verifier::external_body]
fn tile_set_replace(set: &mut TileSet, tile: Tile) -> (replaced: Option<Tile>)
    ensures
        tile_set_contents(*final(set)) == tile_set_contents(*old(set)).insert(tile.pos, tile.kind),
        match replaced {
            Some(previous) => tile_set_contents(*old(set)).contains_key(tile.pos)
                && previous.pos == tile.pos
                && previous.kind == tile_set_contents(*old(set))[tile.pos],
            None => !tile_set_contents(*old(set)).contains_key(tile.pos),
        },
{
    set.inner.replace(tile)
}

/// `HashSet::insert` of hashbrown: adds the tile unless the set holds a tile
/// equal to it, that is one at the same coordinate; the tile already there
/// stays as it is. Returns whether the tile was added.
#[verifier::external_body]
fn tile_set_insert(set: &mut TileSet, tile: Tile) -> (added: bool)
    ensures
        added == !tile_set_contents(*old(set)).contains_key(tile.pos),
        tile_set_contents(*final(set)) == if added {
            tile_set_contents(*old(set)).insert(tile.pos, tile.kind)
        } else {
            tile_set_contents(*old(set))
        },
{
    set.inner.insert(tile)
}

/// `HashSet::iter` of hashbrown, each item copied into a vector: every tile of
/// the set once, in an order that is not specified.
#[verifier::external_body]
fn tile_set_items(set: &TileSet) -> (tiles: Vec<Tile>)
    ensures
        forall|i: int|
            0 <= i < tiles@.len() ==> tile_set_contents(*set).contains_key(#[trigger] tiles@[i].pos)
                && tile_set_contents(*set)[tiles@[i].pos] == tiles@[i].kind,
        (forall|i: int, j: int|
            0 <= i < j < tiles@.len() ==> #[trigger] tiles@[i].pos != #[trigger] tiles@[j].pos),
        forall|p: GridPos| #[trigger]
            tile_set_contents(*set).contains_key(p) ==> exists|i: int|
                0 <= i < tiles@.len() && #[trigger] tiles@[i].pos == p,
{
    set.inner.iter().copied().collect()
}

impl View for TileSet {
    type V = Map<GridPos, TileType>;

    open spec fn view(&self) -> Map<GridPos, TileType> {
        tile_set_contents(*self)
    }
}

impl TileSet {
    /// A set without tiles.
    pub fn new() -> (set: TileSet)
        ensures
            set@ == Map::<GridPos, TileType>::empty(),
    {
        tile_set_empty()
    }

    /// Puts `tile` at its coordinate, whatever stood there before, and
    /// returns the tile that it took the place of.
    pub fn replace(&mut self, tile: Tile) -> (replaced: Option<Tile>)
        ensures
            final(self)@ == old(self)@.insert(tile.pos, tile.kind),
            match replaced {
                Some(previous) => old(self)@.contains_key(tile.pos) && previous.pos == tile.pos
                    && previous.kind == old(self)@[tile.pos],
                None => !old(self)@.contains_key(tile.pos),
            },
    {
        tile_set_replace(self, tile)
    }

    /// Adds `tile` if nothing stands at its coordinate and says whether it
    /// did. A tile that is already there keeps its kind.
    pub fn insert(&mut self, tile: Tile) -> (added: bool)
        ensures
            added == !old(self)@.contains_key(tile.pos),
            added ==> final(self)@ == old(self)@.insert(tile.pos, tile.kind),
            !added ==> final(self)@ == old(self)@,
    {
        tile_set_insert(self, tile)
    }

    /// Every tile of the set once. No two of them share a coordinate. The
    /// order is not specified.
    pub fn tiles(&self) -> (tiles: Vec<Tile>)
        ensures
            forall|i: int|
                0 <= i < tiles@.len() ==> self@.contains_key(#[trigger] tiles@[i].pos)
                    && self@[tiles@[i].pos] == tiles@[i].kind,
            forall|i: int, j: int|
                0 <= i < j < tiles@.len() ==> #[trigger] tiles@[i].pos != #[trigger] tiles@[j].pos,
            forall|p: GridPos| #[trigger]
                self@.contains_key(p) ==> exists|i: int|
                    0 <= i < tiles@.len() && #[trigger] tiles@[i].pos == p,
    {
        tile_set_items(self)
    }

    /// The kind of the tile at `pos`, if the set has one there.
    pub fn kind_at(&self, pos: GridPos) -> (kind: Option<TileType>)
        ensures
            kind == if self@.contains_key(pos) {
                Some(self@[pos])
            } else {
                None
            },
    {
        let tiles = self.tiles();
        let mut i: usize = 0;
        while i < tiles.len()
            invariant
                i <= tiles@.len(),
                forall|k: int| 0 <= k < i ==> #[trigger] tiles@[k].pos != pos,
                forall|k: int|
                    0 <= k < tiles@.len() ==> self@.contains_key(#[trigger] tiles@[k].pos)
                        && self@[tiles@[k].pos] == tiles@[k].kind,
            decreases tiles@.len() - i,
        {
            if tiles[i].pos.x == pos.x && tiles[i].pos.y == pos.y {
                return Some(tiles[i].kind);
            }
            i += 1;
        }
        None
    }
}

} // verus!
