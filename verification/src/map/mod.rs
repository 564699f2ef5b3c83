//! The dungeon generator: rooms are stamped as floor, consecutive rooms are
//! joined by L-shaped corridors, and the floor is then closed in by walls.

pub mod monster_spawner;

use crate::map::monster_spawner::{spawned, Spawner};
use crate::position::GridPos;
use crate::random::{random_i32, random_u32};
use crate::tile::{Tile, TileSet, TileType};
use num_integer::Integer;
use vstd::prelude::*;

verus! {

/// `tiles` with every coordinate of `area` turned into floor.
pub open spec fn floor_over(tiles: Map<GridPos, TileType>, area: Set<GridPos>) -> Map<
    GridPos,
    TileType,
> {
    Map::new(
        |p: GridPos| tiles.contains_key(p) || area.contains(p),
        |p: GridPos|
            if area.contains(p) {
                TileType::Floor
            } else {
                tiles[p]
            },
    )
}

/// A rectangular room, given by its center and its size in tiles.
#[derive(Debug)]
pub struct Room {
    pub height: u32,
    pub width: u32,
    pub center: GridPos,
    pub entry_points: Vec<GridPos>,
}

impl Room {
    /// The column of the leftmost floor tiles.
    pub open spec fn left(&self) -> int {
        self.center.x - self.width as int / 2
    }

    /// The row of the lowest floor tiles.
    pub open spec fn bottom(&self) -> int {
        self.center.y - self.height as int / 2
    }

    /// Whether `p` is a floor tile of the room.
    pub open spec fn covers(&self, p: GridPos) -> bool {
        &&& self.left() <= p.x < self.left() + self.width
        &&& self.bottom() <= p.y < self.bottom() + self.height
    }

    /// The floor of the room.
    pub open spec fn floor_area(&self) -> Set<GridPos> {
        Set::new(|p: GridPos| self.covers(p))
    }

    /// The room and the ring of coordinates around it lie on the grid.
    pub open spec fn fits(&self) -> bool {
        &&& i32::MIN <= self.left() - 1
        &&& self.left() + self.width <= i32::MAX
        &&& i32::MIN <= self.bottom() - 1
        &&& self.bottom() + self.height <= i32::MAX
    }

    /// The floor that is down once `rows` full rows and `cols` tiles of the
    /// next row have been stamped.
    spec fn stamped(&self, rows: int, cols: int) -> Set<GridPos> {
        Set::new(
            |p: GridPos|
                self.covers(p) && (p.y < self.bottom() + rows || (p.y == self.bottom() + rows && p.x
                    < self.left() + cols)),
        )
    }

    /// Creates a new room without entry points.
    pub fn new(center: GridPos, height: u32, width: u32) -> (room: Room)
        ensures
            room.center == center,
            room.height == height,
            room.width == width,
            room.entry_points@.len() == 0,
    {
        Room { height, width, center, entry_points: Vec::new() }
    }

    /// Stamps the floor of the room into `tiles`. Whatever stood on a
    /// coordinate of the room before is floor afterwards.
    pub fn create_rect_room(&self, tiles: &mut TileSet)
        requires
            self.fits(),
        ensures
            final(tiles)@ == floor_over(old(tiles)@, self.floor_area()),
    {
        let left: i64 = self.center.x as i64 - (self.width / 2) as i64;
        let bottom: i64 = self.center.y as i64 - (self.height / 2) as i64;
        let mut i: u32 = 0;
        assert(tiles@ =~= floor_over(old(tiles)@, self.stamped(0, 0)));
        while i < self.height
            invariant
                self.fits(),
                left == self.left(),
                bottom == self.bottom(),
                i <= self.height,
                tiles@ == floor_over(old(tiles)@, self.stamped(i as int, 0)),
            decreases self.height - i,
        {
            let mut j: u32 = 0;
            while j < self.width
                invariant
                    self.fits(),
                    left == self.left(),
                    bottom == self.bottom(),
                    i < self.height,
                    j <= self.width,
                    tiles@ == floor_over(old(tiles)@, self.stamped(i as int, j as int)),
                decreases self.width - j,
            {
                let x: i32 = (left + j as i64) as i32;
                let y: i32 = (bottom + i as i64) as i32;
                tiles.replace(Tile::floor(x, y));
                assert(tiles@ =~= floor_over(old(tiles)@, self.stamped(i as int, j as int + 1)));
                j += 1;
            }
            assert(self.stamped(i as int, self.width as int) =~= self.stamped(i as int + 1, 0));
            i += 1;
        }
        assert(self.stamped(self.height as int, 0) =~= self.floor_area());
    }
}

/// Whether `v` is met on the way from `from` to `to`, the start included and
/// the end left out.
pub open spec fn toward(from: int, to: int, v: int) -> bool {
    (from <= v < to) || (to < v <= from)
}

/// Whether the corridor from `start` to `finish` turns `p` into floor: it runs
/// along the row of `start` to the column of `finish`, then along that column
/// to the row of `finish`. The last coordinate, `finish` itself, is left to the
/// room that stands there.
pub open spec fn carved(start: GridPos, finish: GridPos, p: GridPos) -> bool {
    ||| p.y == start.y && toward(start.x as int, finish.x as int, p.x as int)
    ||| p.x == finish.x && toward(start.y as int, finish.y as int, p.y as int)
}

/// The coordinates that the corridor from `start` to `finish` turns into floor.
pub open spec fn corridor(start: GridPos, finish: GridPos) -> Set<GridPos> {
    Set::new(|p: GridPos| carved(start, finish, p))
}

/// What is carved when the first leg has reached column `x` and the second
/// leg, if it has begun, row `y`.
spec fn carved_until(start: GridPos, finish: GridPos, x: int, y: int) -> Set<GridPos> {
    Set::new(
        |p: GridPos|
            (p.y == start.y && toward(start.x as int, x, p.x as int)) || (p.x == finish.x && toward(
                start.y as int,
                y,
                p.y as int,
            )),
    )
}

/// Carves an L-shaped corridor of floor from `start` to `finish`: first along
/// the row of `start`, then along the column of `finish`. It tunnels through
/// whatever is in its way.
pub fn carve_corridor(tiles: &mut TileSet, start: GridPos, finish: GridPos)
    ensures
        final(tiles)@ == floor_over(old(tiles)@, corridor(start, finish)),
{
    let mut offset_x: i32 = start.x;
    let mut offset_y: i32 = start.y;
    assert(tiles@ =~= floor_over(
        old(tiles)@,
        carved_until(start, finish, offset_x as int, offset_y as int),
    ));
    while offset_x != finish.x
        invariant
            offset_y == start.y,
            (start.x <= offset_x <= finish.x) || (finish.x <= offset_x <= start.x),
            tiles@ == floor_over(
                old(tiles)@,
                carved_until(start, finish, offset_x as int, offset_y as int),
            ),
        decreases
                if finish.x > offset_x {
                    finish.x - offset_x
                } else {
                    offset_x - finish.x
                },
    {
        tiles.replace(Tile::floor(offset_x, start.y));
        if finish.x > offset_x {
            offset_x += 1;
        } else {
            offset_x -= 1;
        }
        assert(tiles@ =~= floor_over(
            old(tiles)@,
            carved_until(start, finish, offset_x as int, offset_y as int),
        ));
    }
    while offset_y != finish.y
        invariant
            offset_x == finish.x,
            (start.y <= offset_y <= finish.y) || (finish.y <= offset_y <= start.y),
            tiles@ == floor_over(
                old(tiles)@,
                carved_until(start, finish, offset_x as int, offset_y as int),
            ),
        decreases
                if finish.y > offset_y {
                    finish.y - offset_y
                } else {
                    offset_y - finish.y
                },
    {
        tiles.replace(Tile::floor(offset_x, offset_y));
        if finish.y > offset_y {
            offset_y += 1;
        } else {
            offset_y -= 1;
        }
        assert(tiles@ =~= floor_over(
            old(tiles)@,
            carved_until(start, finish, offset_x as int, offset_y as int),
        ));
    }
    assert(carved_until(start, finish, finish.x as int, finish.y as int) =~= corridor(
        start,
        finish,
    ));
}

/// The rooms of a dungeon, in the order in which they were made, and its tiles.
pub struct DungeonMap {
    pub rooms: Vec<Room>,
    pub tiles: TileSet,
}

/// Whether the corridor from room `i` to the room after it turns `p` into floor.
pub open spec fn link_carves(rooms: Seq<Room>, i: int, p: GridPos) -> bool {
    carved(rooms[i].center, rooms[i + 1].center, p)
}

/// The floor of the corridors that join each of the first `n` rooms to the
/// room after it.
pub open spec fn links(rooms: Seq<Room>, n: int) -> Set<GridPos> {
    Set::new(
        |p: GridPos| exists|i: int| 0 <= i < n && i + 1 < rooms.len() && #[trigger] link_carves(rooms, i, p),
    )
}

/// The floor of all corridors: one between each room and the next.
pub open spec fn corridors(rooms: Seq<Room>) -> Set<GridPos> {
    links(rooms, rooms.len() as int)
}

/// The floor of the first `n` rooms.
pub open spec fn rooms_floor(rooms: Seq<Room>, n: int) -> Set<GridPos> {
    Set::new(|p: GridPos| exists|i: int| 0 <= i < n && i < rooms.len() && #[trigger] rooms[i].covers(p))
}

/// All floor of a dungeon with these rooms: the rooms and the corridors
/// between consecutive rooms.
pub open spec fn floor_plan(rooms: Seq<Room>) -> Set<GridPos> {
    rooms_floor(rooms, rooms.len() as int).union(corridors(rooms))
}

/// Whether two coordinates are different and touch, by a side or by a corner.
pub open spec fn adjacent(q: GridPos, p: GridPos) -> bool {
    &&& q != p
    &&& -1 <= p.x - q.x <= 1
    &&& -1 <= p.y - q.y <= 1
}

/// Whether `tiles` has a floor tile at `q`.
pub open spec fn is_floor(tiles: Map<GridPos, TileType>, q: GridPos) -> bool {
    tiles.contains_key(q) && tiles[q] == TileType::Floor
}

/// Whether `p` touches a floor tile of `tiles`.
pub open spec fn beside_floor(tiles: Map<GridPos, TileType>, p: GridPos) -> bool {
    exists|q: GridPos| is_floor(tiles, q) && #[trigger] adjacent(q, p)
}

/// `tiles` with a wall on every free coordinate that touches floor. A tile
/// that is already there stays what it is: floor is never walled over.
pub open spec fn walled(tiles: Map<GridPos, TileType>) -> Map<GridPos, TileType> {
    Map::new(
        |p: GridPos| tiles.contains_key(p) || beside_floor(tiles, p),
        |p: GridPos|
            if tiles.contains_key(p) {
                tiles[p]
            } else {
                TileType::Wall
            },
    )
}

/// The tiles of the finished dungeon with these rooms.
pub open spec fn dungeon_tiles(rooms: Seq<Room>) -> Map<GridPos, TileType> {
    walled(floor_over(Map::empty(), floor_plan(rooms)))
}

proof fn lemma_links_step(rooms: Seq<Room>, i: int)
    requires
        0 <= i,
        i + 1 < rooms.len(),
    ensures
        links(rooms, i + 1) == links(rooms, i).union(corridor(rooms[i].center, rooms[i + 1].center)),
{
    let more = links(rooms, i + 1);
    let joined = links(rooms, i).union(corridor(rooms[i].center, rooms[i + 1].center));
    assert forall|p: GridPos| #[trigger] more.contains(p) == joined.contains(p) by {
        if carved(rooms[i].center, rooms[i + 1].center, p) {
            assert(link_carves(rooms, i, p));
        }
    }
    assert(more =~= joined);
}

proof fn lemma_links_end(rooms: Seq<Room>, n: int)
    requires
        n + 1 >= rooms.len(),
    ensures
        links(rooms, n) == corridors(rooms),
{
    assert(links(rooms, n) =~= links(rooms, rooms.len() as int));
}

proof fn lemma_rooms_floor_step(rooms: Seq<Room>, i: int)
    requires
        0 <= i < rooms.len(),
    ensures
        rooms_floor(rooms, i + 1) == rooms_floor(rooms, i).union(rooms[i].floor_area()),
{
    let more = rooms_floor(rooms, i + 1);
    let joined = rooms_floor(rooms, i).union(rooms[i].floor_area());
    assert forall|p: GridPos| #[trigger] more.contains(p) == joined.contains(p) by {
        if rooms[i].covers(p) {
            assert(more.contains(p));
        }
    }
    assert(more =~= joined);
}

/// Joins each room to the room made after it by a corridor from center to
/// center, so that every room can be reached from the first.
pub fn connect_rooms(map: &mut DungeonMap)
    ensures
        final(map).rooms@ == old(map).rooms@,
        final(map).tiles@ == floor_over(old(map).tiles@, corridors(old(map).rooms@)),
{
    let mut i: usize = 0;
    assert(map.tiles@ =~= floor_over(old(map).tiles@, links(map.rooms@, 0)));
    while i < map.rooms.len() && i + 1 < map.rooms.len()
        invariant
            map.rooms@ == old(map).rooms@,
            map.tiles@ == floor_over(old(map).tiles@, links(map.rooms@, i as int)),
        decreases map.rooms@.len() - i,
    {
        let start = map.rooms[i].center;
        let finish = map.rooms[i + 1].center;
        carve_corridor(&mut map.tiles, start, finish);
        proof {
            lemma_links_step(map.rooms@, i as int);
            assert(map.tiles@ =~= floor_over(old(map).tiles@, links(map.rooms@, i as int + 1)));
        }
        i += 1;
    }
    proof {
        lemma_links_end(map.rooms@, i as int);
    }
}

/// Whether the integers `x` and `y` name a coordinate of the grid.
pub open spec fn on_grid(x: int, y: int) -> bool {
    i32::MIN <= x <= i32::MAX && i32::MIN <= y <= i32::MAX
}

/// `tiles` with a wall at `(x, y)`, unless a tile stands there or the grid
/// ends before it.
spec fn wall_added(tiles: Map<GridPos, TileType>, x: int, y: int) -> Map<GridPos, TileType> {
    let p = GridPos { x: x as i32, y: y as i32 };
    if on_grid(x, y) && !tiles.contains_key(p) {
        tiles.insert(p, TileType::Wall)
    } else {
        tiles
    }
}

/// `tiles` with a wall on every free coordinate that touches `center`.
spec fn ring_walled(tiles: Map<GridPos, TileType>, center: GridPos) -> Map<GridPos, TileType> {
    Map::new(
        |p: GridPos| tiles.contains_key(p) || adjacent(center, p),
        |p: GridPos|
            if tiles.contains_key(p) {
                tiles[p]
            } else {
                TileType::Wall
            },
    )
}

/// Whether `p` touches one of the first `n` tiles of `seen` that is floor.
spec fn beside_seen(seen: Seq<Tile>, n: int, p: GridPos) -> bool {
    exists|i: int|
        0 <= i < n && i < seen.len() && seen[i].kind == TileType::Floor && #[trigger] adjacent(
            seen[i].pos,
            p,
        )
}

/// `tiles` with a wall on every free coordinate that touches one of the first
/// `n` tiles of `seen` that is floor.
spec fn walled_by(tiles: Map<GridPos, TileType>, seen: Seq<Tile>, n: int) -> Map<
    GridPos,
    TileType,
> {
    Map::new(
        |p: GridPos| tiles.contains_key(p) || beside_seen(seen, n, p),
        |p: GridPos|
            if tiles.contains_key(p) {
                tiles[p]
            } else {
                TileType::Wall
            },
    )
}

fn wall_at(tiles: &mut TileSet, x: i64, y: i64)
    ensures
        final(tiles)@ == wall_added(old(tiles)@, x as int, y as int),
{
    if x >= i32::MIN as i64 && x <= i32::MAX as i64 && y >= i32::MIN as i64 && y <= i32::MAX as i64 {
        tiles.insert(Tile::wall(x as i32, y as i32));
    }
}

fn plug_around(tiles: &mut TileSet, center: GridPos)
    ensures
        final(tiles)@ == ring_walled(old(tiles)@, center),
{
    let x: i64 = center.x as i64;
    let y: i64 = center.y as i64;
    wall_at(tiles, x - 1, y);
    wall_at(tiles, x, y + 1);
    wall_at(tiles, x + 1, y);
    wall_at(tiles, x, y - 1);
    wall_at(tiles, x - 1, y - 1);
    wall_at(tiles, x + 1, y - 1);
    wall_at(tiles, x - 1, y + 1);
    wall_at(tiles, x + 1, y + 1);
    assert(tiles@ =~= ring_walled(old(tiles)@, center));
}

proof fn lemma_walled_by_step(tiles: Map<GridPos, TileType>, seen: Seq<Tile>, i: int)
    requires
        0 <= i < seen.len(),
        tiles.contains_key(seen[i].pos),
    ensures
        seen[i].kind == TileType::Floor ==> walled_by(tiles, seen, i + 1) == ring_walled(
            walled_by(tiles, seen, i),
            seen[i].pos,
        ),
        seen[i].kind != TileType::Floor ==> walled_by(tiles, seen, i + 1) == walled_by(tiles, seen, i),
{
    let more = walled_by(tiles, seen, i + 1);
    let less = walled_by(tiles, seen, i);
    assert forall|p: GridPos| beside_seen(seen, i + 1, p) <==> beside_seen(seen, i, p) || (seen[i].kind
        == TileType::Floor && adjacent(seen[i].pos, p)) by {
        if beside_seen(seen, i + 1, p) {
            let k = choose|k: int|
                0 <= k < i + 1 && k < seen.len() && seen[k].kind == TileType::Floor
                    && #[trigger] adjacent(seen[k].pos, p);
            if k < i {
                assert(beside_seen(seen, i, p));
            }
        }
        if seen[i].kind == TileType::Floor && adjacent(seen[i].pos, p) {
            assert(beside_seen(seen, i + 1, p));
        }
    }
    if seen[i].kind == TileType::Floor {
        assert(more =~= ring_walled(less, seen[i].pos));
    } else {
        assert(more =~= less);
    }
}

proof fn lemma_walled_by_all(tiles: Map<GridPos, TileType>, seen: Seq<Tile>)
    requires
        forall|i: int|
            0 <= i < seen.len() ==> tiles.contains_key(#[trigger] seen[i].pos) && tiles[seen[i].pos]
                == seen[i].kind,
        forall|p: GridPos| #[trigger]
            tiles.contains_key(p) ==> exists|i: int| 0 <= i < seen.len() && #[trigger] seen[i].pos == p,
    ensures
        walled_by(tiles, seen, seen.len() as int) == walled(tiles),
{
    let n = seen.len() as int;
    assert forall|p: GridPos| beside_seen(seen, n, p) <==> beside_floor(tiles, p) by {
        if beside_seen(seen, n, p) {
            let k = choose|k: int|
                0 <= k < n && k < seen.len() && seen[k].kind == TileType::Floor
                    && #[trigger] adjacent(seen[k].pos, p);
            assert(is_floor(tiles, seen[k].pos));
        }
        if beside_floor(tiles, p) {
            let q = choose|q: GridPos| is_floor(tiles, q) && #[trigger] adjacent(q, p);
            let k = choose|k: int| 0 <= k < seen.len() && #[trigger] seen[k].pos == q;
            assert(adjacent(seen[k].pos, p));
        }
    }
    assert(walled_by(tiles, seen, n) =~= walled(tiles));
}

/// Closes the floor in: every free coordinate that touches a floor tile, by a
/// side or by a corner, gets a wall. Tiles that are already there stay as they
/// are, so floor wins over wall.
pub fn plug(map: &mut DungeonMap)
    ensures
        final(map).rooms@ == old(map).rooms@,
        final(map).tiles@ == walled(old(map).tiles@),
{
    let seen = map.tiles.tiles();
    let mut i: usize = 0;
    assert(map.tiles@ =~= walled_by(old(map).tiles@, seen@, 0));
    while i < seen.len()
        invariant
            i <= seen@.len(),
            map.rooms@ == old(map).rooms@,
            map.tiles@ == walled_by(old(map).tiles@, seen@, i as int),
            forall|k: int|
                0 <= k < seen@.len() ==> old(map).tiles@.contains_key(#[trigger] seen@[k].pos)
                    && old(map).tiles@[seen@[k].pos] == seen@[k].kind,
        decreases seen@.len() - i,
    {
        let tile = seen[i];
        proof {
            lemma_walled_by_step(old(map).tiles@, seen@, i as int);
        }
        match tile.kind {
            TileType::Floor => {
                plug_around(&mut map.tiles, tile.pos);
            },
            TileType::Wall => {},
        }
        i += 1;
    }
    proof {
        lemma_walled_by_all(old(map).tiles@, seen@);
    }
}

/// Whether every room of `rooms` lies on the grid.
pub open spec fn all_fit(rooms: Seq<Room>) -> bool {
    forall|i: int| 0 <= i < rooms.len() ==> (#[trigger] rooms[i]).fits()
}

impl DungeonMap {
    /// A dungeon without rooms and without tiles.
    pub fn new() -> (map: DungeonMap)
        ensures
            map.rooms@.len() == 0,
            map.tiles@ == Map::<GridPos, TileType>::empty(),
    {
        DungeonMap { rooms: Vec::new(), tiles: TileSet::new() }
    }

    /// Lays the floor of a dungeon with these rooms: the floor of every room
    /// and a corridor from each room to the next. There are no walls yet.
    pub fn carve(rooms: Vec<Room>) -> (map: DungeonMap)
        requires
            all_fit(rooms@),
        ensures
            map.rooms@ == rooms@,
            map.tiles@ == floor_over(Map::empty(), floor_plan(rooms@)),
    {
        let mut map = DungeonMap { rooms, tiles: TileSet::new() };
        let mut i: usize = 0;
        assert(map.tiles@ =~= floor_over(Map::empty(), rooms_floor(map.rooms@, 0)));
        while i < map.rooms.len()
            invariant
                i <= map.rooms@.len(),
                map.rooms@ == rooms@,
                all_fit(rooms@),
                map.tiles@ == floor_over(Map::empty(), rooms_floor(map.rooms@, i as int)),
            decreases map.rooms@.len() - i,
        {
            map.rooms[i].create_rect_room(&mut map.tiles);
            proof {
                lemma_rooms_floor_step(map.rooms@, i as int);
                assert(map.tiles@ =~= floor_over(
                    Map::empty(),
                    rooms_floor(map.rooms@, i as int + 1),
                ));
            }
            i += 1;
        }
        connect_rooms(&mut map);
        assert(map.tiles@ =~= floor_over(Map::empty(), floor_plan(rooms@)));
        map
    }

    /// Builds the whole dungeon with these rooms: floor as `carve` lays it,
    /// then walls around it.
    pub fn build(rooms: Vec<Room>) -> (map: DungeonMap)
        requires
            all_fit(rooms@),
        ensures
            map.rooms@ == rooms@,
            map.tiles@ == dungeon_tiles(rooms@),
    {
        let mut map = Self::carve(rooms);
        plug(&mut map);
        map
    }
}

/// Whether `v` lies between `a` and `b`, both included.
pub open spec fn between(a: int, b: int, v: int) -> bool {
    (a <= v <= b) || (b <= v <= a)
}

/// Whether `p` lies on the L-shaped path from `start` to `finish`, both ends
/// included: along the row of `start`, then along the column of `finish`.
pub open spec fn on_path(start: GridPos, finish: GridPos, p: GridPos) -> bool {
    ||| p.y == start.y && between(start.x as int, finish.x as int, p.x as int)
    ||| p.x == finish.x && between(start.y as int, finish.y as int, p.y as int)
}

/// The first room of every generated dungeon: five by five tiles around the
/// origin.
pub open spec fn is_origin_room(room: Room) -> bool {
    room.center == (GridPos { x: 0, y: 0 }) && room.width == 5 && room.height == 5
}

/// Floor wins over wall: wherever the plan of the rooms puts floor, the
/// finished dungeon has a floor tile, and it has walls only where the plan
/// has no floor.
pub proof fn lemma_floor_wins(rooms: Seq<Room>, p: GridPos)
    ensures
        floor_plan(rooms).contains(p) <==> is_floor(dungeon_tiles(rooms), p),
        dungeon_tiles(rooms).contains_key(p) && !floor_plan(rooms).contains(p) ==> dungeon_tiles(
            rooms,
        )[p] == TileType::Wall,
{
}

/// Walling a map in changes no tile that is already there.
pub proof fn lemma_plug_keeps_tiles(tiles: Map<GridPos, TileType>, p: GridPos)
    requires
        tiles.contains_key(p),
    ensures
        walled(tiles).contains_key(p),
        walled(tiles)[p] == tiles[p],
{
}

/// A room that is at least one tile wide and high has floor at its center.
pub proof fn lemma_center_is_floor(rooms: Seq<Room>, i: int)
    requires
        0 <= i < rooms.len(),
        rooms[i].width >= 1,
        rooms[i].height >= 1,
    ensures
        is_floor(dungeon_tiles(rooms), rooms[i].center),
{
    assert(rooms[i].covers(rooms[i].center));
    assert(rooms_floor(rooms, rooms.len() as int).contains(rooms[i].center));
}

/// A dungeon whose first room is the origin room has floor at the origin.
pub proof fn lemma_origin_is_floor(rooms: Seq<Room>)
    requires
        rooms.len() >= 1,
        is_origin_room(rooms[0]),
    ensures
        is_floor(dungeon_tiles(rooms), GridPos { x: 0, y: 0 }),
{
    lemma_center_is_floor(rooms, 0);
}

/// Two rooms made one after the other are joined by floor: every coordinate
/// on the L-shaped path from the center of the first to the center of the
/// second is a floor tile, so one can walk from one to the other.
pub proof fn lemma_corridor_connects(rooms: Seq<Room>, i: int, p: GridPos)
    requires
        0 <= i,
        i + 1 < rooms.len(),
        rooms[i + 1].width >= 1,
        rooms[i + 1].height >= 1,
        on_path(rooms[i].center, rooms[i + 1].center, p),
    ensures
        is_floor(dungeon_tiles(rooms), p),
{
    if carved(rooms[i].center, rooms[i + 1].center, p) {
        assert(link_carves(rooms, i, p));
        assert(corridors(rooms).contains(p));
    } else {
        assert(p == rooms[i + 1].center);
        lemma_center_is_floor(rooms, i + 1);
    }
}

/// Whether `room` is one that the generator draws: its center at most 25
/// tiles from the origin along each axis, its sides between 3 and 10 tiles.
pub open spec fn is_random_room(room: Room) -> bool {
    &&& -25 <= room.center.x <= 25
    &&& -25 <= room.center.y <= 25
    &&& 3 <= room.width <= 10
    &&& 3 <= room.height <= 10
}

/// Whether `rooms` is what the generator draws: the origin room first, then
/// between 5 and 10 random rooms.
pub open spec fn is_generated(rooms: Seq<Room>) -> bool {
    &&& 6 <= rooms.len() <= 11
    &&& is_origin_room(rooms[0])
    &&& forall|i: int| 1 <= i < rooms.len() ==> is_random_room(#[trigger] rooms[i])
}

/// Draws the rooms of a dungeon: the room around the origin, where the player
/// starts, and a random number of rooms of random place and size after it.
pub fn random_rooms() -> (rooms: Vec<Room>)
    ensures
        is_generated(rooms@),
        all_fit(rooms@),
{
    let mut rooms: Vec<Room> = Vec::new();
    rooms.push(Room::new(GridPos::new(0, 0), 5, 5));
    let n_rooms = random_i32(5, 10);
    let mut made: i32 = 0;
    while made < n_rooms
        invariant
            5 <= n_rooms <= 10,
            0 <= made <= n_rooms,
            rooms@.len() == 1 + made,
            is_origin_room(rooms@[0]),
            forall|i: int| 1 <= i < rooms@.len() ==> is_random_room(#[trigger] rooms@[i]),
        decreases n_rooms - made,
    {
        let x = random_i32(-25, 25);
        let y = random_i32(-25, 25);
        let width = random_u32(3, 10);
        let height = random_u32(3, 10);
        rooms.push(Room::new(GridPos::new(x, y), height, width));
        made += 1;
    }
    assert forall|i: int| 0 <= i < rooms@.len() implies (#[trigger] rooms@[i]).fits() by {
        if i > 0 {
            assert(is_random_room(rooms@[i]));
        }
    }
    rooms
}

/// In a generated dungeon every room is joined to the room made after it:
/// all of the L-shaped path between their centers is floor.
pub proof fn lemma_generated_rooms_connected(rooms: Seq<Room>, i: int, p: GridPos)
    requires
        is_generated(rooms),
        0 <= i,
        i + 1 < rooms.len(),
        on_path(rooms[i].center, rooms[i + 1].center, p),
    ensures
        is_floor(dungeon_tiles(rooms), p),
{
    assert(is_random_room(rooms[i + 1]));
    lemma_corridor_connects(rooms, i, p);
}

/// Generates a dungeon and plans its monsters. The rooms are drawn at random
/// after the room around the origin, so the origin is always floor. The
/// monsters are planned on the floor before the walls are put up.
pub fn generate_map() -> (generated: (DungeonMap, Spawner))
    ensures
        is_generated(generated.0.rooms@),
        generated.0.tiles@ == dungeon_tiles(generated.0.rooms@),
        is_floor(generated.0.tiles@, GridPos { x: 0, y: 0 }),
        exists|placed: Seq<GridPos>|
            spawned(
                0,
                Map::empty(),
                generated.1.spec_monster_count() as int,
                generated.1.spec_monsters(),
                floor_over(Map::empty(), floor_plan(generated.0.rooms@)),
                placed,
            ),
{
    let rooms = random_rooms();
    let mut map = DungeonMap::carve(rooms);
    let mut monster_spawner = Spawner::new();
    monster_spawner.generate_monsters(&map.tiles);
    let ghost floor = map.tiles@;
    plug(&mut map);
    proof {
        lemma_origin_is_floor(map.rooms@);
    }
    let generated = (map, monster_spawner);
    proof {
        let placed = choose|placed: Seq<GridPos>|
            spawned(
                0,
                Map::empty(),
                generated.1.spec_monster_count() as int,
                generated.1.spec_monsters(),
                floor,
                placed,
            );
        assert(spawned(
            0,
            Map::empty(),
            generated.1.spec_monster_count() as int,
            generated.1.spec_monsters(),
            floor_over(Map::empty(), floor_plan(generated.0.rooms@)),
            placed,
        ));
    }
    generated
}

/// `Integer::is_odd` of num-integer for `u32`: whether the number is not
/// divisible by two.
pub assume_specification[ <u32 as Integer>::is_odd ](value: &u32) -> (odd: bool)
    ensures
        odd == (*value % 2 == 1),
;

/// The side of a room on which it has its exit.
#[derive(Debug, Clone, Copy, PartialEq, Eq, Structural)]
pub enum ExitPosition {
    Left,
    Top,
    Right,
    Bottom,
}

impl ExitPosition {
    /// The side with this number: 0 is left, 1 top, 2 right, 3 bottom, and
    /// any other number left again.
    pub open spec fn of_index(index: int) -> ExitPosition {
        if index == 1 {
            ExitPosition::Top
        } else if index == 2 {
            ExitPosition::Right
        } else if index == 3 {
            ExitPosition::Bottom
        } else {
            ExitPosition::Left
        }
    }

    /// The side with this number.
    pub fn from_index(index: u32) -> (side: ExitPosition)
        ensures
            side == Self::of_index(index as int),
    {
        if index == 1 {
            ExitPosition::Top
        } else if index == 2 {
            ExitPosition::Right
        } else if index == 3 {
            ExitPosition::Bottom
        } else {
            ExitPosition::Left
        }
    }

    /// A side drawn at random.
    pub fn random() -> ExitPosition {
        Self::from_index(random_u32(0, 3))
    }
}

impl Room {
    /// The tile of the entry on `side`: in the middle of the ring around the
    /// room, on that side.
    pub open spec fn entry_tile(&self, side: ExitPosition) -> (int, int) {
        match side {
            ExitPosition::Top => (
                self.center.x as int,
                self.center.y + self.height as int / 2 + self.height as int % 2,
            ),
            ExitPosition::Bottom => (
                self.center.x as int,
                self.center.y - self.height as int / 2 - 1,
            ),
            ExitPosition::Left => (self.center.x - self.width as int / 2 - 1, self.center.y as int),
            ExitPosition::Right => (
                self.center.x + self.width as int / 2 + self.width as int % 2,
                self.center.y as int,
            ),
        }
    }

    /// Whether `final_room` and `final_tiles` are the room and the tiles
    /// after an entry was made on `side`: the tile of the entry is floor, and
    /// it is the last entry point of the room.
    pub open spec fn entry_made(
        &self,
        tiles: Map<GridPos, TileType>,
        side: ExitPosition,
        final_room: Room,
        final_tiles: Map<GridPos, TileType>,
    ) -> bool {
        let tile = GridPos { x: self.entry_tile(side).0 as i32, y: self.entry_tile(side).1 as i32 };
        &&& final_tiles == tiles.insert(tile, TileType::Floor)
        &&& final_room.entry_points@ == self.entry_points@.push(tile)
        &&& final_room.center == self.center
        &&& final_room.width == self.width
        &&& final_room.height == self.height
    }

    /// Makes an entry in the middle of the top side.
    pub fn create_entry_top(&mut self, tiles: &mut TileSet)
        requires
            old(self).fits(),
        ensures
            old(self).entry_made(old(tiles)@, ExitPosition::Top, *final(self), final(tiles)@),
    {
        let offset: i64 = if self.height.is_odd() {
            1
        } else {
            0
        };
        let y: i64 = self.center.y as i64 + (self.height / 2) as i64 + offset;
        let pos = GridPos::new(self.center.x, y as i32);
        tiles.replace(Tile::floor(pos.x, pos.y));
        self.entry_points.push(pos);
    }

    /// Makes an entry in the middle of the bottom side.
    pub fn create_entry_bottom(&mut self, tiles: &mut TileSet)
        requires
            old(self).fits(),
        ensures
            old(self).entry_made(old(tiles)@, ExitPosition::Bottom, *final(self), final(tiles)@),
    {
        let y: i64 = self.center.y as i64 - (self.height / 2) as i64 - 1;
        let pos = GridPos::new(self.center.x, y as i32);
        tiles.replace(Tile::floor(pos.x, pos.y));
        self.entry_points.push(pos);
    }

    /// Makes an entry in the middle of the left side.
    pub fn create_entry_left(&mut self, tiles: &mut TileSet)
        requires
            old(self).fits(),
        ensures
            old(self).entry_made(old(tiles)@, ExitPosition::Left, *final(self), final(tiles)@),
    {
        let x: i64 = self.center.x as i64 - (self.width / 2) as i64 - 1;
        let pos = GridPos::new(x as i32, self.center.y);
        tiles.replace(Tile::floor(pos.x, pos.y));
        self.entry_points.push(pos);
    }

    /// Makes an entry in the middle of the right side.
    pub fn create_entry_right(&mut self, tiles: &mut TileSet)
        requires
            old(self).fits(),
        ensures
            old(self).entry_made(old(tiles)@, ExitPosition::Right, *final(self), final(tiles)@),
    {
        let offset: i64 = if self.width.is_odd() {
            1
        } else {
            0
        };
        let x: i64 = self.center.x as i64 + (self.width / 2) as i64 + offset;
        let pos = GridPos::new(x as i32, self.center.y);
        tiles.replace(Tile::floor(pos.x, pos.y));
        self.entry_points.push(pos);
    }

    /// Makes an entry on the given side.
    pub fn create_exit_at(&mut self, tiles: &mut TileSet, exit_pos: ExitPosition)
        requires
            old(self).fits(),
        ensures
            old(self).entry_made(old(tiles)@, exit_pos, *final(self), final(tiles)@),
    {
        match exit_pos {
            ExitPosition::Left => self.create_entry_left(tiles),
            ExitPosition::Top => self.create_entry_top(tiles),
            ExitPosition::Right => self.create_entry_right(tiles),
            ExitPosition::Bottom => self.create_entry_bottom(tiles),
        }
    }

    /// Stamps the floor of the room and makes an entry on each side: top,
    /// left, bottom and right, in this order.
    pub fn create_entries(&mut self, tiles: &mut TileSet)
        requires
            old(self).fits(),
        ensures
            final(self).center == old(self).center,
            final(self).width == old(self).width,
            final(self).height == old(self).height,
            final(self).entry_points@ == old(self).entry_points@ + seq![
                old(self).entry_at(ExitPosition::Top),
                old(self).entry_at(ExitPosition::Left),
                old(self).entry_at(ExitPosition::Bottom),
                old(self).entry_at(ExitPosition::Right),
            ],
            final(tiles)@ == floor_over(old(tiles)@, old(self).floor_area()).insert(
                old(self).entry_at(ExitPosition::Top),
                TileType::Floor,
            ).insert(old(self).entry_at(ExitPosition::Left), TileType::Floor).insert(
                old(self).entry_at(ExitPosition::Bottom),
                TileType::Floor,
            ).insert(old(self).entry_at(ExitPosition::Right), TileType::Floor),
    {
        self.create_rect_room(tiles);
        self.create_entry_top(tiles);
        self.create_entry_left(tiles);
        self.create_entry_bottom(tiles);
        self.create_entry_right(tiles);
        assert(self.entry_points@ =~= old(self).entry_points@ + seq![
            old(self).entry_at(ExitPosition::Top),
            old(self).entry_at(ExitPosition::Left),
            old(self).entry_at(ExitPosition::Bottom),
            old(self).entry_at(ExitPosition::Right),
        ]);
    }

    /// The tile of the entry on `side`, as a coordinate of the grid.
    pub open spec fn entry_at(&self, side: ExitPosition) -> GridPos {
        GridPos { x: self.entry_tile(side).0 as i32, y: self.entry_tile(side).1 as i32 }
    }
}

} // verus!
