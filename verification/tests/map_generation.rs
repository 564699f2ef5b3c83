use lonely_wanderer::components::BlockingType;
use lonely_wanderer::map::{carve_corridor, connect_rooms, generate_map, plug, DungeonMap, Room};
use lonely_wanderer::position::GridPos;
use lonely_wanderer::tile::{Tile, TileSet, TileType};
use std::hash::{Hash, Hasher};

fn hash_of<T: Hash>(value: &T) -> u64 {
    let mut hasher = std::collections::hash_map::DefaultHasher::new();
    value.hash(&mut hasher);
    hasher.finish()
}

#[test]
fn mod_test_hash_eq() {
    let t1 = Tile {
        pos: GridPos::new(3, 3),
        kind: TileType::Floor,
    };

    let t2 = Tile {
        pos: GridPos::new(3, 3),
        kind: TileType::Wall,
    };

    let t3 = Tile {
        pos: GridPos::new(4, 3),
        kind: TileType::Floor,
    };

    let t4 = Tile {
        pos: GridPos::new(4, 3),
        kind: TileType::Wall,
    };

    let mut hasher_1 = std::collections::hash_map::DefaultHasher::new();
    let mut hasher_2 = std::collections::hash_map::DefaultHasher::new();
    let mut hasher_3 = std::collections::hash_map::DefaultHasher::new();
    let mut hasher_4 = std::collections::hash_map::DefaultHasher::new();

    let t1_hash = {
        t1.hash(&mut hasher_1);
        hasher_1.finish()
    };

    let t2_hash = {
        t2.hash(&mut hasher_2);
        hasher_2.finish()
    };

    let t3_hash = {
        t3.hash(&mut hasher_3);
        hasher_3.finish()
    };

    let t4_hash = {
        t4.hash(&mut hasher_4);
        hasher_4.finish()
    };

    assert_eq!(t1_hash, t2_hash, "first test failed");
    assert_ne!(t1_hash, t3_hash, "secont test failed");
    assert_eq!(t3_hash, t4_hash, "third test failed")
}

#[test]
fn grid_test_hash_eq() {
    let t1 = Tile {
        pos: GridPos::new(3, 3),
        kind: TileType::Floor,
    };

    let t2 = Tile {
        pos: GridPos::new(3, 3),
        kind: TileType::Wall,
    };

    let mut hasher = std::collections::hash_map::DefaultHasher::new();

    assert_eq!(t1.hash(&mut hasher), t2.hash(&mut hasher))
}

#[test]
fn tiles_are_equal_by_coordinate_only() {
    assert!(Tile::floor(3, 3) == Tile::wall(3, 3));
    assert!(Tile::floor(3, 3) != Tile::floor(4, 3));
    assert_eq!(hash_of(&Tile::floor(-7, 2)), hash_of(&Tile::wall(-7, 2)));
}

#[test]
fn replace_overwrites_and_insert_keeps() {
    let mut tiles = TileSet::new();
    assert!(tiles.insert(Tile::wall(1, 1)));
    assert_eq!(tiles.kind_at(GridPos::new(1, 1)), Some(TileType::Wall));
    // plain insertion keeps what is there
    assert!(!tiles.insert(Tile::floor(1, 1)));
    assert_eq!(tiles.kind_at(GridPos::new(1, 1)), Some(TileType::Wall));
    // replacing overwrites and hands the old tile back
    let old = tiles.replace(Tile::floor(1, 1)).expect("a tile stood there");
    assert_eq!(old.kind, TileType::Wall);
    assert_eq!(tiles.kind_at(GridPos::new(1, 1)), Some(TileType::Floor));
    assert!(tiles.replace(Tile::floor(2, 1)).is_none());
    assert_eq!(tiles.tiles().len(), 2);
    assert_eq!(tiles.kind_at(GridPos::new(5, 5)), None);
}

#[test]
fn rect_room_stamps_its_interior() {
    let mut tiles = TileSet::new();
    Room::new(GridPos::new(0, 0), 5, 5).create_rect_room(&mut tiles);
    assert_eq!(tiles.tiles().len(), 25);
    for x in -2..=2 {
        for y in -2..=2 {
            assert_eq!(tiles.kind_at(GridPos::new(x, y)), Some(TileType::Floor));
        }
    }
    assert_eq!(tiles.kind_at(GridPos::new(3, 0)), None);
    assert_eq!(tiles.kind_at(GridPos::new(-3, 0)), None);

    // even sides: the room reaches one tile further to the left and down
    let mut tiles = TileSet::new();
    Room::new(GridPos::new(10, 10), 2, 4).create_rect_room(&mut tiles);
    assert_eq!(tiles.tiles().len(), 8);
    assert_eq!(tiles.kind_at(GridPos::new(8, 9)), Some(TileType::Floor));
    assert_eq!(tiles.kind_at(GridPos::new(11, 10)), Some(TileType::Floor));
    assert_eq!(tiles.kind_at(GridPos::new(12, 10)), None);
    assert_eq!(tiles.kind_at(GridPos::new(8, 11)), None);
}

#[test]
fn rect_room_turns_walls_into_floor() {
    let mut tiles = TileSet::new();
    tiles.insert(Tile::wall(0, 0));
    Room::new(GridPos::new(0, 0), 1, 1).create_rect_room(&mut tiles);
    assert_eq!(tiles.kind_at(GridPos::new(0, 0)), Some(TileType::Floor));
    assert_eq!(tiles.tiles().len(), 1);
}

#[test]
fn corridor_runs_along_x_then_y() {
    let mut tiles = TileSet::new();
    carve_corridor(&mut tiles, GridPos::new(0, 0), GridPos::new(3, -2));
    // the row of the start up to the column of the end, then that column
    let expected = [(0, 0), (1, 0), (2, 0), (3, 0), (3, -1)];
    assert_eq!(tiles.tiles().len(), expected.len());
    for (x, y) in expected {
        assert_eq!(tiles.kind_at(GridPos::new(x, y)), Some(TileType::Floor));
    }
    // the end itself is left to the room that stands there
    assert_eq!(tiles.kind_at(GridPos::new(3, -2)), None);
}

#[test]
fn corridor_to_the_left_and_up() {
    let mut tiles = TileSet::new();
    carve_corridor(&mut tiles, GridPos::new(2, 1), GridPos::new(0, 3));
    let expected = [(2, 1), (1, 1), (0, 1), (0, 2)];
    assert_eq!(tiles.tiles().len(), expected.len());
    for (x, y) in expected {
        assert_eq!(tiles.kind_at(GridPos::new(x, y)), Some(TileType::Floor));
    }
}

#[test]
fn corridor_between_equal_points_is_empty() {
    let mut tiles = TileSet::new();
    carve_corridor(&mut tiles, GridPos::new(4, 4), GridPos::new(4, 4));
    assert_eq!(tiles.tiles().len(), 0);
}

#[test]
fn connect_rooms_joins_consecutive_rooms() {
    let mut map = DungeonMap::new();
    map.rooms.push(Room::new(GridPos::new(0, 0), 1, 1));
    map.rooms.push(Room::new(GridPos::new(2, 0), 1, 1));
    map.rooms.push(Room::new(GridPos::new(2, 2), 1, 1));
    connect_rooms(&mut map);
    let expected = [(0, 0), (1, 0), (2, 0), (2, 1)];
    assert_eq!(map.tiles.tiles().len(), expected.len());
    for (x, y) in expected {
        assert_eq!(map.tiles.kind_at(GridPos::new(x, y)), Some(TileType::Floor));
    }
    assert_eq!(map.rooms.len(), 3);
}

#[test]
fn plug_walls_in_a_single_floor_tile() {
    let mut map = DungeonMap::new();
    map.tiles.replace(Tile::floor(0, 0));
    plug(&mut map);
    assert_eq!(map.tiles.tiles().len(), 9);
    for x in -1..=1 {
        for y in -1..=1 {
            let expected = if (x, y) == (0, 0) {
                TileType::Floor
            } else {
                TileType::Wall
            };
            assert_eq!(map.tiles.kind_at(GridPos::new(x, y)), Some(expected));
        }
    }
}

#[test]
fn plug_never_walls_over_floor() {
    let mut map = DungeonMap::new();
    map.tiles.replace(Tile::floor(0, 0));
    map.tiles.replace(Tile::floor(1, 0));
    plug(&mut map);
    assert_eq!(map.tiles.kind_at(GridPos::new(0, 0)), Some(TileType::Floor));
    assert_eq!(map.tiles.kind_at(GridPos::new(1, 0)), Some(TileType::Floor));
    assert_eq!(map.tiles.tiles().len(), 12);
}

#[test]
fn plug_walls_only_around_floor() {
    let mut map = DungeonMap::new();
    map.tiles.insert(Tile::wall(10, 10));
    plug(&mut map);
    assert_eq!(map.tiles.tiles().len(), 1);
}

#[test]
fn plug_stops_at_the_edge_of_the_grid() {
    let mut map = DungeonMap::new();
    map.tiles.replace(Tile::floor(i32::MAX, i32::MIN));
    plug(&mut map);
    // only the neighbours that exist: to the left and above
    assert_eq!(map.tiles.tiles().len(), 4);
    assert_eq!(
        map.tiles.kind_at(GridPos::new(i32::MAX - 1, i32::MIN + 1)),
        Some(TileType::Wall)
    );
}

#[test]
fn two_rooms_and_a_corridor() {
    // a 5x5 room around the origin and a 5x5 room around (10, 0)
    let rooms = vec![
        Room::new(GridPos::new(0, 0), 5, 5),
        Room::new(GridPos::new(10, 0), 5, 5),
    ];
    let map = DungeonMap::build(rooms);
    let tiles = map.tiles.tiles();
    // each room with its ring of walls is 7x7; the corridor adds the three
    // columns between the rings, three tiles high
    assert_eq!(tiles.len(), 49 + 49 + 9);
    let floors = tiles.iter().filter(|t| t.kind == TileType::Floor).count();
    assert_eq!(floors, 25 + 25 + 5);
    for x in 0..=10 {
        assert_eq!(map.tiles.kind_at(GridPos::new(x, 0)), Some(TileType::Floor));
    }
    for x in 3..=7 {
        assert_eq!(map.tiles.kind_at(GridPos::new(x, 1)), Some(TileType::Wall));
        assert_eq!(map.tiles.kind_at(GridPos::new(x, -1)), Some(TileType::Wall));
    }
    assert_eq!(map.tiles.kind_at(GridPos::new(5, 2)), None);
}

#[test]
fn no_two_tiles_share_a_coordinate() {
    let rooms = vec![
        Room::new(GridPos::new(0, 0), 5, 5),
        Room::new(GridPos::new(2, 1), 4, 6),
        Room::new(GridPos::new(-3, 5), 3, 3),
    ];
    let map = DungeonMap::build(rooms);
    let tiles = map.tiles.tiles();
    let mut seen = std::collections::HashSet::new();
    for tile in tiles.iter() {
        assert!(seen.insert((tile.pos.x, tile.pos.y)));
    }
}

#[test]
fn generated_map_has_floor_at_the_origin() {
    for _ in 0..20 {
        let (map, spawner) = generate_map();
        assert!(map.rooms.len() >= 6 && map.rooms.len() <= 11);
        assert_eq!(map.tiles.kind_at(GridPos::new(0, 0)), Some(TileType::Floor));
        let tiles = map.tiles.tiles();
        let mut seen = std::collections::HashSet::new();
        for tile in tiles.iter() {
            assert!(seen.insert((tile.pos.x, tile.pos.y)));
        }
        // consecutive rooms are joined by floor
        for pair in map.rooms.windows(2) {
            let (a, b) = (pair[0].center, pair[1].center);
            let (x_low, x_high) = (a.x.min(b.x), a.x.max(b.x));
            for x in x_low..=x_high {
                assert_eq!(map.tiles.kind_at(GridPos::new(x, a.y)), Some(TileType::Floor));
            }
            let (y_low, y_high) = (a.y.min(b.y), a.y.max(b.y));
            for y in y_low..=y_high {
                assert_eq!(map.tiles.kind_at(GridPos::new(b.x, y)), Some(TileType::Floor));
            }
        }
        // monsters stand on floor, no two on one tile
        let monsters = spawner.monsters();
        assert_eq!(monsters.len() as u32, spawner.monster_count());
        let mut taken = std::collections::HashSet::new();
        for monster in monsters.iter() {
            assert_eq!(map.tiles.kind_at(monster.pos), Some(TileType::Floor));
            assert!(taken.insert((monster.pos.x, monster.pos.y)));
        }
    }
}

#[test]
fn walls_block_and_floor_does_not() {
    assert_eq!(
        TileType::Wall.blocking().map(|b| b.blocking_type),
        Some(BlockingType::Wall)
    );
    assert!(TileType::Floor.blocking().is_none());
}
