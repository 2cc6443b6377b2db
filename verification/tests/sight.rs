use topdown::geometry::Point;
use topdown::sight::Direction;
use topdown::tile_map::TileMap;

const SOUTH: Direction = Direction { dx: 0, dy: 1 };
const NORTH: Direction = Direction { dx: 0, dy: -1 };
const EAST: Direction = Direction { dx: 1, dy: 0 };
const WEST: Direction = Direction { dx: -1, dy: 0 };

fn walled_map() -> TileMap {
    let mut data = vec![1u32; 100];
    data[2 * 10 + 3] = 2;
    TileMap::new(10, 10, data, vec![false, true]).unwrap()
}

fn open_map() -> TileMap {
    TileMap::new(10, 10, vec![1; 100], vec![false, true]).unwrap()
}

#[test]
fn ray_south_stops_in_the_blocking_cell() {
    let map = walled_map();
    let cells = map.find_tiles_for_ray(SOUTH, Point { x: 28_000, y: 4_000 }, 80_000);
    assert_eq!(cells, vec![(3, 0), (3, 1), (3, 2)]);
    // Nothing south of the blocking cell is seen.
    for y in 3..10u16 {
        assert!(!cells.contains(&(3, y)));
    }
}

#[test]
fn same_ray_on_the_open_map_runs_to_the_edge() {
    let map = open_map();
    let cells = map.find_tiles_for_ray(SOUTH, Point { x: 28_000, y: 4_000 }, 80_000);
    let expected: Vec<(u16, u16)> = (0..10).map(|y| (3, y)).collect();
    assert_eq!(cells, expected);
}

#[test]
fn sight_is_the_beginning_of_the_open_path() {
    let walled = walled_map();
    let open = open_map();
    let origin = Point { x: 4_000, y: 20_000 };
    let seen = walled.find_tiles_for_ray(EAST, origin, 200_000);
    let path = open.find_tiles_for_ray(EAST, origin, 200_000);
    assert_eq!(seen, vec![(0, 2), (1, 2), (2, 2), (3, 2)]);
    assert_eq!(path.len(), 10);
    assert_eq!(&path[..seen.len()], &seen[..]);
}

#[test]
fn ray_that_starts_in_a_blocking_cell_sees_only_that_cell() {
    let map = walled_map();
    let cells = map.find_tiles_for_ray(EAST, Point { x: 28_000, y: 20_000 }, 80_000);
    assert_eq!(cells, vec![(3, 2)]);
}

#[test]
fn ray_ends_where_it_has_gone_its_length() {
    let map = open_map();
    let origin = Point { x: 4_000, y: 4_000 };
    // The third cell is entered after 12 000, the fourth after 20 000.
    assert_eq!(map.find_tiles_for_ray(EAST, origin, 20_000), vec![(0, 0), (1, 0), (2, 0)]);
    assert_eq!(
        map.find_tiles_for_ray(EAST, origin, 20_001),
        vec![(0, 0), (1, 0), (2, 0), (3, 0)]
    );
    assert_eq!(map.find_tiles_for_ray(EAST, origin, 4_000), vec![(0, 0)]);
    assert_eq!(map.find_tiles_for_ray(EAST, origin, 4_001), vec![(0, 0), (1, 0)]);
    assert_eq!(map.find_tiles_for_ray(EAST, origin, 1), vec![(0, 0)]);
}

#[test]
fn ray_without_length_or_direction_sees_nothing() {
    let map = open_map();
    let origin = Point { x: 4_000, y: 4_000 };
    assert_eq!(map.find_tiles_for_ray(EAST, origin, 0), vec![]);
    assert_eq!(map.find_tiles_for_ray(Direction { dx: 0, dy: 0 }, origin, 80_000), vec![]);
}

#[test]
fn ray_from_outside_the_grid_sees_nothing() {
    let map = open_map();
    assert_eq!(map.find_tiles_for_ray(EAST, Point { x: -1, y: 4_000 }, 80_000), vec![]);
    assert_eq!(map.find_tiles_for_ray(WEST, Point { x: 80_000, y: 4_000 }, 80_000), vec![]);
    assert_eq!(map.find_tiles_for_ray(NORTH, Point { x: 4_000, y: 80_000 }, 80_000), vec![]);
    assert_eq!(map.find_tiles_for_ray(SOUTH, Point { x: 4_000, y: i32::MIN }, 80_000), vec![]);
}

#[test]
fn ray_stops_silently_at_the_edge() {
    let map = open_map();
    let cells = map.find_tiles_for_ray(WEST, Point { x: 20_000, y: 4_000 }, u32::MAX);
    assert_eq!(cells, vec![(2, 0), (1, 0), (0, 0)]);
    let cells = map.find_tiles_for_ray(NORTH, Point { x: 4_000, y: 12_000 }, u32::MAX);
    assert_eq!(cells, vec![(0, 1), (0, 0)]);
}

#[test]
fn ray_on_a_grid_line_going_back_enters_the_cell_behind_at_once() {
    let map = open_map();
    // The start lies on the line between columns 1 and 2, in column 2.
    let cells = map.find_tiles_for_ray(WEST, Point { x: 16_000, y: 4_000 }, 1);
    assert_eq!(cells, vec![(2, 0), (1, 0)]);
    let cells = map.find_tiles_for_ray(EAST, Point { x: 16_000, y: 4_000 }, 8_000);
    assert_eq!(cells, vec![(2, 0)]);
}

#[test]
fn diagonal_through_the_corners_takes_the_row_first() {
    let map = open_map();
    let cells = map.find_tiles_for_ray(
        Direction { dx: 1, dy: 1 },
        Point { x: 4_000, y: 4_000 },
        100_000,
    );
    let mut expected: Vec<(u16, u16)> = Vec::new();
    for k in 0..10u16 {
        expected.push((k, k));
        if k < 9 {
            expected.push((k, k + 1));
        }
    }
    assert_eq!(cells.len(), 19);
    assert_eq!(cells, expected);
}

#[test]
fn shallow_ray_crosses_columns_more_often_than_rows() {
    let map = open_map();
    // Three to the right for each one down, from the middle of cell (0, 0).
    let cells = map.find_tiles_for_ray(
        Direction { dx: 3, dy: 1 },
        Point { x: 4_000, y: 4_000 },
        40_000,
    );
    // The ray leaves column 1 and row 0 in the same point, and column 4 and
    // row 1 likewise: the row comes first each time. Cell (5, 2) is entered
    // after 36 000 along x, which is 37 947 along the ray; cell (6, 2) would
    // be entered after 46 381.
    assert_eq!(
        cells,
        vec![(0, 0), (1, 0), (1, 1), (2, 1), (3, 1), (4, 1), (4, 2), (5, 2)]
    );
    let shorter = map.find_tiles_for_ray(
        Direction { dx: 3, dy: 1 },
        Point { x: 4_000, y: 4_000 },
        37_947,
    );
    assert_eq!(shorter, vec![(0, 0), (1, 0), (1, 1), (2, 1), (3, 1), (4, 1)]);
}

#[test]
fn scale_of_the_direction_does_not_matter() {
    let map = walled_map();
    let origin = Point { x: 4_321, y: 9_876 };
    let small = map.find_tiles_for_ray(Direction { dx: 2, dy: 1 }, origin, 60_000);
    let large = map.find_tiles_for_ray(Direction { dx: 2_000_000, dy: 1_000_000 }, origin, 60_000);
    assert_eq!(small, large);
}

#[test]
fn steepest_directions_do_not_overflow() {
    let map = open_map();
    let origin = Point { x: 4_000, y: 4_000 };
    let cells = map.find_tiles_for_ray(Direction { dx: i32::MIN, dy: i32::MIN }, origin, u32::MAX);
    assert_eq!(cells, vec![(0, 0)]);
    let cells = map.find_tiles_for_ray(Direction { dx: i32::MAX, dy: 1 }, origin, u32::MAX);
    let expected: Vec<(u16, u16)> = (0..10).map(|x| (x, 0)).collect();
    assert_eq!(cells, expected);
}

#[test]
fn every_ray_moves_on_by_one_cell_and_never_comes_back() {
    let map = walled_map();
    let directions = [
        Direction { dx: 5, dy: 3 },
        Direction { dx: -5, dy: 3 },
        Direction { dx: 5, dy: -3 },
        Direction { dx: -7, dy: -2 },
        Direction { dx: 1, dy: 100 },
        Direction { dx: -100, dy: 1 },
    ];
    let origin = Point { x: 44_500, y: 41_250 };
    for d in directions {
        let cells = map.find_tiles_for_ray(d, origin, 150_000);
        assert_eq!(cells[0], (5, 5));
        assert!(cells.len() <= 20);
        for i in 1..cells.len() {
            let (ax, ay) = (cells[i - 1].0 as i32, cells[i - 1].1 as i32);
            let (bx, by) = (cells[i].0 as i32, cells[i].1 as i32);
            assert_eq!((bx - ax).abs() + (by - ay).abs(), 1);
            assert!((bx - ax) * d.dx >= 0 && (by - ay) * d.dy >= 0);
            let far = |c: (u16, u16)| (c.0 as i32 - 5).abs().max((c.1 as i32 - 5).abs());
            assert!(far(cells[i - 1]) <= far(cells[i]));
            assert!(!map.blocks_at(cells[i - 1].0, cells[i - 1].1));
        }
        for i in 0..cells.len() {
            for j in 0..i {
                assert_ne!(cells[i], cells[j]);
            }
        }
    }
}

#[test]
fn trace_into_a_buffer_drops_what_it_held() {
    let map = walled_map();
    let mut buffer: Vec<(u16, u16)> = vec![(9, 9), (8, 8)];
    map.trace_ray(SOUTH, Point { x: 28_000, y: 4_000 }, 80_000, &mut buffer);
    assert_eq!(buffer, vec![(3, 0), (3, 1), (3, 2)]);
    map.trace_ray(SOUTH, Point { x: -5, y: 4_000 }, 80_000, &mut buffer);
    assert_eq!(buffer, vec![]);
}

#[test]
fn fan_of_rays_sees_each_cell_once() {
    let map = walled_map();
    let tiles = map.find_tiles(vec![SOUTH, SOUTH, EAST], 80_000, Point { x: 28_000, y: 4_000 });
    assert_eq!(
        tiles,
        vec![(3, 0), (3, 1), (3, 2), (4, 0), (5, 0), (6, 0), (7, 0), (8, 0), (9, 0)]
    );
}

#[test]
fn no_rays_see_nothing() {
    let map = walled_map();
    assert_eq!(map.find_tiles(vec![], 80_000, Point { x: 28_000, y: 4_000 }), vec![]);
    let still = Direction { dx: 0, dy: 0 };
    assert_eq!(map.find_tiles(vec![still], 80_000, Point { x: 28_000, y: 4_000 }), vec![]);
}

#[test]
fn rays_all_round_do_not_see_behind_the_wall() {
    let map = walled_map();
    let mut directions = Vec::new();
    for dx in -20..=20 {
        for dy in -20..=20 {
            directions.push(Direction { dx, dy });
        }
    }
    // From the middle of the cell west of the wall.
    let tiles = map.find_tiles(directions, 200_000, Point { x: 20_000, y: 20_000 });
    assert!(tiles.contains(&(2, 2)));
    assert!(tiles.contains(&(3, 2)));
    assert!(tiles.contains(&(0, 0)));
    assert!(tiles.contains(&(9, 9)));
    // Straight behind the wall, as far as the edge.
    for x in 4..10u16 {
        assert!(!tiles.contains(&(x, 2)));
    }
    let mut sorted = tiles.clone();
    sorted.sort();
    sorted.dedup();
    assert_eq!(sorted.len(), tiles.len());
}
