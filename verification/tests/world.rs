use topdown::entities::Bullet;
use topdown::entities::Grenade;
use topdown::geometry::Point;
use topdown::sight::Direction;
use topdown::player::Player;
use topdown::tile_map::TileMap;
use topdown::world::{view_cell_of, FpsBarGraph, World, FPS_RECORD_LEN};

fn small_map() -> TileMap {
    // Six columns, four rows, every tile free but the one at (4, 1).
    let mut data = vec![1u32; 24];
    data[1 * 6 + 4] = 2;
    TileMap::new(6, 4, data, vec![false, true]).unwrap()
}

#[test]
fn view_ends_in_the_cell_of_its_world_unit() {
    assert_eq!(view_cell_of(0), 0);
    assert_eq!(view_cell_of(7_999), 0);
    assert_eq!(view_cell_of(8_000), 1);
    assert_eq!(view_cell_of(23_999), 2);
    assert_eq!(view_cell_of(-1), 0);
    assert_eq!(view_cell_of(i32::MIN), 0);
    assert_eq!(view_cell_of(65_535_999), 8191);
    assert_eq!(view_cell_of(65_536_000), 8191);
    assert_eq!(view_cell_of(i32::MAX), 8191);
}

#[test]
fn view_shows_its_cells_row_by_row() {
    let map = small_map();
    let tiles = map.tiles_in_view(Point { x: 9_000, y: 8_000 }, Point { x: 30_000, y: 17_000 });
    assert_eq!(tiles, vec![(1, 1), (2, 1), (3, 1), (1, 2), (2, 2), (3, 2)]);
}

#[test]
fn view_is_cut_at_the_edge_of_the_grid() {
    let map = small_map();
    let tiles = map.tiles_in_view(Point { x: -50_000, y: 20_000 }, Point { x: 900_000, y: 900_000 });
    let mut expected = Vec::new();
    for y in 2..4u16 {
        for x in 0..6u16 {
            expected.push((x, y));
        }
    }
    assert_eq!(tiles, expected);
}

#[test]
fn view_beside_the_grid_shows_nothing() {
    let map = small_map();
    let beyond = map.tiles_in_view(Point { x: 48_000, y: 0 }, Point { x: 80_000, y: 8_000 });
    assert!(beyond.is_empty());
    let turned = map.tiles_in_view(Point { x: 30_000, y: 30_000 }, Point { x: 0, y: 0 });
    assert!(turned.is_empty());
}

#[test]
fn view_of_one_point_shows_one_cell() {
    let map = small_map();
    let at = Point { x: 44_000, y: 31_999 };
    assert_eq!(map.tiles_in_view(at, at), vec![(5, 3)]);
}

#[test]
fn new_world_is_empty() {
    let world = World::new(small_map());
    assert_eq!(world.tile_map.width(), 6);
    assert_eq!(world.tile_map.height(), 4);
    assert!(world.entities.bullets.is_empty());
    assert!(world.entities.grenades.is_empty());
    assert!(world.entities.other_players.is_empty());
    assert_eq!(world.entities.other_player_index, 0);
}

#[test]
fn world_frame_fires_the_volley_and_turns_the_others() {
    let mut world = World::new(small_map());
    world.entities.add_player(Player::new(2, 2));
    world.entities.grenades.push(Grenade::thrown(Point { x: 1_000, y: 1_000 }));
    let east = Direction { dx: 1_000_000, dy: 0 };
    let shot = Bullet::fired(Point { x: 4_000, y: 4_000 }, 10_000, 0, east);
    world.update(vec![shot], &vec![777], 1000, 16);

    assert_eq!(world.entities.bullets.len(), 1);
    let bullet = world.entities.bullets[0];
    assert_eq!(bullet.vel, 9_850);
    assert_eq!(bullet.last_pos, Point { x: 4_000, y: 4_000 });
    assert_eq!(bullet.pos, Point { x: 13_850, y: 4_000 });
    assert_eq!(bullet.hit_something, None);

    assert_eq!(world.entities.grenades.len(), 1);
    assert_eq!(world.entities.other_players.len(), 1);
    assert_eq!(world.entities.other_players[0].unwrap().angle, 777);
}

#[test]
fn world_frame_stops_a_bullet_at_the_wall() {
    let mut world = World::new(small_map());
    let east = Direction { dx: 1_000_000, dy: 0 };
    let shot = Bullet::fired(Point { x: 28_000, y: 12_000 }, 10_150, 0, east);
    world.update(vec![shot], &Vec::new(), 1000, 16);
    let bullet = world.entities.bullets[0];
    assert_eq!(bullet.hit_something, Some(Point { x: 32_000, y: 12_000 }));
    // The next frame takes the spent bullet away.
    world.update(Vec::new(), &Vec::new(), 1000, 16);
    assert!(world.entities.bullets.is_empty());
}

#[test]
fn new_graph_holds_a_hundred_empty_frames() {
    let graph = FpsBarGraph::new();
    assert_eq!(FPS_RECORD_LEN, 100);
    assert_eq!(graph.fps_record.len(), 100);
    assert!(graph.fps_record.iter().all(|fps| *fps == 0));
    assert_eq!(graph.highest_fps, 0);
}

#[test]
fn graph_takes_the_newest_and_drops_the_oldest() {
    let mut graph = FpsBarGraph::new();
    graph.update(60);
    graph.update(45);
    assert_eq!(graph.fps_record.len(), 100);
    assert_eq!(graph.fps_record[99], 45);
    assert_eq!(graph.fps_record[98], 60);
    assert_eq!(graph.fps_record[97], 0);
    assert_eq!(graph.highest_fps, 60);
    for _ in 0..99 {
        graph.update(30);
    }
    assert_eq!(graph.fps_record[0], 45);
    assert_eq!(graph.fps_record[1], 30);
    assert_eq!(graph.highest_fps, 60);
    graph.update(144);
    assert_eq!(graph.highest_fps, 144);
    assert_eq!(graph.fps_record[0], 30);
}

#[test]
fn graph_keeps_zero_as_highest_below_zero() {
    let mut graph = FpsBarGraph::new();
    graph.update(-5);
    assert_eq!(graph.highest_fps, 0);
    assert_eq!(graph.fps_record[99], -5);
}
