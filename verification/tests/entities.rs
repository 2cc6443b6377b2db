use topdown::entities::{is_visible, line_collides_with_players, Bullet, EntityManager, Grenade};
use topdown::geometry::{LineSegment, Point};
use topdown::player::Player;
use topdown::sight::Direction;
use topdown::tile_map::TileMap;

const EAST: Direction = Direction { dx: 1_000_000, dy: 0 };
const SOUTH: Direction = Direction { dx: 0, dy: 1_000_000 };

fn walled_map() -> TileMap {
    let mut data = vec![1u32; 100];
    data[2 * 10 + 3] = 2;
    TileMap::new(10, 10, data, vec![false, true]).unwrap()
}

fn open_map() -> TileMap {
    TileMap::new(100, 100, vec![1; 10_000], vec![false]).unwrap()
}

#[test]
fn fired_bullet_flies_from_where_it_is() {
    let bullet = Bullet::fired(Point { x: 5, y: 6 }, 6_500, 77, EAST);
    assert_eq!(bullet.pos, Point { x: 5, y: 6 });
    assert_eq!(bullet.last_pos, Point { x: 5, y: 6 });
    assert_eq!(bullet.vel, 6_500);
    assert_eq!(bullet.angle, 77);
    assert_eq!(bullet.heading, EAST);
    assert_eq!(bullet.hit_something, None);
}

#[test]
fn drag_comes_before_the_move() {
    let mut bullet = Bullet::fired(Point { x: 1_000, y: 2_000 }, 6_500, 0, EAST);
    bullet.advance(1000);
    assert_eq!(bullet.vel, 6_350);
    assert_eq!(bullet.last_pos, Point { x: 1_000, y: 2_000 });
    assert_eq!(bullet.pos, Point { x: 7_350, y: 2_000 });
    // Half a frame: half the drag, half the way.
    bullet.advance(500);
    assert_eq!(bullet.vel, 6_275);
    assert_eq!(bullet.last_pos, Point { x: 7_350, y: 2_000 });
    assert_eq!(bullet.pos, Point { x: 7_350 + 3_137, y: 2_000 });
}

#[test]
fn bullet_flying_backwards_slows_down_towards_rest() {
    let mut bullet = Bullet::fired(Point { x: 0, y: 0 }, -400, 0, SOUTH);
    bullet.advance(1000);
    assert_eq!(bullet.vel, -250);
    assert_eq!(bullet.pos, Point { x: 0, y: -250 });
    bullet.advance(1000);
    assert_eq!(bullet.vel, -100);
    bullet.advance(1000);
    assert_eq!(bullet.vel, 0);
    assert_eq!(bullet.pos, Point { x: 0, y: -350 });
    bullet.advance(1000);
    assert_eq!(bullet.vel, 0);
    assert_eq!(bullet.pos, Point { x: 0, y: -350 });
}

#[test]
fn slanted_bullet_moves_on_both_axes() {
    let heading = Direction { dx: 600_000, dy: -800_000 };
    let mut bullet = Bullet::fired(Point { x: 0, y: 0 }, 1_150, 0, heading);
    bullet.advance(1000);
    assert_eq!(bullet.vel, 1_000);
    assert_eq!(bullet.pos, Point { x: 600, y: -800 });
}

#[test]
fn bullet_decays_to_rest_and_lies_where_it_stops() {
    let map = open_map();
    let mut entities = EntityManager::new();
    let start = Point { x: 400_000, y: 400_000 };
    let volley = vec![Bullet::fired(start, 6_500, 0, EAST)];
    entities.handle_shooting(&map, volley, 1000, 16);
    let mut frames = 1;
    let mut covered: i32 = 6_350;
    assert_eq!(entities.bullets[0].pos, Point { x: 406_350, y: 400_000 });
    while entities.bullets[0].hit_something.is_none() {
        assert!(frames < 44);
        entities.handle_shooting(&map, vec![], 1000, 16);
        frames += 1;
        covered += entities.bullets[0].vel;
        assert_eq!(entities.bullets[0].vel, (6_500 - 150 * frames).max(0));
        assert_eq!(entities.bullets[0].pos.x, 400_000 + covered);
    }
    // 6500 / 150 = 43.3...: at rest in the 44th frame.
    assert_eq!(frames, 44);
    assert_eq!(entities.bullets[0].vel, 0);
    // The sum of the speeds 6350, 6200, ..., 50.
    assert_eq!(covered, 137_600);
    assert_eq!(entities.bullets[0].pos, Point { x: 537_600, y: 400_000 });
    assert_eq!(entities.bullets[0].hit_something, Some(Point { x: 537_600, y: 400_000 }));
    // It stays for the frame in which it came to rest and is gone in the next.
    assert_eq!(entities.bullets.len(), 1);
    entities.handle_shooting(&map, vec![], 1000, 16);
    assert_eq!(entities.bullets.len(), 0);
}

#[test]
fn bullet_hits_the_wall_where_its_way_crosses_it() {
    let map = walled_map();
    let mut entities = EntityManager::new();
    let volley = vec![Bullet::fired(Point { x: 20_000, y: 20_000 }, 6_650, 0, EAST)];
    entities.handle_shooting(&map, volley, 1000, 16);
    let bullet = entities.bullets[0];
    assert_eq!(bullet.vel, 6_500);
    assert_eq!(bullet.last_pos, Point { x: 20_000, y: 20_000 });
    assert_eq!(bullet.pos, Point { x: 26_500, y: 20_000 });
    assert_eq!(bullet.hit_something, Some(Point { x: 24_000, y: 20_000 }));
}

#[test]
fn bullet_that_falls_short_of_the_wall_flies_on() {
    let map = walled_map();
    let mut entities = EntityManager::new();
    let volley = vec![Bullet::fired(Point { x: 10_000, y: 20_000 }, 6_650, 0, EAST)];
    entities.handle_shooting(&map, volley, 1000, 16);
    assert_eq!(entities.bullets[0].pos, Point { x: 16_500, y: 20_000 });
    assert_eq!(entities.bullets[0].hit_something, None);
    entities.handle_shooting(&map, vec![], 1000, 16);
    assert_eq!(entities.bullets[0].pos, Point { x: 22_850, y: 20_000 });
    assert_eq!(entities.bullets[0].hit_something, None);
    entities.handle_shooting(&map, vec![], 1000, 16);
    assert_eq!(entities.bullets[0].pos, Point { x: 29_050, y: 20_000 });
    assert_eq!(entities.bullets[0].hit_something, Some(Point { x: 24_000, y: 20_000 }));
}

#[test]
fn bullet_hits_another_player() {
    let map = open_map();
    let mut entities = EntityManager::new();
    // Stands at (40 500, 40 500); its hitbox begins at x = 38 150.
    entities.add_player(Player::new(5, 5));
    let volley = vec![Bullet::fired(Point { x: 30_000, y: 40_500 }, 10_150, 0, EAST)];
    entities.handle_shooting(&map, volley, 1000, 16);
    assert_eq!(entities.bullets[0].pos, Point { x: 40_000, y: 40_500 });
    assert_eq!(entities.bullets[0].hit_something, Some(Point { x: 38_150, y: 40_500 }));
    assert_eq!(entities.other_players.len(), 1);
}

#[test]
fn wall_comes_before_a_player_behind_it() {
    let map = walled_map();
    let mut entities = EntityManager::new();
    let mut target = Player::new(0, 0);
    target._tp(Point { x: 36_000, y: 20_000 });
    entities.add_player(target);
    let volley = vec![Bullet::fired(Point { x: 20_000, y: 20_000 }, 20_150, 0, EAST)];
    entities.handle_shooting(&map, volley, 1000, 16);
    assert_eq!(entities.bullets[0].pos, Point { x: 40_000, y: 20_000 });
    assert_eq!(entities.bullets[0].hit_something, Some(Point { x: 24_000, y: 20_000 }));
}

#[test]
fn bullet_stops_at_the_nearer_of_two_walls() {
    let mut data = vec![1u32; 100];
    data[2 * 10 + 3] = 2;
    data[2 * 10 + 6] = 2;
    let map = TileMap::new(10, 10, data, vec![false, true]).unwrap();
    let mut entities = EntityManager::new();
    let west = Direction { dx: -1_000_000, dy: 0 };
    let volley = vec![Bullet::fired(Point { x: 70_000, y: 20_000 }, 60_150, 0, west)];
    entities.handle_shooting(&map, volley, 1000, 16);
    assert_eq!(entities.bullets[0].pos, Point { x: 10_000, y: 20_000 });
    assert_eq!(entities.bullets[0].hit_something, Some(Point { x: 56_000, y: 20_000 }));
}

#[test]
fn bullet_at_rest_from_the_start_lies_where_it_is() {
    let map = walled_map();
    let mut entities = EntityManager::new();
    let volley = vec![Bullet::fired(Point { x: 28_000, y: 20_000 }, 100, 0, EAST)];
    entities.handle_shooting(&map, volley, 1000, 16);
    assert_eq!(entities.bullets[0].vel, 0);
    assert_eq!(entities.bullets[0].hit_something, Some(Point { x: 28_000, y: 20_000 }));
}

#[test]
fn spent_bullets_leave_and_flying_ones_stay_in_order() {
    let mut entities = EntityManager::new();
    let flying = |x: i32| Bullet::fired(Point { x, y: 0 }, 1_000, 0, EAST);
    let mut spent = flying(2);
    spent.hit_something = Some(Point { x: 9, y: 9 });
    entities.bullets = vec![flying(1), spent, flying(3), spent, spent, flying(4)];
    entities.remove_spent_bullets();
    assert_eq!(entities.bullets, vec![flying(1), flying(3), flying(4)]);
    entities.remove_spent_bullets();
    assert_eq!(entities.bullets.len(), 3);
}

#[test]
fn volley_joins_behind_the_bullets_that_fly() {
    let map = open_map();
    let mut entities = EntityManager::new();
    let at = |x: i32| Bullet::fired(Point { x, y: 400_000 }, 1_150, 0, EAST);
    entities.handle_shooting(&map, vec![at(100_000)], 1000, 16);
    entities.handle_shooting(&map, vec![at(200_000), at(300_000)], 1000, 16);
    assert_eq!(entities.bullets.len(), 3);
    assert_eq!(entities.bullets[0].pos.x, 101_850);
    assert_eq!(entities.bullets[1].pos.x, 201_000);
    assert_eq!(entities.bullets[2].pos.x, 301_000);
}

#[test]
fn grenade_turns_slower_as_its_fuse_burns() {
    let mut grenade = Grenade::thrown(Point { x: 1, y: 2 });
    assert_eq!(grenade.fuse_time, 5_000);
    assert_eq!(grenade.rotation, 0);
    assert_eq!(grenade.rotation_speed, 100_000);
    grenade.tick(16);
    assert_eq!(grenade.rotation_speed, 150_000);
    assert_eq!(grenade.rotation, 150_000);
    assert_eq!(grenade.fuse_time, 4_984);
    grenade.tick(16);
    assert_eq!(grenade.rotation_speed, 149_520);
    assert_eq!(grenade.rotation, 299_520);
    assert_eq!(grenade.fuse_time, 4_968);
    assert_eq!(grenade.pos, Point { x: 1, y: 2 });
}

#[test]
fn burnt_grenades_are_taken_away() {
    let mut entities = EntityManager::new();
    let mut short = Grenade::thrown(Point { x: 0, y: 0 });
    short.fuse_time = 16;
    let mut shorter = Grenade::thrown(Point { x: 1, y: 0 });
    shorter.fuse_time = 5;
    let long = Grenade::thrown(Point { x: 2, y: 0 });
    entities.grenades = vec![short, long, shorter];
    entities.update_grenades(16);
    assert_eq!(entities.grenades.len(), 1);
    assert_eq!(entities.grenades[0].pos, Point { x: 2, y: 0 });
    assert_eq!(entities.grenades[0].fuse_time, 4_984);
    let map = open_map();
    entities.handle_shooting(&map, vec![], 1000, 5_000);
    assert_eq!(entities.grenades.len(), 0);
}

#[test]
fn players_are_added_at_the_slot_that_the_index_names() {
    let mut entities = EntityManager::new();
    assert_eq!(entities.other_players.len(), 0);
    assert_eq!(entities.other_player_index, 0);
    entities.add_player(Player::new(1, 1));
    entities.add_player(Player::new(2, 2));
    // The index stays at nothing: the later player stands in front.
    assert_eq!(entities.other_players.len(), 2);
    assert_eq!(entities.other_players[0].unwrap().pos, Point { x: 16_500, y: 16_500 });
    assert_eq!(entities.other_players[1].unwrap().pos, Point { x: 8_500, y: 8_500 });
    entities.other_player_index = 1;
    entities.add_player(Player::new(3, 3));
    assert_eq!(entities.other_players[1].unwrap().pos, Point { x: 24_500, y: 24_500 });
    assert_eq!(entities.other_players[2].unwrap().pos, Point { x: 8_500, y: 8_500 });
    // An index beyond the end puts the player at the end.
    entities.other_player_index = 99;
    entities.add_player(Player::new(4, 4));
    assert_eq!(entities.other_players.len(), 4);
    assert_eq!(entities.other_players[3].unwrap().pos, Point { x: 32_500, y: 32_500 });
}

#[test]
fn other_players_turn_to_their_bearings() {
    let mut entities = EntityManager::new();
    entities.other_players = vec![Some(Player::new(1, 1)), None, Some(Player::new(2, 2))];
    entities.update(&vec![10, 20]);
    assert_eq!(entities.other_players[0].unwrap().angle, 10);
    assert!(entities.other_players[1].is_none());
    assert_eq!(entities.other_players[2].unwrap().angle, 0);
    entities.update(&vec![11, 21, 31, 41]);
    assert_eq!(entities.other_players[0].unwrap().angle, 11);
    assert_eq!(entities.other_players[2].unwrap().angle, 31);
    assert_eq!(entities.other_players[2].unwrap().pos, Point { x: 16_500, y: 16_500 });
}

#[test]
fn line_hits_the_first_player_in_order() {
    let near = Player::new(5, 5);
    let far = Player::new(8, 5);
    let line = LineSegment { x1: 0, y1: 40_500, x2: 80_000, y2: 40_500 };
    let others = vec![None, Some(far), Some(near)];
    // The one that stands first among the players, not the nearer one.
    assert_eq!(
        line_collides_with_players(&others, &line),
        Some(Point { x: 62_150, y: 40_500 })
    );
    let others = vec![Some(near), None, Some(far)];
    assert_eq!(
        line_collides_with_players(&others, &line),
        Some(Point { x: 38_150, y: 40_500 })
    );
    let miss = LineSegment { x1: 0, y1: 0, x2: 80_000, y2: 0 };
    assert_eq!(line_collides_with_players(&others, &miss), None);
    assert_eq!(line_collides_with_players(&vec![], &line), None);
    let mut entities = EntityManager::new();
    entities.other_players = others;
    assert_eq!(entities.line_collides_with_entity(&line), Some(Point { x: 38_150, y: 40_500 }));
}

#[test]
fn seen_in_a_visible_cell_or_near_the_viewer() {
    let tiles = vec![(3u16, 0u16), (3, 1), (3, 2)];
    let viewer = Point { x: 28_000, y: 4_000 };
    assert!(is_visible(Point { x: 24_000, y: 16_000 }, viewer, &tiles));
    assert!(is_visible(Point { x: 31_999, y: 23_999 }, viewer, &tiles));
    assert!(!is_visible(Point { x: 32_000, y: 23_999 }, viewer, &tiles));
    assert!(!is_visible(Point { x: 28_000, y: 24_000 }, viewer, &tiles));
    // Nearer than eighteen world units, whatever the cells say.
    assert!(is_visible(Point { x: 45_999, y: 4_000 }, viewer, &tiles));
    assert!(!is_visible(Point { x: 46_000, y: 4_000 }, viewer, &tiles));
    assert!(is_visible(Point { x: 28_000 - 10_800, y: 4_000 - 14_399 }, viewer, &vec![]));
    assert!(!is_visible(Point { x: 28_000 - 10_800, y: 4_000 - 14_400 }, viewer, &vec![]));
    // Outside the grid there is no cell to be seen in.
    assert!(!is_visible(Point { x: -30_000, y: 4_000 }, viewer, &tiles));
    assert!(!is_visible(Point { x: i32::MAX, y: i32::MIN }, Point { x: i32::MIN, y: i32::MAX }, &tiles));
}
