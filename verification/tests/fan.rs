use topdown::fan::{cast_fan, count_rays};
use topdown::fixed::{HALF_TURN, QUARTER_TURN};
use topdown::player::Player;

#[test]
fn count_is_the_product_in_rays_made_odd() {
    // Half a turn, 184 world units, 1.8 rays: 1040.49..., made odd.
    assert_eq!(count_rays(3_141_593, 184_000, 1_800), 1041);
    // 8 rays: 4624.42..., made odd.
    assert_eq!(count_rays(3_141_593, 184_000, 8_000), 4625);
    // One radian, one unit, three rays: odd as it is.
    assert_eq!(count_rays(1_000_000, 1_000, 3_000), 3);
    assert_eq!(count_rays(1_000_000, 1_000, 4_000), 5);
}

#[test]
fn count_is_never_less_than_one() {
    assert_eq!(count_rays(0, 0, 0), 1);
    assert_eq!(count_rays(1, 1, 1), 1);
    assert_eq!(count_rays(1_000_000, 1_000, 999), 1);
    assert_eq!(count_rays(1_000_000, 1_000, 1_000), 1);
    assert_eq!(count_rays(1_000_000, 1_000, 2_000), 3);
}

#[test]
fn largest_count_does_not_overflow() {
    assert_eq!(count_rays(u32::MAX, u32::MAX, u32::MAX), 79_228_162_458_924_105);
}

#[test]
fn fan_of_three() {
    assert_eq!(cast_fan(0, 1_000, 3), vec![-333, 0, 333]);
    assert_eq!(cast_fan(500, 1_000, 3), vec![167, 500, 833]);
    assert_eq!(cast_fan(-500, 600, 3), vec![-700, -500, -300]);
}

#[test]
fn fan_of_one_looks_ahead() {
    assert_eq!(cast_fan(123_456, 3_141_593, 1), vec![123_456]);
}

#[test]
fn even_fan_has_no_middle_ray_but_is_balanced() {
    assert_eq!(cast_fan(0, 1_000, 2), vec![-250, 250]);
    assert_eq!(cast_fan(0, 1_000, 4), vec![-375, -125, 125, 375]);
}

#[test]
fn middle_ray_is_exactly_the_facing() {
    for facing in [0, 1, -1, 1_570_796, -3_141_593, i32::MAX, i32::MIN] {
        for count in [1u64, 3, 5, 101, 1041] {
            let angles = cast_fan(facing, 3_141_593, count);
            assert_eq!(angles.len() as u64, count);
            assert_eq!(angles[(count as usize - 1) / 2], facing as i64);
        }
    }
}

#[test]
fn fan_is_the_same_to_both_sides_and_inside_the_field() {
    let facing = 700_001;
    let fov = 3_141_593u32;
    let angles = cast_fan(facing, fov, 1041);
    for i in 0..angles.len() {
        let left = angles[i] - facing as i64;
        let right = angles[angles.len() - 1 - i] - facing as i64;
        assert_eq!(left, -right);
        assert!(2 * left.abs() <= fov as i64);
        if i > 0 {
            assert!(angles[i - 1] < angles[i]);
        }
    }
}

#[test]
fn player_looks_a_quarter_turn_on_from_its_angle() {
    let mut player = Player::new(52, 55);
    player.angle = 250_000;
    let angles = player.get_player_rays(HALF_TURN as u32, 184_000, 1_800);
    assert_eq!(angles.len(), 1041);
    assert_eq!(angles[520], 250_000 + QUARTER_TURN as i64);
    assert_eq!(angles[0] - angles[520], -(angles[1040] - angles[520]));
    // The outermost ray stands half a part inside the edge of the field.
    assert_eq!(angles[1040] - angles[520], (1040i64 * 3_141_593) / 2082);
}

#[test]
fn player_at_the_end_of_the_angles_still_gets_its_fan() {
    let mut player = Player::new(0, 0);
    player.angle = i32::MAX;
    let angles = player.get_player_rays(1_000, 1_000, 3_000_000);
    assert_eq!(angles, vec![i32::MAX as i64 - 333, i32::MAX as i64, i32::MAX as i64 + 333]);
}
