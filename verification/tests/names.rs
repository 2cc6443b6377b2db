use topdown::names::{
    backpack_texture, clothes_texture, file_name, gun_texture, has_ending, is_picture, is_sound,
    shooting_sound,
};
use topdown::tile_map::{atlas_slot, drawn_flips};

#[test]
fn file_name_is_what_follows_the_last_separator() {
    assert_eq!(file_name("assets/guns/sniper_idle.png", '/'), "sniper_idle.png");
    assert_eq!(file_name("assets\\sounds\\shot.wav", '\\'), "shot.wav");
    assert_eq!(file_name("assets\\sounds/shot.wav", '\\'), "sounds/shot.wav");
}

#[test]
fn file_name_without_separator_is_the_whole_path() {
    assert_eq!(file_name("tiles.png", '/'), "tiles.png");
    assert_eq!(file_name("", '/'), "");
}

#[test]
fn file_name_behind_a_closing_separator_is_empty() {
    assert_eq!(file_name("assets/", '/'), "");
    assert_eq!(file_name("/", '/'), "");
}

#[test]
fn file_name_counts_characters_not_bytes() {
    assert_eq!(file_name("bäume/grün/blätter.png", '/'), "blätter.png");
    assert_eq!(file_name("a→b→ç.wav", '→'), "ç.wav");
}

#[test]
fn ending_is_compared_character_by_character() {
    assert!(has_ending("tiles.png", ".png"));
    assert!(has_ending("tiles.png", ""));
    assert!(has_ending(".png", ".png"));
    assert!(!has_ending("png", ".png"));
    assert!(!has_ending("tiles.png.bak", ".png"));
    assert!(!has_ending("tiles.PNG", ".png"));
    assert!(has_ending("grün.ß", "n.ß"));
}

#[test]
fn pictures_and_sounds_are_told_by_their_ending() {
    assert!(is_picture("assets/tiles.png"));
    assert!(!is_picture("assets/shot.wav"));
    assert!(is_sound("assets/shot.wav"));
    assert!(!is_sound("assets/tiles.png"));
    assert!(!is_picture("assets/readme"));
    assert!(!is_sound(""));
}

#[test]
fn textures_are_named_after_item_and_stance() {
    assert_eq!(clothes_texture("blue", false), "blue_clothes_idle.png");
    assert_eq!(clothes_texture("red", true), "red_clothes_aiming.png");
    assert_eq!(gun_texture("sniper", false), "sniper_idle.png");
    assert_eq!(gun_texture("sawed_shotgun", true), "sawed_shotgun_aiming.png");
    assert_eq!(backpack_texture("brown_backpack"), "brown_backpack.png");
    assert_eq!(shooting_sound("sniper"), "sniper_shooting.wav");
}

#[test]
fn tiles_lie_row_by_row_in_their_picture() {
    assert_eq!(atlas_slot(0), None);
    assert_eq!(atlas_slot(1), Some((0, 0)));
    assert_eq!(atlas_slot(8), Some((7, 0)));
    assert_eq!(atlas_slot(9), Some((0, 1)));
    assert_eq!(atlas_slot(20), Some((3, 2)));
    assert_eq!(atlas_slot(0x1FFF_FFFF), Some((6, 0x3FF_FFFF)));
}

#[test]
fn turned_tiles_are_mirrored_the_other_way() {
    assert_eq!(drawn_flips(false, false, false), (false, false));
    assert_eq!(drawn_flips(true, false, false), (true, false));
    assert_eq!(drawn_flips(false, true, false), (false, true));
    assert_eq!(drawn_flips(true, true, false), (true, true));
    assert_eq!(drawn_flips(false, false, true), (false, true));
    assert_eq!(drawn_flips(true, false, true), (false, true));
    assert_eq!(drawn_flips(false, true, true), (false, false));
    assert_eq!(drawn_flips(true, true, true), (false, false));
}
