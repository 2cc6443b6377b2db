use topdown::palette::{Palette, Rgba};

fn grey(v: u8) -> Rgba {
    Rgba { r: v, g: v, b: v, a: 255 }
}

#[test]
fn hidden_pixel_gets_no_colour() {
    let hidden = Rgba { r: 67, g: 67, b: 67, a: 0 };
    assert_eq!(Palette::blue().recolour(hidden), None);
    assert_eq!(Palette::dark().recolour(hidden), None);
    assert_eq!(Palette::red().recolour(Rgba { r: 200, g: 1, b: 2, a: 0 }), None);
}

#[test]
fn blue_clothes_colour_each_of_the_five_shades() {
    let blue = Palette::blue();
    assert_eq!(blue.recolour(grey(67)), Some(Rgba { r: 41, g: 98, b: 173, a: 255 }));
    assert_eq!(blue.recolour(grey(47)), Some(Rgba { r: 56, g: 61, b: 115, a: 255 }));
    assert_eq!(blue.recolour(grey(64)), Some(Rgba { r: 49, g: 86, b: 135, a: 255 }));
    assert_eq!(blue.recolour(grey(35)), Some(Rgba { r: 38, g: 41, b: 79, a: 255 }));
    assert_eq!(blue.recolour(grey(27)), Some(Rgba { r: 25, g: 27, b: 48, a: 255 }));
}

#[test]
fn red_clothes_colour_each_of_the_five_shades() {
    let red = Palette::red();
    assert_eq!(red.recolour(grey(67)), Some(Rgba { r: 177, g: 43, b: 43, a: 255 }));
    assert_eq!(red.recolour(grey(47)), Some(Rgba { r: 128, g: 36, b: 36, a: 255 }));
    assert_eq!(red.recolour(grey(64)), Some(Rgba { r: 157, g: 41, b: 41, a: 255 }));
    assert_eq!(red.recolour(grey(35)), Some(Rgba { r: 35, g: 35, b: 35, a: 255 }));
    assert_eq!(red.recolour(grey(27)), Some(Rgba { r: 27, g: 27, b: 27, a: 255 }));
}

#[test]
fn dark_clothes_keep_every_grey() {
    let dark = Palette::dark();
    for v in 0..=255u8 {
        assert_eq!(dark.recolour(grey(v)), Some(grey(v)));
    }
}

#[test]
fn other_colours_stay_as_they_are() {
    let skin = Rgba { r: 230, g: 180, b: 140, a: 255 };
    assert_eq!(Palette::blue().recolour(skin), Some(skin));
    let faint = Rgba { r: 12, g: 13, b: 14, a: 1 };
    assert_eq!(Palette::red().recolour(faint), Some(faint));
}

#[test]
fn shade_is_told_by_red_alone_and_shows_wholly() {
    let tinted = Rgba { r: 67, g: 0, b: 9, a: 40 };
    assert_eq!(Palette::blue().recolour(tinted), Some(Rgba { r: 41, g: 98, b: 173, a: 255 }));
}
