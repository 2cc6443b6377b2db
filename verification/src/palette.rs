//! The colours of a player's clothes. The pictures of a player are drawn
//! in five shades of grey that stand for the five shades of the clothes;
//! each set of clothes gives its own colour to each of the five.

use vstd::prelude::*;

verus! {

/// A colour: red, green, blue and how much of it shows.
#[derive(Clone, Copy, Debug, PartialEq, Eq, Structural)]
pub struct Rgba {
    pub r: u8,
    pub g: u8,
    pub b: u8,
    pub a: u8,
}

/// The five shades of a set of clothes, from the lightest part of the
/// picture to the darkest.
#[derive(Clone, Copy, Debug, PartialEq, Eq, Structural)]
pub struct Palette {
    pub first: Rgba,
    pub second: Rgba,
    pub third: Rgba,
    pub fourth: Rgba,
    pub fifth: Rgba,
}

/// The colour that a pixel of the picture gets: nothing for a pixel that
/// does not show; the shade of the clothes for a pixel whose red is one of
/// the five that stand for a shade; else the colour that the pixel has.
pub open spec fn recoloured(pixel: Rgba, palette: Palette) -> Option<Rgba> {
    if pixel.a == 0 {
        None
    } else if pixel.r == 67 {
        Some(palette.first)
    } else if pixel.r == 47 {
        Some(palette.second)
    } else if pixel.r == 64 {
        Some(palette.third)
    } else if pixel.r == 35 {
        Some(palette.fourth)
    } else if pixel.r == 27 {
        Some(palette.fifth)
    } else {
        Some(pixel)
    }
}

impl Rgba {
    /// A colour that shows wholly.
    pub open spec fn solid(r: u8, g: u8, b: u8) -> Rgba {
        Rgba { r, g, b, a: 255 }
    }
}

impl Palette {
    /// The shades of the blue clothes.
    pub open spec fn blue_shades() -> Palette {
        Palette {
            first: Rgba::solid(41, 98, 173),
            second: Rgba::solid(56, 61, 115),
            third: Rgba::solid(49, 86, 135),
            fourth: Rgba::solid(38, 41, 79),
            fifth: Rgba::solid(25, 27, 48),
        }
    }

    /// The shades of the dark clothes: those of the picture itself.
    pub open spec fn dark_shades() -> Palette {
        Palette {
            first: Rgba::solid(67, 67, 67),
            second: Rgba::solid(47, 47, 47),
            third: Rgba::solid(64, 64, 64),
            fourth: Rgba::solid(35, 35, 35),
            fifth: Rgba::solid(27, 27, 27),
        }
    }

    /// The shades of the red clothes.
    pub open spec fn red_shades() -> Palette {
        Palette {
            first: Rgba::solid(177, 43, 43),
            second: Rgba::solid(128, 36, 36),
            third: Rgba::solid(157, 41, 41),
            fourth: Rgba::solid(35, 35, 35),
            fifth: Rgba::solid(27, 27, 27),
        }
    }

    /// The shades of the blue clothes.
    pub fn blue() -> (palette: Palette)
        ensures
            palette == Palette::blue_shades(),
    {
        Palette {
            first: Rgba { r: 41, g: 98, b: 173, a: 255 },
            second: Rgba { r: 56, g: 61, b: 115, a: 255 },
            third: Rgba { r: 49, g: 86, b: 135, a: 255 },
            fourth: Rgba { r: 38, g: 41, b: 79, a: 255 },
            fifth: Rgba { r: 25, g: 27, b: 48, a: 255 },
        }
    }

    /// The shades of the dark clothes.
    pub fn dark() -> (palette: Palette)
        ensures
            palette == Palette::dark_shades(),
    {
        Palette {
            first: Rgba { r: 67, g: 67, b: 67, a: 255 },
            second: Rgba { r: 47, g: 47, b: 47, a: 255 },
            third: Rgba { r: 64, g: 64, b: 64, a: 255 },
            fourth: Rgba { r: 35, g: 35, b: 35, a: 255 },
            fifth: Rgba { r: 27, g: 27, b: 27, a: 255 },
        }
    }

    /// The shades of the red clothes.
    pub fn red() -> (palette: Palette)
        ensures
            palette == Palette::red_shades(),
    {
        Palette {
            first: Rgba { r: 177, g: 43, b: 43, a: 255 },
            second: Rgba { r: 128, g: 36, b: 36, a: 255 },
            third: Rgba { r: 157, g: 41, b: 41, a: 255 },
            fourth: Rgba { r: 35, g: 35, b: 35, a: 255 },
            fifth: Rgba { r: 27, g: 27, b: 27, a: 255 },
        }
    }

    /// The colour that a pixel of the picture of a player gets in these
    /// clothes, or `None` for a pixel that does not show.
    pub fn recolour(&self, pixel: Rgba) -> (colour: Option<Rgba>)
        ensures
            colour == recoloured(pixel, *self),
    {
        if pixel.a == 0 {
            None
        } else if pixel.r == 67 {
            Some(self.first)
        } else if pixel.r == 47 {
            Some(self.second)
        } else if pixel.r == 64 {
            Some(self.third)
        } else if pixel.r == 35 {
            Some(self.fourth)
        } else if pixel.r == 27 {
            Some(self.fifth)
        } else {
            Some(pixel)
        }
    }
}

/// In the dark clothes a picture keeps the colours it has, as far as its
/// five shades are pure greys that show wholly.
pub proof fn lemma_dark_clothes_keep_the_greys(grey: u8)
    ensures
        recoloured(Rgba::solid(grey, grey, grey), Palette::dark_shades()) == Some(
            Rgba::solid(grey, grey, grey),
        ),
{
}

} // verus!
