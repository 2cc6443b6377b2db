//! What a player can carry.

use vstd::prelude::*;
use crate::fixed::clamp_i32;
use crate::fixed::clamped;
use crate::fixed::div_trunc;
use crate::fixed::div_toward_zero;
use crate::geometry::Point;
use crate::sight::Direction;

verus! {

/// The length of a direction that stands for a unit vector: a heading is
/// the sine and the cosine of an angle, each times this.
pub const HEADING_UNIT: i32 = 1_000_000;

/// A gun. Speeds are in milli-units for each frame; the spread is in
/// thousandths, of a world unit for each frame where it widens the speed and
/// of a radian where it widens the angle.
#[derive(Clone, Copy, Debug)]
pub struct Gun {
    pub name: &'static str,
    pub bullet_speed: i32,
    pub bullet_spread: u16,
    pub bullets_per_shot: u32,
    pub barrel_offset: Point,
}

/// A set of clothes, known by the colour its textures are named after.
#[derive(Clone, Copy, Debug)]
pub struct Clothes {
    pub name: &'static str,
}

/// A backpack, known by the name of its texture.
#[derive(Clone, Copy, Debug)]
pub struct Backpack {
    pub name: &'static str,
}

impl Clothes {
    /// The blue clothes as a value.
    pub open spec fn blue() -> Clothes {
        Clothes { name: "blue" }
    }

    /// The dark clothes as a value.
    pub open spec fn dark() -> Clothes {
        Clothes { name: "dark" }
    }

    /// The red clothes as a value.
    pub open spec fn red() -> Clothes {
        Clothes { name: "red" }
    }

    pub fn blue_clothes() -> (clothes: Clothes)
        ensures
            clothes == Clothes::blue(),
            clothes.name@ == "blue"@,
    {
        Clothes { name: "blue" }
    }

    pub fn dark_clothes() -> (clothes: Clothes)
        ensures
            clothes == Clothes::dark(),
            clothes.name@ == "dark"@,
    {
        Clothes { name: "dark" }
    }

    pub fn red_clothes() -> (clothes: Clothes)
        ensures
            clothes == Clothes::red(),
            clothes.name@ == "red"@,
    {
        Clothes { name: "red" }
    }
}

impl Backpack {
    /// The black backpack as a value.
    pub open spec fn black() -> Backpack {
        Backpack { name: "black_backpack" }
    }

    /// The brown backpack as a value.
    pub open spec fn brown() -> Backpack {
        Backpack { name: "brown_backpack" }
    }

    pub fn black_backpack() -> (backpack: Backpack)
        ensures
            backpack == Backpack::black(),
            backpack.name@ == "black_backpack"@,
    {
        Backpack { name: "black_backpack" }
    }

    pub fn brown_backpack() -> (backpack: Backpack)
        ensures
            backpack == Backpack::brown(),
            backpack.name@ == "brown_backpack"@,
    {
        Backpack { name: "brown_backpack" }
    }
}

/// Calls `macroquad::rand::gen_range`, the generator that the whole program
/// shares. Believed of it: with `low <= high` the number drawn lies between
/// the two, both ends included. Which number comes is not said, and two
/// calls may differ.
#[verifier::external_body]
fn random_between(low: i32, high: i32) -> (drawn: i32)
    ensures
        low <= high ==> low <= drawn <= high,
{
    macroquad::rand::gen_range(low, high)
}

impl Gun {
    /// The sawed-off shotgun as a value: ten slow bullets, widely spread.
    pub open spec fn shotgun() -> Gun {
        Gun {
            name: "sawed_shotgun",
            bullet_speed: 6500,
            bullet_spread: 120,
            bullets_per_shot: 10,
            barrel_offset: Point { x: 1000, y: 0 },
        }
    }

    /// The sniper rifle as a value: one fast bullet, hardly spread.
    pub open spec fn rifle() -> Gun {
        Gun {
            name: "sniper",
            bullet_speed: 9000,
            bullet_spread: 10,
            bullets_per_shot: 1,
            barrel_offset: Point { x: 1000, y: 0 },
        }
    }

    pub fn sawed_shotgun() -> (gun: Gun)
        ensures
            gun == Gun::shotgun(),
            gun.name@ == "sawed_shotgun"@,
            gun.bullet_speed == 6500,
            gun.bullet_spread == 120,
            gun.bullets_per_shot == 10,
            gun.barrel_offset == (Point { x: 1000, y: 0 }),
    {
        Gun {
            name: "sawed_shotgun",
            bullet_speed: 6500,
            bullet_spread: 120,
            bullets_per_shot: 10,
            barrel_offset: Point { x: 1000, y: 0 },
        }
    }

    pub fn sniper() -> (gun: Gun)
        ensures
            gun == Gun::rifle(),
            gun.name@ == "sniper"@,
            gun.bullet_speed == 9000,
            gun.bullet_spread == 10,
            gun.bullets_per_shot == 1,
            gun.barrel_offset == (Point { x: 1000, y: 0 }),
    {
        Gun {
            name: "sniper",
            bullet_speed: 9000,
            bullet_spread: 10,
            bullets_per_shot: 1,
            barrel_offset: Point { x: 1000, y: 0 },
        }
    }

    /// The speed of a bullet that leaves the gun `jitter` faster than the
    /// gun's own speed, kept inside the range of a speed.
    pub open spec fn speed_after(self, jitter: int) -> int {
        clamped(self.bullet_speed + jitter, i32::MIN as int, i32::MAX as int)
    }

    /// The angle of a bullet aimed along `aim` micro-radians that leaves
    /// the gun `jitter` micro-radians off, kept inside the range of an angle.
    pub open spec fn angle_after(aim: int, jitter: int) -> int {
        clamped(aim + jitter, i32::MIN as int, i32::MAX as int)
    }

    /// Where a bullet leaves the barrel of a gun held at `from` and aimed
    /// along `aim`: the barrel's offset, turned by the aim, away from `from`.
    /// `aim` holds the sine and the cosine of the aiming angle, times
    /// `HEADING_UNIT`. Each coordinate is rounded towards `from` and kept
    /// inside the range of a coordinate.
    pub open spec fn muzzle_of(self, from: Point, aim: Direction) -> Point {
        let forward = self.barrel_offset.x as int;
        let aside = self.barrel_offset.y as int;
        Point {
            x: clamped(
                from.x + div_toward_zero(
                    -(forward * aim.dy) - aside * aim.dx,
                    HEADING_UNIT as int,
                ),
                i32::MIN as int,
                i32::MAX as int,
            ) as i32,
            y: clamped(
                from.y + div_toward_zero(forward * aim.dx - aside * aim.dy, HEADING_UNIT as int),
                i32::MIN as int,
                i32::MAX as int,
            ) as i32,
        }
    }

    /// The speed of a bullet that leaves the gun `jitter` faster than the
    /// gun's own speed.
    pub fn speed_with(&self, jitter: i32) -> (speed: i32)
        ensures
            speed == self.speed_after(jitter as int),
    {
        clamp_i32(self.bullet_speed as i128 + jitter as i128)
    }

    /// The angle of a bullet aimed along `aim` that leaves the gun `jitter`
    /// micro-radians off.
    pub fn angle_with(aim: i32, jitter: i32) -> (angle: i32)
        ensures
            angle == Gun::angle_after(aim as int, jitter as int),
    {
        clamp_i32(aim as i128 + jitter as i128)
    }

    /// The speed of the next bullet: the gun's speed, widened by a number
    /// drawn from the spread to either side.
    pub fn roll_speed(&self) -> (speed: i32)
        ensures
            exists|jitter: int|
                -self.bullet_spread <= jitter <= self.bullet_spread && speed == #[trigger] self.speed_after(
                    jitter,
                ),
    {
        let spread: i32 = self.bullet_spread as i32;
        let jitter: i32 = random_between(-spread, spread);
        let speed: i32 = self.speed_with(jitter);
        assert(speed == self.speed_after(jitter as int));
        speed
    }

    /// The angle of the next bullet aimed along `aim` micro-radians: the
    /// aim, widened by a number drawn from the spread to either side.
    pub fn roll_angle(&self, aim: i32) -> (angle: i32)
        ensures
            exists|jitter: int|
                -1000 * self.bullet_spread <= jitter <= 1000 * self.bullet_spread && angle
                    == #[trigger] Gun::angle_after(aim as int, jitter),
    {
        let spread: i32 = (self.bullet_spread as i32) * 1000;
        let jitter: i32 = random_between(-spread, spread);
        let angle: i32 = Gun::angle_with(aim, jitter);
        assert(angle == Gun::angle_after(aim as int, jitter as int));
        angle
    }

    /// Where a bullet leaves the barrel of the gun held at `from` and aimed
    /// along `aim`.
    pub fn muzzle(&self, from: Point, aim: Direction) -> (at: Point)
        ensures
            at == self.muzzle_of(from, aim),
    {
        let forward: i128 = self.barrel_offset.x as i128;
        let aside: i128 = self.barrel_offset.y as i128;
        let dx: i128 = aim.dx as i128;
        let dy: i128 = aim.dy as i128;
        assert(-0x8000_0000 * 0x8000_0000 <= forward * dy <= 0x8000_0000 * 0x8000_0000)
            by (nonlinear_arith)
            requires
                -0x8000_0000 <= forward <= 0x8000_0000,
                -0x8000_0000 <= dy <= 0x8000_0000,
        ;
        assert(-0x8000_0000 * 0x8000_0000 <= aside * dx <= 0x8000_0000 * 0x8000_0000)
            by (nonlinear_arith)
            requires
                -0x8000_0000 <= aside <= 0x8000_0000,
                -0x8000_0000 <= dx <= 0x8000_0000,
        ;
        assert(-0x8000_0000 * 0x8000_0000 <= forward * dx <= 0x8000_0000 * 0x8000_0000)
            by (nonlinear_arith)
            requires
                -0x8000_0000 <= forward <= 0x8000_0000,
                -0x8000_0000 <= dx <= 0x8000_0000,
        ;
        assert(-0x8000_0000 * 0x8000_0000 <= aside * dy <= 0x8000_0000 * 0x8000_0000)
            by (nonlinear_arith)
            requires
                -0x8000_0000 <= aside <= 0x8000_0000,
                -0x8000_0000 <= dy <= 0x8000_0000,
        ;
        let across: i128 = div_trunc(-(forward * dy) - aside * dx, HEADING_UNIT as i128);
        let along: i128 = div_trunc(forward * dx - aside * dy, HEADING_UNIT as i128);
        assert(-0x1_0000_0000_0000_0000 <= across <= 0x1_0000_0000_0000_0000);
        assert(-0x1_0000_0000_0000_0000 <= along <= 0x1_0000_0000_0000_0000);
        Point { x: clamp_i32(from.x as i128 + across), y: clamp_i32(from.y as i128 + along) }
    }
}

} // verus!
