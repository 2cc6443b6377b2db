//! The fan of rays of a viewer: how many rays a field of view gets, and the
//! angle of each.
//!
//! The count is always odd, so that one ray looks exactly where the viewer
//! faces and the others lie in pairs to its two sides.

use vstd::prelude::*;
use vstd::arithmetic::div_mod::lemma_div_is_ordered;
use vstd::arithmetic::div_mod::lemma_div_pos_is_pos;
use crate::fixed::div_toward_zero;
use crate::fixed::magnitude;

verus! {

/// What the product of a field of view in micro-radians, a reach in
/// milli-units and a density in thousandths of a ray is divided by to give
/// rays.
pub const RAY_UNIT: u64 = 1_000_000_000_000;

/// The number of rays for a field of view of `fov` micro-radians that
/// reaches `reach` milli-units, at `density` thousandths of a ray for each
/// radian and world unit: the product in rays, rounded down, and one more
/// where that is even.
pub open spec fn ray_count(fov: u32, reach: u32, density: u32) -> int {
    let whole = (fov as int * reach as int * density as int) / (RAY_UNIT as int);
    if whole % 2 == 0 {
        whole + 1
    } else {
        whole
    }
}

/// How far ray `i` of `count` turns away from the middle of a field of view
/// of `fov` micro-radians. The rays stand in the middle of `count` equal
/// parts of the field; the result is rounded towards the middle.
pub open spec fn fan_offset(fov: int, count: int, i: int) -> int {
    div_toward_zero((2 * i + 1 - count) * fov, 2 * count)
}

/// The angle of ray `i` of `count` in a fan around `facing`.
pub open spec fn fan_angle(facing: int, fov: int, count: int, i: int) -> int {
    facing + fan_offset(fov, count, i)
}

/// The number of rays for a field of view.
pub fn count_rays(fov: u32, reach: u32, density: u32) -> (count: u64)
    ensures
        count == ray_count(fov, reach, density),
        count % 2 == 1,
        1 <= count <= 0x200_0000_0000_0000u64,
{
    assert(fov * reach <= 0xffff_ffff * 0xffff_ffff) by (nonlinear_arith)
        requires
            fov <= 0xffff_ffff,
            reach <= 0xffff_ffff,
    ;
    let area: u128 = (fov as u128) * (reach as u128);
    assert(area * density <= 0xffff_ffff * 0xffff_ffff * 0xffff_ffff) by (nonlinear_arith)
        requires
            area <= 0xffff_ffff * 0xffff_ffff,
            density <= 0xffff_ffff,
    ;
    let volume: u128 = area * (density as u128);
    assert(volume == fov as int * reach as int * density as int);
    assert(volume < 0x1_0000_0000_0000_0000_0000_0000);
    let whole: u128 = volume / (RAY_UNIT as u128);
    assert(whole == (volume as int) / (RAY_UNIT as int));
    assert(whole < 0x200_0000_0000_0000);
    if whole % 2 == 0 {
        (whole + 1) as u64
    } else {
        whole as u64
    }
}

/// The angles of a fan of `count` rays over a field of view of `fov`
/// micro-radians around `facing`, from one edge of the field to the other.
pub fn cast_fan(facing: i32, fov: u32, count: u64) -> (angles: Vec<i64>)
    ensures
        angles@.len() == count,
        forall|i: int|
            0 <= i < count ==> #[trigger] angles@[i] == fan_angle(
                facing as int,
                fov as int,
                count as int,
                i,
            ),
{
    let mut angles: Vec<i64> = Vec::new();
    let mut i: u64 = 0;
    while i < count
        invariant
            i <= count,
            angles@.len() == i,
            forall|j: int|
                0 <= j < i ==> #[trigger] angles@[j] == fan_angle(
                    facing as int,
                    fov as int,
                    count as int,
                    j,
                ),
        decreases count - i,
    {
        let place: i128 = 2 * (i as i128) + 1 - (count as i128);
        proof {
            lemma_offset_is_small(fov as int, count as int, i as int);
            assert(-0x1_0000_0000_0000_0000 * 0x1_0000_0000 <= place * fov
                <= 0x1_0000_0000_0000_0000 * 0x1_0000_0000) by (nonlinear_arith)
                requires
                    -0x1_0000_0000_0000_0000 <= place <= 0x1_0000_0000_0000_0000,
                    0 <= fov <= 0x1_0000_0000,
            ;
        }
        let offset: i128 = crate::fixed::div_trunc(place * (fov as i128), 2 * (count as i128));
        angles.push((facing as i128 + offset) as i64);
        i += 1;
    }
    angles
}

/// No ray leaves the field of view: each turns away from the middle by at
/// most half the field.
pub proof fn lemma_offset_is_small(fov: int, count: int, i: int)
    requires
        fov >= 0,
        0 <= i < count,
    ensures
        2 * magnitude(fan_offset(fov, count, i)) <= fov,
{
    let place = 2 * i + 1 - count;
    let span = magnitude(place);
    assert(0 <= span < count);
    assert(0 <= span * fov <= count * fov) by (nonlinear_arith)
        requires
            0 <= span < count,
            fov >= 0,
    ;
    lemma_div_is_ordered(span * fov, count * fov, 2 * count);
    lemma_div_pos_is_pos(span * fov, 2 * count);
    let turn = (span * fov) / (2 * count);
    assert(2 * ((count * fov) / (2 * count)) <= fov) by {
        vstd::arithmetic::div_mod::lemma_fundamental_div_mod(count * fov, 2 * count);
        let q = (count * fov) / (2 * count);
        let r = (count * fov) % (2 * count);
        assert(0 <= r) by (nonlinear_arith)
            requires
                r == (count * fov) % (2 * count),
                count > 0,
        ;
        assert(2 * q <= fov) by (nonlinear_arith)
            requires
                count * fov == (2 * count) * q + r,
                0 <= r,
                count > 0,
        ;
    }
    if place >= 0 {
        assert(place * fov == span * fov);
        assert(place * fov >= 0);
    } else {
        assert((-(place * fov)) == span * fov) by (nonlinear_arith)
            requires
                span == -place,
        ;
        if place * fov == 0 {
            assert(span * fov == 0);
        }
    }
}

/// With an odd number of rays, the middle ray looks exactly along `facing`.
pub proof fn lemma_fan_has_center(facing: int, fov: int, count: int)
    requires
        count >= 1,
        count % 2 == 1,
    ensures
        fan_angle(facing, fov, count, (count - 1) / 2) == facing,
{
    let i = (count - 1) / 2;
    assert(2 * i + 1 - count == 0);
    assert((2 * i + 1 - count) * fov == 0) by (nonlinear_arith)
        requires
            2 * i + 1 - count == 0,
    ;
    assert(0int / (2 * count) == 0) by (nonlinear_arith)
        requires
            count >= 1,
    ;
}

/// The fan is the same to both sides: the rays `i` and `count - 1 - i` turn
/// away from `facing` by the same amount, one to each side.
pub proof fn lemma_fan_is_balanced(facing: int, fov: int, count: int, i: int)
    requires
        count >= 1,
        0 <= i < count,
    ensures
        fan_angle(facing, fov, count, count - 1 - i) - facing == facing - fan_angle(
            facing,
            fov,
            count,
            i,
        ),
{
    let place = 2 * i + 1 - count;
    let mirror = 2 * (count - 1 - i) + 1 - count;
    assert(mirror == -place);
    assert(mirror * fov == -(place * fov)) by (nonlinear_arith)
        requires
            mirror == -place,
    ;
    if place * fov == 0 {
        assert(0int / (2 * count) == 0) by (nonlinear_arith)
            requires
                count >= 1,
        ;
    }
}

/// The number of rays of any field of view is odd.
pub proof fn lemma_ray_count_is_odd(fov: u32, reach: u32, density: u32)
    ensures
        ray_count(fov, reach, density) >= 1,
        ray_count(fov, reach, density) % 2 == 1,
{
    let product = fov as int * reach as int * density as int;
    assert(product >= 0) by (nonlinear_arith)
        requires
            product == fov as int * reach as int * density as int,
            fov >= 0,
            reach >= 0,
            density >= 0,
    ;
    lemma_div_pos_is_pos(product, RAY_UNIT as int);
}

} // verus!
