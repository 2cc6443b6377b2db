//! Units and whole-number helpers.
//!
//! Every length is a count of milli-units, every angle a count of
//! micro-radians, every frame time a count of thousandths of a sixtieth of a
//! second. Nothing here rounds silently: each helper states the integer it
//! returns.

use vstd::prelude::*;
use vstd::arithmetic::div_mod::lemma_fundamental_div_mod_converse;
use vstd::arithmetic::div_mod::lemma_fundamental_div_mod;

verus! {

/// Milli-units in one world unit.
pub const MILLI: i32 = 1000;

/// Side of a grid cell, in milli-units: eight world units.
pub const TILE_SIZE: i32 = 8000;

/// One frame at sixty frames a second, in thousandths of a frame.
pub const FRAME: u32 = 1000;

/// Half a turn, in micro-radians.
pub const HALF_TURN: i32 = 3_141_593;

/// A quarter of a turn, in micro-radians.
pub const QUARTER_TURN: i32 = 1_570_796;

/// The magnitude of `v`.
pub open spec fn magnitude(v: int) -> int {
    if v < 0 {
        -v
    } else {
        v
    }
}

/// `-1`, `0` or `1`, as `v` is negative, zero or positive.
pub open spec fn signum(v: int) -> int {
    if v < 0 {
        -1
    } else if v == 0 {
        0
    } else {
        1
    }
}

/// `v`, moved to the nearer end of `[lo, hi]` where it lies outside.
pub open spec fn clamped(v: int, lo: int, hi: int) -> int {
    if v < lo {
        lo
    } else if v > hi {
        hi
    } else {
        v
    }
}

/// The quotient of `a` by `b`, rounded towards zero.
pub open spec fn div_toward_zero(a: int, b: int) -> int {
    if a >= 0 {
        a / b
    } else {
        -((-a) / b)
    }
}

/// The grid line at or below `v`: the index of the cell that holds the
/// coordinate `v`.
pub open spec fn cell_index(v: int) -> int {
    v / (TILE_SIZE as int)
}

/// Whether `r` is the square root of `n`, rounded down.
pub open spec fn is_floor_sqrt(n: int, r: int) -> bool {
    0 <= r && r * r <= n && n < (r + 1) * (r + 1)
}

/// The square root of `n`, rounded down.
pub open spec fn floor_sqrt(n: int) -> int {
    choose|r: int| is_floor_sqrt(n, r)
}

/// A number has one rounded-down square root.
pub proof fn lemma_floor_sqrt_is_unique(n: int, r: int)
    requires
        is_floor_sqrt(n, r),
    ensures
        floor_sqrt(n) == r,
{
    let other = floor_sqrt(n);
    assert(is_floor_sqrt(n, other));
    assert(other == r) by (nonlinear_arith)
        requires
            0 <= r && r * r <= n && n < (r + 1) * (r + 1),
            0 <= other && other * other <= n && n < (other + 1) * (other + 1),
    ;
}

/// For a negative `a` and positive `b`, flooring `a / b` is one step below the
/// negated quotient of `-a - 1`.
pub proof fn lemma_floor_of_negative(a: int, b: int)
    requires
        a < 0,
        b > 0,
    ensures
        a / b == -((-a - 1) / b) - 1,
{
    let n = -a - 1;
    let q = n / b;
    let r = n % b;
    lemma_fundamental_div_mod(n, b);
    assert(n == b * q + r);
    assert(0 <= r < b) by (nonlinear_arith)
        requires
            r == n % b,
            b > 0,
    ;
    assert(a == (-q - 1) * b + (b - r - 1)) by (nonlinear_arith)
        requires
            n == b * q + r,
            a == -n - 1,
    ;
    lemma_fundamental_div_mod_converse(a, b, -q - 1, b - r - 1);
}

/// Floor division by a positive divisor.
pub fn div_floor(a: i128, b: i128) -> (q: i128)
    requires
        b > 0,
        a > i128::MIN,
    ensures
        q == a / b,
{
    if a >= 0 {
        a / b
    } else {
        let n: i128 = -(a + 1);
        proof {
            lemma_floor_of_negative(a as int, b as int);
            assert(0 <= (n as int) / (b as int) <= n) by (nonlinear_arith)
                requires
                    n >= 0,
                    b > 0,
            ;
        }
        -(n / b) - 1
    }
}

/// Division by a positive divisor, rounded towards zero.
pub fn div_trunc(a: i128, b: i128) -> (q: i128)
    requires
        b > 0,
        a > i128::MIN,
    ensures
        q == div_toward_zero(a as int, b as int),
{
    if a >= 0 {
        a / b
    } else {
        let n: i128 = -a;
        proof {
            assert(0 <= (n as int) / (b as int) <= n) by (nonlinear_arith)
                requires
                    n >= 0,
                    b > 0,
            ;
        }
        -(n / b)
    }
}

/// What a rate for each frame comes to over `frame` thousandths of a frame,
/// rounded towards zero.
pub open spec fn over_frame(rate: int, frame: int) -> int {
    div_toward_zero(rate * frame, FRAME as int)
}

/// What a rate for each frame comes to over `frame` thousandths of a frame.
pub fn scale_by_frame(rate: i32, frame: u32) -> (amount: i64)
    ensures
        amount == over_frame(rate as int, frame as int),
        -0x8000_0000 * 0x1_0000_0000 <= amount <= 0x8000_0000 * 0x1_0000_0000,
        rate >= 0 ==> amount >= 0,
        rate <= 0 ==> amount <= 0,
{
    assert(-0x8000_0000 * 0x1_0000_0000 <= rate * frame <= 0x8000_0000 * 0x1_0000_0000)
        by (nonlinear_arith)
        requires
            -0x8000_0000 <= rate <= 0x8000_0000,
            0 <= frame <= 0x1_0000_0000,
    ;
    let product: i128 = (rate as i128) * (frame as i128);
    let amount: i128 = div_trunc(product, FRAME as i128);
    proof {
        assert(rate >= 0 ==> rate * frame >= 0) by (nonlinear_arith)
            requires
                frame >= 0,
        ;
        assert(rate <= 0 ==> rate * frame <= 0) by (nonlinear_arith)
            requires
                frame >= 0,
        ;
        lemma_div_toward_zero_is_small(
            product as int,
            FRAME as int,
            0x8000_0000int * 0x1_0000_0000int,
        );
    }
    amount as i64
}

/// A quotient rounded towards zero is no larger in magnitude than what it
/// divides, and has no other sign.
pub proof fn lemma_div_toward_zero_is_small(a: int, b: int, limit: int)
    requires
        b > 0,
        limit >= 0,
        -limit * b <= a <= limit * b,
    ensures
        -limit <= div_toward_zero(a, b) <= limit,
        a >= 0 ==> div_toward_zero(a, b) >= 0,
        a <= 0 ==> div_toward_zero(a, b) <= 0,
{
    let m = if a >= 0 {
        a
    } else {
        -a
    };
    assert((-limit) * b == -(limit * b)) by (nonlinear_arith);
    vstd::arithmetic::div_mod::lemma_div_is_ordered(0, m, b);
    vstd::arithmetic::div_mod::lemma_div_is_ordered(m, limit * b, b);
    vstd::arithmetic::div_mod::lemma_div_multiples_vanish(limit, b);
    assert(limit * b == b * limit) by (nonlinear_arith);
    assert(0int / b == 0) by (nonlinear_arith)
        requires
            b > 0,
    ;
}

/// The index of the cell that holds the coordinate `v`.
pub fn cell_of(v: i32) -> (c: i32)
    ensures
        c == cell_index(v as int),
        c * TILE_SIZE <= v < (c + 1) * TILE_SIZE,
{
    if v >= 0 {
        v / TILE_SIZE
    } else {
        let n: i32 = -(v + 1);
        -(n / TILE_SIZE) - 1
    }
}

/// `v` as an `i32`, or the nearest `i32` where it does not fit.
pub fn clamp_i32(v: i128) -> (r: i32)
    ensures
        r == clamped(v as int, i32::MIN as int, i32::MAX as int),
{
    if v < -0x8000_0000 {
        i32::MIN
    } else if v > 0x7fff_ffff {
        i32::MAX
    } else {
        v as i32
    }
}

/// The magnitude of `v`, which always fits the unsigned type.
pub fn magnitude_of(v: i32) -> (m: u32)
    ensures
        m == magnitude(v as int),
{
    if v < 0 {
        (-(v as i64)) as u32
    } else {
        v as u32
    }
}

/// The square root of `n`, rounded down.
pub fn isqrt(n: u64) -> (r: u32)
    ensures
        is_floor_sqrt(n as int, r as int),
        r == floor_sqrt(n as int),
{
    let mut lo: u64 = 0;
    let mut hi: u64 = 0x1_0000_0000;
    while hi - lo > 1
        invariant
            lo < hi <= 0x1_0000_0000,
            lo * lo <= n,
            hi == 0x1_0000_0000 || n < hi * hi,
        decreases hi - lo,
    {
        let mid: u64 = lo + (hi - lo) / 2;
        assert(mid * mid <= 0xffff_ffff * 0xffff_ffff) by (nonlinear_arith)
            requires
                0 <= mid <= 0xffff_ffff,
        ;
        if mid * mid <= n {
            lo = mid;
        } else {
            hi = mid;
        }
    }
    assert(hi == lo + 1);
    assert(n < (lo + 1) * (lo + 1)) by (nonlinear_arith)
        requires
            hi == lo + 1,
            hi == 0x1_0000_0000 || n < hi * hi,
            n <= 0xffff_ffff_ffff_ffff,
    ;
    proof {
        lemma_floor_sqrt_is_unique(n as int, lo as int);
    }
    lo as u32
}

} // verus!
