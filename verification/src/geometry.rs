//! Points, axis-aligned rectangles and line segments on the milli-unit
//! lattice, and the exact test for two segments meeting.

use vstd::prelude::*;
use vstd::arithmetic::div_mod::lemma_div_is_ordered;
use vstd::arithmetic::div_mod::lemma_div_multiples_vanish;
use vstd::arithmetic::div_mod::lemma_fundamental_div_mod;
use vstd::arithmetic::div_mod::lemma_fundamental_div_mod_converse;
use crate::fixed::clamp_i32;
use crate::fixed::clamped;
use crate::fixed::div_floor;
use crate::fixed::magnitude;

verus! {

/// A position in the world, in milli-units.
#[derive(Clone, Copy, Debug, PartialEq, Eq, Structural)]
pub struct Point {
    pub x: i32,
    pub y: i32,
}

/// An axis-aligned rectangle, given by its four sides. It holds its border:
/// a point on a side belongs to it.
#[derive(Clone, Copy, Debug, PartialEq, Eq, Structural)]
pub struct Rect {
    pub left: i32,
    pub top: i32,
    pub right: i32,
    pub bottom: i32,
}

/// A straight segment from `(x1, y1)` to `(x2, y2)`.
#[derive(Clone, Copy, Debug, PartialEq, Eq, Structural)]
pub struct LineSegment {
    pub x1: i32,
    pub y1: i32,
    pub x2: i32,
    pub y2: i32,
}

/// The cross product of the vectors `(ax, ay)` and `(bx, by)`.
pub open spec fn cross(ax: int, ay: int, bx: int, by: int) -> int {
    ax * by - ay * bx
}

/// Whether the fraction `n / d` lies in `[0, 1]`, for a non-zero `d`.
pub open spec fn in_unit_interval(n: int, d: int) -> bool {
    if d > 0 {
        0 <= n <= d
    } else {
        d <= n <= 0
    }
}

/// A coordinate that `fraction = n / d` of the way from `from` by `delta`
/// reaches, rounded down to the lattice.
pub open spec fn point_along(from: int, delta: int, n: int, d: int) -> int {
    if d > 0 {
        from + (n * delta) / d
    } else {
        from + ((-n) * delta) / (-d)
    }
}

impl Point {
    /// The point moved by `dx` and `dy`, each coordinate kept inside its
    /// range.
    pub open spec fn moved(self, dx: int, dy: int) -> Point {
        Point {
            x: clamped(self.x + dx, i32::MIN as int, i32::MAX as int) as i32,
            y: clamped(self.y + dy, i32::MIN as int, i32::MAX as int) as i32,
        }
    }

    /// The point moved by `dx` and `dy`.
    pub fn offset(&self, dx: i128, dy: i128) -> (at: Point)
        requires
            -0x4000_0000_0000_0000_0000_0000 <= dx <= 0x4000_0000_0000_0000_0000_0000,
            -0x4000_0000_0000_0000_0000_0000 <= dy <= 0x4000_0000_0000_0000_0000_0000,
        ensures
            at == self.moved(dx as int, dy as int),
    {
        Point { x: clamp_i32(self.x as i128 + dx), y: clamp_i32(self.y as i128 + dy) }
    }
}

impl Rect {
    /// Whether the two rectangles share a point. Touching sides count.
    pub open spec fn overlaps(self, other: Rect) -> bool {
        &&& self.left <= other.right
        &&& other.left <= self.right
        &&& self.left <= self.right
        &&& other.left <= other.right
        &&& self.top <= other.bottom
        &&& other.top <= self.bottom
        &&& self.top <= self.bottom
        &&& other.top <= other.bottom
    }

    /// The rectangle of the points that both hold.
    pub open spec fn common(self, other: Rect) -> Rect {
        Rect {
            left: if self.left >= other.left {
                self.left
            } else {
                other.left
            },
            top: if self.top >= other.top {
                self.top
            } else {
                other.top
            },
            right: if self.right <= other.right {
                self.right
            } else {
                other.right
            },
            bottom: if self.bottom <= other.bottom {
                self.bottom
            } else {
                other.bottom
            },
        }
    }

    /// The square of side `2 * half` around `center`, each side kept inside
    /// the range of a coordinate.
    pub open spec fn around(center: Point, half: int) -> Rect {
        Rect {
            left: clamped(center.x - half, i32::MIN as int, i32::MAX as int) as i32,
            top: clamped(center.y - half, i32::MIN as int, i32::MAX as int) as i32,
            right: clamped(center.x + half, i32::MIN as int, i32::MAX as int) as i32,
            bottom: clamped(center.y + half, i32::MIN as int, i32::MAX as int) as i32,
        }
    }

    /// The square whose sides lie `half` milli-units from `center`.
    pub fn centered(center: Point, half: u16) -> (rect: Rect)
        ensures
            rect == Rect::around(center, half as int),
    {
        Rect {
            left: clamp_i32(center.x as i128 - half as i128),
            top: clamp_i32(center.y as i128 - half as i128),
            right: clamp_i32(center.x as i128 + half as i128),
            bottom: clamp_i32(center.y as i128 + half as i128),
        }
    }

    /// The rectangle that the two have in common, if they share a point.
    pub fn intersect(&self, other: Rect) -> (shared: Option<Rect>)
        ensures
            shared.is_some() <==> self.overlaps(other),
            shared.is_some() ==> shared.unwrap() == self.common(other),
    {
        let left: i32 = if self.left >= other.left {
            self.left
        } else {
            other.left
        };
        let top: i32 = if self.top >= other.top {
            self.top
        } else {
            other.top
        };
        let right: i32 = if self.right <= other.right {
            self.right
        } else {
            other.right
        };
        let bottom: i32 = if self.bottom <= other.bottom {
            self.bottom
        } else {
            other.bottom
        };
        if right < left || bottom < top {
            None
        } else {
            Some(Rect { left, top, right, bottom })
        }
    }

    /// The rectangle moved by `dx` and `dy`, each side kept inside the range
    /// of a coordinate.
    pub open spec fn moved(self, dx: int, dy: int) -> Rect {
        Rect {
            left: clamped(self.left + dx, i32::MIN as int, i32::MAX as int) as i32,
            top: clamped(self.top + dy, i32::MIN as int, i32::MAX as int) as i32,
            right: clamped(self.right + dx, i32::MIN as int, i32::MAX as int) as i32,
            bottom: clamped(self.bottom + dy, i32::MIN as int, i32::MAX as int) as i32,
        }
    }

    /// The rectangle moved by `dx` and `dy`.
    pub fn offset(&self, dx: i64, dy: i64) -> (rect: Rect)
        ensures
            rect == self.moved(dx as int, dy as int),
    {
        Rect {
            left: clamp_i32(self.left as i128 + dx as i128),
            top: clamp_i32(self.top as i128 + dy as i128),
            right: clamp_i32(self.right as i128 + dx as i128),
            bottom: clamp_i32(self.bottom as i128 + dy as i128),
        }
    }

    /// Whether the point lies in the rectangle, border included.
    pub open spec fn holds(self, p: Point) -> bool {
        self.left <= p.x <= self.right && self.top <= p.y <= self.bottom
    }

    /// Whether the point lies in the rectangle, border included.
    pub fn contains(&self, p: Point) -> (inside: bool)
        ensures
            inside == self.holds(p),
    {
        self.left <= p.x && p.x <= self.right && self.top <= p.y && p.y <= self.bottom
    }
}

impl LineSegment {
    /// The horizontal extent, signed.
    pub open spec fn dx(self) -> int {
        self.x2 - self.x1
    }

    /// The vertical extent, signed.
    pub open spec fn dy(self) -> int {
        self.y2 - self.y1
    }

    /// The cross product of the two directions. Zero exactly when the
    /// segments are parallel or one of them is a single point.
    pub open spec fn determinant(self, other: LineSegment) -> int {
        cross(self.dx(), self.dy(), other.dx(), other.dy())
    }

    /// Numerator of the fraction of `self` at which the two lines meet; the
    /// denominator is `determinant`.
    pub open spec fn reach(self, other: LineSegment) -> int {
        cross(other.x1 - self.x1, other.y1 - self.y1, other.dx(), other.dy())
    }

    /// Numerator of the fraction of `other` at which the two lines meet; the
    /// denominator is `determinant`.
    pub open spec fn reach_on(self, other: LineSegment) -> int {
        cross(other.x1 - self.x1, other.y1 - self.y1, self.dx(), self.dy())
    }

    /// Whether the segments cross in exactly one point that lies on both.
    /// Parallel and collinear segments never do.
    pub open spec fn meets(self, other: LineSegment) -> bool {
        let d = self.determinant(other);
        d != 0 && in_unit_interval(self.reach(other), d) && in_unit_interval(
            self.reach_on(other),
            d,
        )
    }

    /// The crossing point, each coordinate rounded down to the lattice.
    pub open spec fn meeting_point(self, other: LineSegment) -> Point {
        let d = self.determinant(other);
        let n = self.reach(other);
        Point {
            x: point_along(self.x1 as int, self.dx(), n, d) as i32,
            y: point_along(self.y1 as int, self.dy(), n, d) as i32,
        }
    }

    /// The size of the determinant: the whole of which `part` counts parts.
    pub open spec fn span(self, other: LineSegment) -> int {
        magnitude(self.determinant(other))
    }

    /// How far along `self` the two lines meet, in parts of `span`: the
    /// fraction `part / span` of the way from the first end to the second.
    pub open spec fn part(self, other: LineSegment) -> int {
        if self.determinant(other) > 0 {
            self.reach(other)
        } else {
            -self.reach(other)
        }
    }

    /// Whether `self` meets the line of `a` at a smaller fraction of its way
    /// than the line of `b`. Both lines are to cross that of `self`.
    pub open spec fn sooner(self, a: LineSegment, b: LineSegment) -> bool {
        self.part(a) * self.span(b) < self.part(b) * self.span(a)
    }

    /// Where the segments cross, if they do.
    pub open spec fn crossing(self, other: LineSegment) -> Option<Point> {
        if self.meets(other) {
            Some(self.meeting_point(other))
        } else {
            None
        }
    }

    /// The four sides of a rectangle as segments.
    pub open spec fn left_of(rect: Rect) -> LineSegment {
        LineSegment { x1: rect.left, y1: rect.top, x2: rect.left, y2: rect.bottom }
    }

    pub open spec fn right_of(rect: Rect) -> LineSegment {
        LineSegment { x1: rect.right, y1: rect.top, x2: rect.right, y2: rect.bottom }
    }

    pub open spec fn top_of(rect: Rect) -> LineSegment {
        LineSegment { x1: rect.left, y1: rect.top, x2: rect.right, y2: rect.top }
    }

    pub open spec fn bottom_of(rect: Rect) -> LineSegment {
        LineSegment { x1: rect.left, y1: rect.bottom, x2: rect.right, y2: rect.bottom }
    }

    /// Where the segment first crosses a side of `rect`, the sides taken in
    /// the order left, right, top, bottom.
    pub open spec fn crossing_with_rect(self, rect: Rect) -> Option<Point> {
        if self.meets(Self::left_of(rect)) {
            Some(self.meeting_point(Self::left_of(rect)))
        } else if self.meets(Self::right_of(rect)) {
            Some(self.meeting_point(Self::right_of(rect)))
        } else if self.meets(Self::top_of(rect)) {
            Some(self.meeting_point(Self::top_of(rect)))
        } else if self.meets(Self::bottom_of(rect)) {
            Some(self.meeting_point(Self::bottom_of(rect)))
        } else {
            None
        }
    }

    /// The segment from `from` to `to`.
    pub fn between(from: Point, to: Point) -> (segment: LineSegment)
        ensures
            segment == (LineSegment { x1: from.x, y1: from.y, x2: to.x, y2: to.y }),
    {
        LineSegment { x1: from.x, y1: from.y, x2: to.x, y2: to.y }
    }

    /// The sides of `rect`: left, right, top, bottom.
    pub fn from_rect(rect: &Rect) -> (sides: (LineSegment, LineSegment, LineSegment, LineSegment))
        ensures
            sides.0 == Self::left_of(*rect),
            sides.1 == Self::right_of(*rect),
            sides.2 == Self::top_of(*rect),
            sides.3 == Self::bottom_of(*rect),
    {
        (
            LineSegment { x1: rect.left, y1: rect.top, x2: rect.left, y2: rect.bottom },
            LineSegment { x1: rect.right, y1: rect.top, x2: rect.right, y2: rect.bottom },
            LineSegment { x1: rect.left, y1: rect.top, x2: rect.right, y2: rect.top },
            LineSegment { x1: rect.left, y1: rect.bottom, x2: rect.right, y2: rect.bottom },
        )
    }

    /// The fraction of its way at which the segment crosses `other`, as the
    /// numerator and the denominator of `part / span`. `None` where the two
    /// are parallel, collinear, or pass each other beyond an end.
    pub fn meeting_fraction(&self, other: &LineSegment) -> (fraction: Option<(i128, i128)>)
        ensures
            fraction.is_some() == self.meets(*other),
            fraction.is_some() ==> fraction.unwrap().0 == self.part(*other),
            fraction.is_some() ==> fraction.unwrap().1 == self.span(*other),
            fraction.is_some() ==> 0 <= fraction.unwrap().0 <= fraction.unwrap().1,
            fraction.is_some() ==> 0 < fraction.unwrap().1 < 0x2_0000_0000_0000_0000,
    {
        let adx: i64 = self.x2 as i64 - self.x1 as i64;
        let ady: i64 = self.y2 as i64 - self.y1 as i64;
        let bdx: i64 = other.x2 as i64 - other.x1 as i64;
        let bdy: i64 = other.y2 as i64 - other.y1 as i64;
        let gap_x: i64 = other.x1 as i64 - self.x1 as i64;
        let gap_y: i64 = other.y1 as i64 - self.y1 as i64;
        let det: i128 = cross_of(adx, ady, bdx, bdy);
        if det == 0 {
            return None;
        }
        let along: i128 = cross_of(gap_x, gap_y, bdx, bdy);
        let across: i128 = cross_of(gap_x, gap_y, adx, ady);
        let (d, n, m): (i128, i128, i128) = if det > 0 {
            (det, along, across)
        } else {
            (-det, -along, -across)
        };
        if n < 0 || n > d || m < 0 || m > d {
            return None;
        }
        Some((n, d))
    }

    /// The point in which the two segments cross. `None` where they are
    /// parallel, collinear, or pass each other beyond an end.
    pub fn line_segments_intersect(&self, other: &LineSegment) -> (hit: Option<Point>)
        ensures
            hit == self.crossing(*other),
    {
        match self.meeting_fraction(other) {
            None => None,
            Some((n, d)) => {
                let adx: i64 = self.x2 as i64 - self.x1 as i64;
                let ady: i64 = self.y2 as i64 - self.y1 as i64;
                let x: i32 = step_along(self.x1, adx, n, d);
                let y: i32 = step_along(self.y1, ady, n, d);
                Some(Point { x, y })
            },
        }
    }

    /// The point in which the segment crosses the border of `rect`: the
    /// crossing with the first side that it crosses, in the order left,
    /// right, top, bottom.
    pub fn line_intersects_rect(&self, rect: Rect) -> (hit: Option<Point>)
        ensures
            hit == self.crossing_with_rect(rect),
    {
        let (left, right, top, bottom) = LineSegment::from_rect(&rect);
        if let Some(p) = self.line_segments_intersect(&left) {
            return Some(p);
        }
        if let Some(p) = self.line_segments_intersect(&right) {
            return Some(p);
        }
        if let Some(p) = self.line_segments_intersect(&top) {
            return Some(p);
        }
        if let Some(p) = self.line_segments_intersect(&bottom) {
            return Some(p);
        }
        None
    }
}

/// A fraction in `[0, 1]` of a step lands between the two ends of the step.
pub proof fn lemma_fraction_stays_inside(delta: int, n: int, d: int)
    requires
        d > 0,
        0 <= n <= d,
    ensures
        delta >= 0 ==> 0 <= (n * delta) / d <= delta,
        delta <= 0 ==> delta <= (n * delta) / d <= 0,
{
    lemma_div_multiples_vanish(delta, d);
    assert((d * delta) / d == delta);
    assert((0 * delta) / d == 0);
    if delta >= 0 {
        assert(0 <= n * delta <= d * delta) by (nonlinear_arith)
            requires
                0 <= n <= d,
                delta >= 0,
        ;
        lemma_div_is_ordered(0, n * delta, d);
        lemma_div_is_ordered(n * delta, d * delta, d);
    } else {
        assert(d * delta <= n * delta <= 0) by (nonlinear_arith)
            requires
                0 <= n <= d,
                delta <= 0,
        ;
        lemma_div_is_ordered(n * delta, 0, d);
        lemma_div_is_ordered(d * delta, n * delta, d);
    }
}

/// Two equal fractions of a step land on the same point of the lattice.
pub proof fn lemma_equal_fractions_land_together(delta: int, n: int, d: int, m: int, e: int)
    requires
        d > 0,
        e > 0,
        n * e == m * d,
    ensures
        (n * delta) / d == (m * delta) / e,
{
    let q = (n * delta) / d;
    let r = (n * delta) % d;
    lemma_fundamental_div_mod(n * delta, d);
    assert(0 <= r < d) by (nonlinear_arith)
        requires
            r == (n * delta) % d,
            d > 0,
    ;
    // `m * delta` lies between `q * e` and `(q + 1) * e`.
    assert(d * (m * delta) == e * (n * delta)) by (nonlinear_arith)
        requires
            n * e == m * d,
    ;
    assert(d * (m * delta - q * e) == e * r) by (nonlinear_arith)
        requires
            d * (m * delta) == e * (n * delta),
            n * delta == d * q + r,
    ;
    let rest = m * delta - q * e;
    assert(0 <= rest < e) by (nonlinear_arith)
        requires
            d * rest == e * r,
            0 <= r < d,
            e > 0,
            d > 0,
    ;
    assert(m * delta == q * e + rest);
    lemma_fundamental_div_mod_converse(m * delta, e, q, rest);
}

impl LineSegment {
    /// Where a segment meets two lines at the same fraction of its way, it
    /// meets them in the same point.
    pub proof fn lemma_met_together(self, a: LineSegment, b: LineSegment)
        requires
            self.meets(a),
            self.meets(b),
            !self.sooner(a, b),
            !self.sooner(b, a),
        ensures
            self.meeting_point(a) == self.meeting_point(b),
    {
        let n = self.part(a);
        let d = self.span(a);
        let m = self.part(b);
        let e = self.span(b);
        assert(n * e == m * d);
        lemma_equal_fractions_land_together(self.dx(), n, d, m, e);
        lemma_equal_fractions_land_together(self.dy(), n, d, m, e);
    }

    /// Of three lines that a segment crosses: if it meets the first no
    /// sooner than the second, and the second no sooner than the third, it
    /// meets the first no sooner than the third.
    pub proof fn lemma_no_sooner_is_transitive(
        self,
        a: LineSegment,
        b: LineSegment,
        c: LineSegment,
    )
        requires
            self.meets(a),
            self.meets(b),
            self.meets(c),
            !self.sooner(a, b),
            !self.sooner(b, c),
        ensures
            !self.sooner(a, c),
    {
        let na = self.part(a);
        let da = self.span(a);
        let nb = self.part(b);
        let db = self.span(b);
        let nc = self.part(c);
        let dc = self.span(c);
        assert(na * dc >= nc * da) by (nonlinear_arith)
            requires
                na * db >= nb * da,
                nb * dc >= nc * db,
                da > 0,
                db > 0,
                dc > 0,
                na >= 0,
                nb >= 0,
                nc >= 0,
        ;
    }
}

/// The cross product of two vectors whose components are differences of
/// coordinates.
fn cross_of(ax: i64, ay: i64, bx: i64, by: i64) -> (c: i128)
    requires
        -0x1_0000_0000 < ax < 0x1_0000_0000,
        -0x1_0000_0000 < ay < 0x1_0000_0000,
        -0x1_0000_0000 < bx < 0x1_0000_0000,
        -0x1_0000_0000 < by < 0x1_0000_0000,
    ensures
        c == cross(ax as int, ay as int, bx as int, by as int),
        -0x2_0000_0000_0000_0000 < c < 0x2_0000_0000_0000_0000,
{
    assert(-0x1_0000_0000_0000_0000 < ax * by < 0x1_0000_0000_0000_0000) by (nonlinear_arith)
        requires
            -0x1_0000_0000 < ax < 0x1_0000_0000,
            -0x1_0000_0000 < by < 0x1_0000_0000,
    ;
    assert(-0x1_0000_0000_0000_0000 < ay * bx < 0x1_0000_0000_0000_0000) by (nonlinear_arith)
        requires
            -0x1_0000_0000 < ay < 0x1_0000_0000,
            -0x1_0000_0000 < bx < 0x1_0000_0000,
    ;
    (ax as i128) * (by as i128) - (ay as i128) * (bx as i128)
}

/// The coordinate reached from `from` after the fraction `n / d` of `delta`.
fn step_along(from: i32, delta: i64, n: i128, d: i128) -> (at: i32)
    requires
        0 < d < 0x2_0000_0000_0000_0000,
        0 <= n <= d,
        i32::MIN <= from + delta <= i32::MAX,
    ensures
        at == from + (n * delta) / (d as int),
{
    proof {
        lemma_fraction_stays_inside(delta as int, n as int, d as int);
        assert(-0x2_0000_0000_0000_0000 * 0x1_0000_0000 <= n * delta
            <= 0x2_0000_0000_0000_0000 * 0x1_0000_0000) by (nonlinear_arith)
            requires
                0 <= n < 0x2_0000_0000_0000_0000,
                -0x1_0000_0000 <= delta <= 0x1_0000_0000,
        ;
    }
    let moved: i128 = div_floor(n * (delta as i128), d);
    (from as i128 + moved) as i32
}

} // verus!
