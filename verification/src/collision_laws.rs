//! What holds of every collision query: a small square in the middle of a
//! cell collides exactly if that cell blocks, a rectangle far from every
//! blocking cell never collides, and two segments meet or miss each other
//! whichever of them is asked.

use vstd::prelude::*;
use vstd::arithmetic::div_mod::lemma_div_multiples_vanish;
use crate::fixed::cell_index;
use crate::fixed::TILE_SIZE;
use crate::geometry::lemma_fraction_stays_inside;
use crate::geometry::LineSegment;
use crate::geometry::Point;
use crate::geometry::Rect;
use crate::tile_map::tile_rect;
use crate::tile_map::Grid;

verus! {

/// The middle of cell `(x, y)`.
pub open spec fn cell_center(x: u16, y: u16) -> Point {
    Point {
        x: (x * TILE_SIZE + TILE_SIZE / 2) as i32,
        y: (y * TILE_SIZE + TILE_SIZE / 2) as i32,
    }
}

/// A square around the middle of a cell that stays inside the cell collides
/// with the grid exactly if that cell blocks: always where it does, and
/// never where it does not, however near other blocking cells are. `half`
/// is half the side of the square; a square of four world units has
/// `half == 2000`.
pub proof fn lemma_square_in_cell_collides_iff_cell_blocks(grid: Grid, x: u16, y: u16, half: int)
    requires
        grid.well_formed(),
        0 <= half < TILE_SIZE / 2,
    ensures
        grid.rect_hits(Rect::around(cell_center(x, y), half)) <==> grid.blocking(
            x as int,
            y as int,
        ),
{
    let rect = Rect::around(cell_center(x, y), half);
    assert(rect.left == x * TILE_SIZE + TILE_SIZE / 2 - half);
    assert(rect.right == x * TILE_SIZE + TILE_SIZE / 2 + half);
    assert(rect.top == y * TILE_SIZE + TILE_SIZE / 2 - half);
    assert(rect.bottom == y * TILE_SIZE + TILE_SIZE / 2 + half);
    if grid.blocking(x as int, y as int) {
        assert(rect.overlaps(tile_rect(x as int, y as int)));
    }
    if grid.rect_hits(rect) {
        let (cx, cy) = choose|cx: int, cy: int| #[trigger]
            grid.blocking(cx, cy) && rect.overlaps(tile_rect(cx, cy));
        assert(0 <= cx < 0x10000 && 0 <= cy < 0x10000);
        assert(cx == x && cy == y);
    }
}

/// A rectangle shares a point only with cells that it reaches: such a cell
/// lies in the columns from the one before that of its left side to that of
/// its right side, and in the rows likewise.
pub proof fn lemma_rect_meets_only_cells_nearby(rect: Rect, x: int, y: int)
    requires
        0 <= x <= u16::MAX,
        0 <= y <= u16::MAX,
        rect.overlaps(tile_rect(x, y)),
    ensures
        cell_index(rect.left as int) - 1 <= x <= cell_index(rect.right as int),
        cell_index(rect.top as int) - 1 <= y <= cell_index(rect.bottom as int),
{
}

/// A rectangle that no blocking cell is near to never collides, however
/// many cells block elsewhere.
pub proof fn lemma_rect_far_from_walls_is_free(grid: Grid, rect: Rect)
    requires
        grid.well_formed(),
        forall|x: int, y: int| #[trigger]
            grid.blocking(x, y) ==> {
                ||| x < cell_index(rect.left as int) - 1
                ||| x > cell_index(rect.right as int)
                ||| y < cell_index(rect.top as int) - 1
                ||| y > cell_index(rect.bottom as int)
            },
    ensures
        !grid.rect_hits(rect),
{
    if grid.rect_hits(rect) {
        let (cx, cy) = choose|cx: int, cy: int| #[trigger]
            grid.blocking(cx, cy) && rect.overlaps(tile_rect(cx, cy));
        lemma_rect_meets_only_cells_nearby(rect, cx, cy);
    }
}

/// A point collides with the grid exactly if the square of no size around
/// it does, unless it lies on the border between cells.
pub proof fn lemma_point_inside_cell_collides_as_rect(grid: Grid, p: Point)
    requires
        grid.well_formed(),
        p.x % TILE_SIZE != 0,
        p.y % TILE_SIZE != 0,
    ensures
        grid.rect_hits(Rect::around(p, 0)) <==> grid.blocking(
            cell_index(p.x as int),
            cell_index(p.y as int),
        ),
{
    let rect = Rect::around(p, 0);
    let px = cell_index(p.x as int);
    let py = cell_index(p.y as int);
    assert(rect.left == p.x && rect.right == p.x && rect.top == p.y && rect.bottom == p.y);
    if grid.blocking(px, py) {
        assert(rect.overlaps(tile_rect(px, py)));
    }
    if grid.rect_hits(rect) {
        let (cx, cy) = choose|cx: int, cy: int| #[trigger]
            grid.blocking(cx, cy) && rect.overlaps(tile_rect(cx, cy));
        assert(0 <= cx < 0x10000 && 0 <= cy < 0x10000);
        assert(cx == px && cy == py);
    }
}

/// Whether two segments meet does not depend on which of them is asked.
pub proof fn lemma_meeting_is_mutual(a: LineSegment, b: LineSegment)
    ensures
        a.meets(b) == b.meets(a),
{
    let adx = a.dx();
    let ady = a.dy();
    let bdx = b.dx();
    let bdy = b.dy();
    let gx = b.x1 - a.x1;
    let gy = b.y1 - a.y1;
    assert(b.determinant(a) == -a.determinant(b)) by (nonlinear_arith)
        requires
            b.determinant(a) == bdx * ady - bdy * adx,
            a.determinant(b) == adx * bdy - ady * bdx,
    ;
    assert(b.reach(a) == -a.reach_on(b)) by (nonlinear_arith)
        requires
            b.reach(a) == (-gx) * ady - (-gy) * adx,
            a.reach_on(b) == gx * ady - gy * adx,
    ;
    assert(b.reach_on(a) == -a.reach(b)) by (nonlinear_arith)
        requires
            b.reach_on(a) == (-gx) * bdy - (-gy) * bdx,
            a.reach(b) == gx * bdy - gy * bdx,
    ;
}

/// Where two segments cross, the crossing point lies between the two ends
/// of the first, on each axis.
pub proof fn lemma_crossing_lies_between(a: LineSegment, b: LineSegment)
    requires
        a.meets(b),
    ensures
        a.x1 <= a.meeting_point(b).x <= a.x2 || a.x2 <= a.meeting_point(b).x <= a.x1,
        a.y1 <= a.meeting_point(b).y <= a.y2 || a.y2 <= a.meeting_point(b).y <= a.y1,
{
    lemma_fraction_stays_inside(a.dx(), a.part(b), a.span(b));
    lemma_fraction_stays_inside(a.dy(), a.part(b), a.span(b));
}

/// A segment crosses an upright segment on the line of that segment: the
/// crossing point has its x.
pub proof fn lemma_crossing_with_upright(a: LineSegment, b: LineSegment)
    requires
        a.meets(b),
        b.dx() == 0,
    ensures
        a.meeting_point(b).x == b.x1,
{
    let gap = b.x1 - a.x1;
    let n = a.part(b);
    let d = a.span(b);
    assert(a.determinant(b) == a.dx() * b.dy()) by (nonlinear_arith)
        requires
            a.determinant(b) == a.dx() * b.dy() - a.dy() * b.dx(),
            b.dx() == 0,
    ;
    assert(a.reach(b) == gap * b.dy()) by (nonlinear_arith)
        requires
            a.reach(b) == gap * b.dy() - (b.y1 - a.y1) * b.dx(),
            b.dx() == 0,
    ;
    assert(n * a.dx() == gap * d) by (nonlinear_arith)
        requires
            a.determinant(b) == a.dx() * b.dy(),
            a.reach(b) == gap * b.dy(),
            n == if a.determinant(b) > 0 {
                a.reach(b)
            } else {
                -a.reach(b)
            },
            d == if a.determinant(b) >= 0 {
                a.determinant(b)
            } else {
                -a.determinant(b)
            },
    ;
    lemma_div_multiples_vanish(gap, d);
    assert(gap * d == d * gap) by (nonlinear_arith);
}

/// A segment crosses a level segment on the line of that segment: the
/// crossing point has its y.
pub proof fn lemma_crossing_with_level(a: LineSegment, b: LineSegment)
    requires
        a.meets(b),
        b.dy() == 0,
    ensures
        a.meeting_point(b).y == b.y1,
{
    let gap = b.y1 - a.y1;
    let n = a.part(b);
    let d = a.span(b);
    assert(a.determinant(b) == -(a.dy() * b.dx())) by (nonlinear_arith)
        requires
            a.determinant(b) == a.dx() * b.dy() - a.dy() * b.dx(),
            b.dy() == 0,
    ;
    assert(a.reach(b) == -(gap * b.dx())) by (nonlinear_arith)
        requires
            a.reach(b) == (b.x1 - a.x1) * b.dy() - gap * b.dx(),
            b.dy() == 0,
    ;
    assert(n * a.dy() == gap * d) by (nonlinear_arith)
        requires
            a.determinant(b) == -(a.dy() * b.dx()),
            a.reach(b) == -(gap * b.dx()),
            n == if a.determinant(b) > 0 {
                a.reach(b)
            } else {
                -a.reach(b)
            },
            d == if a.determinant(b) >= 0 {
                a.determinant(b)
            } else {
                -a.determinant(b)
            },
    ;
    lemma_div_multiples_vanish(gap, d);
    assert(gap * d == d * gap) by (nonlinear_arith);
}

/// Segments that run the same way never meet, nor does a segment that is a
/// single point meet anything.
pub proof fn lemma_parallel_never_meet(a: LineSegment, b: LineSegment)
    requires
        a.dx() * b.dy() == a.dy() * b.dx(),
    ensures
        !a.meets(b),
        a.crossing(b).is_none(),
{
}

} // verus!
