//! Where a line first meets a wall of the grid.
//!
//! The walls are the four sides of every blocking cell. A line that crosses
//! several of them is stopped by the one it meets first on its way from its
//! first end to its second, whichever cell that wall belongs to.

use vstd::prelude::*;
use crate::collision_laws::lemma_crossing_lies_between;
use crate::collision_laws::lemma_crossing_with_level;
use crate::collision_laws::lemma_crossing_with_upright;
use crate::fixed::TILE_SIZE;
use crate::geometry::LineSegment;
use crate::geometry::Point;
use crate::geometry::Rect;
use crate::tile_map::tile_rect;
use crate::tile_map::Grid;
use crate::tile_map::TileMap;

verus! {

/// Side `k` of a rectangle: the left for 0, the right for 1, the top for 2
/// and the bottom for 3.
pub open spec fn side_of(rect: Rect, k: int) -> LineSegment {
    if k == 0 {
        LineSegment::left_of(rect)
    } else if k == 1 {
        LineSegment::right_of(rect)
    } else if k == 2 {
        LineSegment::top_of(rect)
    } else {
        LineSegment::bottom_of(rect)
    }
}

/// Side `k` of the cell `(x, y)`.
pub open spec fn wall(x: int, y: int, k: int) -> LineSegment {
    side_of(tile_rect(x, y), k)
}

impl Grid {
    /// Whether `line` crosses side `k` of the cell `(x, y)`, and that cell
    /// blocks.
    pub open spec fn crossed(self, line: LineSegment, x: int, y: int, k: int) -> bool {
        self.blocking(x, y) && 0 <= k < 4 && line.meets(wall(x, y, k))
    }

    /// Whether `hit` is where `line` first meets a wall: the point in which
    /// it crosses a side of a blocking cell, and it crosses no such side
    /// sooner; or nothing, where it crosses none.
    pub open spec fn is_nearest_line_hit(self, line: LineSegment, hit: Option<Point>) -> bool {
        match hit {
            Some(p) => exists|x: int, y: int, k: int|
                {
                    &&& #[trigger] self.crossed(line, x, y, k)
                    &&& p == line.meeting_point(wall(x, y, k))
                    &&& forall|u: int, v: int, m: int| #[trigger]
                        self.crossed(line, u, v, m) ==> !line.sooner(wall(u, v, m), wall(x, y, k))
                },
            None => forall|x: int, y: int, k: int| !#[trigger] self.crossed(line, x, y, k),
        }
    }

    /// Where `line` first meets a wall, if it meets one.
    pub open spec fn nearest_line_hit(self, line: LineSegment) -> Option<Point> {
        choose|hit: Option<Point>| self.is_nearest_line_hit(line, hit)
    }
}

/// A line first meets the walls in one point, or in none.
pub proof fn lemma_nearest_line_hit_is_one(
    grid: Grid,
    line: LineSegment,
    a: Option<Point>,
    b: Option<Point>,
)
    requires
        grid.is_nearest_line_hit(line, a),
        grid.is_nearest_line_hit(line, b),
    ensures
        a == b,
{
    match (a, b) {
        (Some(p), Some(q)) => {
            let (x, y, k) = choose|x: int, y: int, k: int|
                {
                    &&& #[trigger] grid.crossed(line, x, y, k)
                    &&& p == line.meeting_point(wall(x, y, k))
                    &&& forall|u: int, v: int, m: int| #[trigger]
                        grid.crossed(line, u, v, m) ==> !line.sooner(wall(u, v, m), wall(x, y, k))
                };
            let (s, t, j) = choose|s: int, t: int, j: int|
                {
                    &&& #[trigger] grid.crossed(line, s, t, j)
                    &&& q == line.meeting_point(wall(s, t, j))
                    &&& forall|u: int, v: int, m: int| #[trigger]
                        grid.crossed(line, u, v, m) ==> !line.sooner(wall(u, v, m), wall(s, t, j))
                };
            assert(grid.crossed(line, x, y, k));
            assert(grid.crossed(line, s, t, j));
            line.lemma_met_together(wall(x, y, k), wall(s, t, j));
        },
        (Some(p), None) => {
            let (x, y, k) = choose|x: int, y: int, k: int|
                {
                    &&& #[trigger] grid.crossed(line, x, y, k)
                    &&& p == line.meeting_point(wall(x, y, k))
                    &&& forall|u: int, v: int, m: int| #[trigger]
                        grid.crossed(line, u, v, m) ==> !line.sooner(wall(u, v, m), wall(x, y, k))
                };
            assert(grid.crossed(line, x, y, k));
        },
        (None, Some(q)) => {
            let (s, t, j) = choose|s: int, t: int, j: int|
                {
                    &&& #[trigger] grid.crossed(line, s, t, j)
                    &&& q == line.meeting_point(wall(s, t, j))
                    &&& forall|u: int, v: int, m: int| #[trigger]
                        grid.crossed(line, u, v, m) ==> !line.sooner(wall(u, v, m), wall(s, t, j))
                };
            assert(grid.crossed(line, s, t, j));
        },
        (None, None) => {},
    }
}

/// Where a line first meets a wall, it is on the line: between its two
/// ends on each axis. And it is on the wall: on the line of a side of a
/// blocking cell.
pub proof fn lemma_hit_lies_on_line_and_wall(grid: Grid, line: LineSegment, p: Point)
    requires
        grid.well_formed(),
        grid.is_nearest_line_hit(line, Some(p)),
    ensures
        line.x1 <= p.x <= line.x2 || line.x2 <= p.x <= line.x1,
        line.y1 <= p.y <= line.y2 || line.y2 <= p.y <= line.y1,
        exists|x: int, y: int| #[trigger]
            grid.blocking(x, y) && {
                ||| p.x == tile_rect(x, y).left
                ||| p.x == tile_rect(x, y).right
                ||| p.y == tile_rect(x, y).top
                ||| p.y == tile_rect(x, y).bottom
            },
{
    let (x, y, k) = choose|x: int, y: int, k: int|
        {
            &&& #[trigger] grid.crossed(line, x, y, k)
            &&& p == line.meeting_point(wall(x, y, k))
            &&& forall|u: int, v: int, m: int| #[trigger]
                grid.crossed(line, u, v, m) ==> !line.sooner(wall(u, v, m), wall(x, y, k))
        };
    assert(grid.crossed(line, x, y, k));
    assert(grid.blocking(x, y));
    lemma_crossing_lies_between(line, wall(x, y, k));
    if k == 0 || k == 1 {
        lemma_crossing_with_upright(line, wall(x, y, k));
    } else {
        lemma_crossing_with_level(line, wall(x, y, k));
    }
}

/// The wall that a line meets first among those looked at, with the fraction
/// of the line's way at which it meets it.
struct Nearest {
    side: LineSegment,
    part: i128,
    span: i128,
}

impl Nearest {
    /// Whether this is a wall that `line` crosses, with its fraction.
    spec fn of(self, line: LineSegment) -> bool {
        &&& line.meets(self.side)
        &&& self.part == line.part(self.side)
        &&& self.span == line.span(self.side)
        &&& 0 <= self.part <= self.span
        &&& 0 < self.span < 0x8000_0000_0000
    }
}

/// Whether the wall `(u, v, m)` comes before `(x, y, k)` where the walls
/// are taken row by row, cell by cell and side by side.
spec fn before(u: int, v: int, m: int, x: int, y: int, k: int) -> bool {
    v < y || (v == y && u < x) || (v == y && u == x && m < k)
}

/// Whether `best` is the wall that `line` meets first among those before
/// `(x, y, k)`.
spec fn first_before(
    grid: Grid,
    line: LineSegment,
    best: Option<Nearest>,
    x: int,
    y: int,
    k: int,
) -> bool {
    &&& best.is_some() ==> best.unwrap().of(line) && exists|u: int, v: int, m: int| #[trigger]
        grid.crossed(line, u, v, m) && best.unwrap().side == wall(u, v, m)
    &&& forall|u: int, v: int, m: int|
        before(u, v, m, x, y, k) && #[trigger] grid.crossed(line, u, v, m) ==> best.is_some()
            && !line.sooner(wall(u, v, m), best.unwrap().side)
}

/// What `nearer` gives for `side` after `best`.
spec fn nearer_of(
    line: LineSegment,
    best: Option<Nearest>,
    side: LineSegment,
    next: Option<Nearest>,
) -> bool {
    &&& next.is_some() ==> next.unwrap().of(line)
    &&& next.is_some() ==> (best.is_some() && best.unwrap().side == next.unwrap().side)
        || next.unwrap().side == side
    &&& line.meets(side) ==> next.is_some() && !line.sooner(side, next.unwrap().side)
    &&& best.is_some() ==> next.is_some() && !line.sooner(best.unwrap().side, next.unwrap().side)
}

/// The nearer of `best` and `side`: `side` where `line` crosses it, and
/// sooner than `best`; else `best`.
fn nearer(line: &LineSegment, best: Option<Nearest>, side: LineSegment) -> (next: Option<Nearest>)
    requires
        0 <= side.dx() <= TILE_SIZE,
        0 <= side.dy() <= TILE_SIZE,
        best.is_some() ==> best.unwrap().of(*line),
    ensures
        nearer_of(*line, best, side, next),
{
    match line.meeting_fraction(&side) {
        None => best,
        Some((part, span)) => {
            assert(span < 0x8000_0000_0000) by (nonlinear_arith)
                requires
                    span == line.span(side),
                    0 <= side.dx() <= 8000,
                    0 <= side.dy() <= 8000,
                    -0x1_0000_0000 < line.dx() < 0x1_0000_0000,
                    -0x1_0000_0000 < line.dy() < 0x1_0000_0000,
            ;
            let found = Nearest { side, part, span };
            match best {
                None => Some(found),
                Some(held) => {
                    assert(part * held.span <= 0x8000_0000_0000 * 0x8000_0000_0000)
                        by (nonlinear_arith)
                        requires
                            0 <= part <= 0x8000_0000_0000,
                            0 <= held.span <= 0x8000_0000_0000,
                    ;
                    assert(held.part * span <= 0x8000_0000_0000 * 0x8000_0000_0000)
                        by (nonlinear_arith)
                        requires
                            0 <= held.part <= 0x8000_0000_0000,
                            0 <= span <= 0x8000_0000_0000,
                    ;
                    if part * held.span < held.part * span {
                        Some(found)
                    } else {
                        Some(held)
                    }
                },
            }
        },
    }
}

/// One more wall of a blocking cell is looked at.
proof fn lemma_one_more_wall(
    grid: Grid,
    line: LineSegment,
    best: Option<Nearest>,
    next: Option<Nearest>,
    x: int,
    y: int,
    k: int,
)
    requires
        grid.blocking(x, y),
        0 <= k < 4,
        first_before(grid, line, best, x, y, k),
        nearer_of(line, best, wall(x, y, k), next),
    ensures
        first_before(grid, line, next, x, y, k + 1),
{
    if next.is_some() {
        if next.unwrap().side == wall(x, y, k) {
            assert(grid.crossed(line, x, y, k));
        }
    }
    assert forall|u: int, v: int, m: int|
        before(u, v, m, x, y, k + 1) && #[trigger] grid.crossed(line, u, v, m) implies next.is_some()
        && !line.sooner(wall(u, v, m), next.unwrap().side) by {
        if before(u, v, m, x, y, k) {
            line.lemma_no_sooner_is_transitive(
                wall(u, v, m),
                best.unwrap().side,
                next.unwrap().side,
            );
        }
    }
}

impl TileMap {
    /// Where `line` first meets a wall on its way from its first end to its
    /// second: the point in which it crosses a side of a blocking cell, and
    /// it crosses no such side sooner. `None` where it crosses none; a line
    /// that only runs along a side does not cross it.
    pub fn line_collides_with_tile(&self, line: &LineSegment) -> (hit: Option<Point>)
        ensures
            self@.is_nearest_line_hit(*line, hit),
            hit == self@.nearest_line_hit(*line),
    {
        let best: Option<Nearest> = self.nearest_wall(line);
        let hit: Option<Point> = match best {
            None => None,
            Some(held) => line.line_segments_intersect(&held.side),
        };
        proof {
            if best.is_some() {
                let side = best.unwrap().side;
                let (x, y, k) = choose|x: int, y: int, k: int| #[trigger]
                    self@.crossed(*line, x, y, k) && side == wall(x, y, k);
                assert(self@.crossed(*line, x, y, k));
                assert(hit == Some(line.meeting_point(wall(x, y, k))));
            }
            assert(self@.is_nearest_line_hit(*line, hit));
            lemma_nearest_line_hit_is_one(self@, *line, hit, self@.nearest_line_hit(*line));
        }
        hit
    }

    /// The wall that `line` meets first, all cells looked at row by row.
    fn nearest_wall(&self, line: &LineSegment) -> (best: Option<Nearest>)
        ensures
            first_before(self@, *line, best, 0, self@.height, 0),
    {
        let width: u16 = self.width();
        let height: u16 = self.height();
        let mut best: Option<Nearest> = None;
        let mut y: u16 = 0;
        while y < height
            invariant
                y <= height,
                width == self@.width,
                height == self@.height,
                first_before(self@, *line, best, 0, y as int, 0),
            decreases height - y,
        {
            let mut x: u16 = 0;
            while x < width
                invariant
                    y < height,
                    x <= width,
                    width == self@.width,
                    height == self@.height,
                    first_before(self@, *line, best, x as int, y as int, 0),
                decreases width - x,
            {
                if self.blocks_at(x, y) {
                    let bounds: Rect = TileMap::tile_bounds(x, y);
                    let (left, right, top, bottom) = LineSegment::from_rect(&bounds);
                    let ghost held = best;
                    best = nearer(line, best, left);
                    proof {
                        lemma_one_more_wall(self@, *line, held, best, x as int, y as int, 0);
                    }
                    let ghost held = best;
                    best = nearer(line, best, right);
                    proof {
                        lemma_one_more_wall(self@, *line, held, best, x as int, y as int, 1);
                    }
                    let ghost held = best;
                    best = nearer(line, best, top);
                    proof {
                        lemma_one_more_wall(self@, *line, held, best, x as int, y as int, 2);
                    }
                    let ghost held = best;
                    best = nearer(line, best, bottom);
                    proof {
                        lemma_one_more_wall(self@, *line, held, best, x as int, y as int, 3);
                    }
                }
                x += 1;
            }
            y += 1;
        }
        best
    }
}

} // verus!
