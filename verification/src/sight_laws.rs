//! What holds of every line of sight: where it starts, how it moves, that it
//! never comes back to a cell, and that nothing lies behind a blocking cell.

use vstd::prelude::*;
use crate::fixed::cell_index;
use crate::fixed::magnitude;
use crate::sight::Ray;
use crate::tile_map::Grid;

verus! {

impl Ray {
    /// How many columns `to` lies ahead of `from`, counted the way the ray
    /// travels.
    pub open spec fn columns_ahead(self, from: int, to: int) -> int {
        if self.dx >= 0 {
            to - from
        } else {
            from - to
        }
    }

    /// How many rows `to` lies ahead of `from`, counted the way the ray
    /// travels.
    pub open spec fn rows_ahead(self, from: int, to: int) -> int {
        if self.dy >= 0 {
            to - from
        } else {
            from - to
        }
    }

    /// Whether `to` is the cell next to `from` on one axis, on the side to
    /// which the ray travels.
    pub open spec fn one_step(self, from: (int, int), to: (int, int)) -> bool {
        ||| self.dx != 0 && to.1 == from.1 && self.columns_ahead(from.0, to.0) == 1
        ||| self.dy != 0 && to.0 == from.0 && self.rows_ahead(from.1, to.1) == 1
    }
}

/// The larger of the two distances, in cells, along the axes.
pub open spec fn chebyshev(a: (int, int), b: (int, int)) -> int {
    if magnitude(a.0 - b.0) >= magnitude(a.1 - b.1) {
        magnitude(a.0 - b.0)
    } else {
        magnitude(a.1 - b.1)
    }
}

/// The square of the straight-line distance, in cells.
pub open spec fn distance_squared(a: (int, int), b: (int, int)) -> int {
    (a.0 - b.0) * (a.0 - b.0) + (a.1 - b.1) * (a.1 - b.1)
}

/// The walk from a cell of the grid: it starts there, stays in the grid, and
/// with each index moves one more cell ahead of its start.
proof fn lemma_walk(grid: Grid, ray: Ray, cx: int, cy: int)
    requires
        grid.in_bounds(cx, cy),
        !ray.still(),
    ensures
        ({
            let s = grid.sight_from(ray, cx, cy);
            &&& 1 <= s.len() <= ray.room(grid.width, grid.height, cx, cy)
            &&& s[0] == (cx, cy)
            &&& forall|i: int|
                0 <= i < s.len() ==> {
                    &&& grid.in_bounds((#[trigger] s[i]).0, s[i].1)
                    &&& ray.columns_ahead(cx, s[i].0) >= 0
                    &&& ray.rows_ahead(cy, s[i].1) >= 0
                    &&& ray.columns_ahead(cx, s[i].0) + ray.rows_ahead(cy, s[i].1) == i
                    &&& (ray.dx == 0 ==> s[i].0 == cx)
                    &&& (ray.dy == 0 ==> s[i].1 == cy)
                }
        }),
    decreases ray.room(grid.width, grid.height, cx, cy),
{
    let s = grid.sight_from(ray, cx, cy);
    let ahead = ray.next(cx, cy);
    if grid.blocking(cx, cy) || ray.spent(cx, cy) || !grid.in_bounds(ahead.0, ahead.1) {
        assert(s =~= seq![(cx, cy)]);
    } else {
        let rest = grid.sight_from(ray, ahead.0, ahead.1);
        lemma_walk(grid, ray, ahead.0, ahead.1);
        assert(s =~= seq![(cx, cy)] + rest);
        assert forall|i: int| 0 <= i < s.len() implies {
            &&& grid.in_bounds((#[trigger] s[i]).0, s[i].1)
            &&& ray.columns_ahead(cx, s[i].0) >= 0
            &&& ray.rows_ahead(cy, s[i].1) >= 0
            &&& ray.columns_ahead(cx, s[i].0) + ray.rows_ahead(cy, s[i].1) == i
            &&& (ray.dx == 0 ==> s[i].0 == cx)
            &&& (ray.dy == 0 ==> s[i].1 == cy)
        } by {
            if i > 0 {
                assert(s[i] == rest[i - 1]);
            }
        }
    }
}

/// What is left of a walk after `i` cells is the walk from the cell that it
/// has reached.
proof fn lemma_walk_goes_on(grid: Grid, ray: Ray, cx: int, cy: int, i: int)
    requires
        grid.in_bounds(cx, cy),
        !ray.still(),
        0 <= i < grid.sight_from(ray, cx, cy).len(),
    ensures
        ({
            let s = grid.sight_from(ray, cx, cy);
            &&& grid.in_bounds(s[i].0, s[i].1)
            &&& s.skip(i) == grid.sight_from(ray, s[i].0, s[i].1)
        }),
    decreases i,
{
    let s = grid.sight_from(ray, cx, cy);
    lemma_walk(grid, ray, cx, cy);
    if i == 0 {
        assert(s.skip(0) =~= s);
    } else {
        let ahead = ray.next(cx, cy);
        let rest = grid.sight_from(ray, ahead.0, ahead.1);
        assert(s =~= seq![(cx, cy)] + rest);
        lemma_walk_goes_on(grid, ray, ahead.0, ahead.1, i - 1);
        assert(s[i] == rest[i - 1]);
        assert(s.skip(i) =~= rest.skip(i - 1));
    }
}

/// Each cell of a walk but the last is free, has the ray's length still to
/// spare, and is followed by the cell that the ray enters next.
proof fn lemma_walk_link(grid: Grid, ray: Ray, cx: int, cy: int, i: int)
    requires
        grid.in_bounds(cx, cy),
        !ray.still(),
        0 <= i < grid.sight_from(ray, cx, cy).len() - 1,
    ensures
        ({
            let s = grid.sight_from(ray, cx, cy);
            &&& !grid.blocking(s[i].0, s[i].1)
            &&& !ray.spent(s[i].0, s[i].1)
            &&& s[i + 1] == ray.next(s[i].0, s[i].1)
            &&& ray.one_step(s[i], s[i + 1])
        }),
{
    let s = grid.sight_from(ray, cx, cy);
    lemma_walk_goes_on(grid, ray, cx, cy, i);
    let tail = grid.sight_from(ray, s[i].0, s[i].1);
    assert(tail == s.skip(i));
    assert(tail.len() == s.len() - i);
    assert(tail[1] == s[i + 1]);
    let ahead = ray.next(s[i].0, s[i].1);
    let rest = grid.sight_from(ray, ahead.0, ahead.1);
    assert(tail =~= seq![s[i]] + rest);
    lemma_walk(grid, ray, ahead.0, ahead.1);
    assert(tail[1] == rest[0]);
}

/// On the cleared grid the walk from a cell begins with the walk on the grid
/// itself, and where it goes further, the walk on the grid ended in a
/// blocking cell.
proof fn lemma_walk_begins_open_walk(grid: Grid, ray: Ray, cx: int, cy: int)
    requires
        grid.in_bounds(cx, cy),
        !ray.still(),
    ensures
        ({
            let s = grid.sight_from(ray, cx, cy);
            let p = grid.cleared().sight_from(ray, cx, cy);
            &&& s.len() <= p.len()
            &&& s == p.take(s.len() as int)
            &&& s.len() < p.len() ==> grid.blocking(s.last().0, s.last().1)
        }),
    decreases ray.room(grid.width, grid.height, cx, cy),
{
    let open = grid.cleared();
    let s = grid.sight_from(ray, cx, cy);
    let p = open.sight_from(ray, cx, cy);
    let ahead = ray.next(cx, cy);
    assert(!open.blocking(cx, cy));
    assert(open.in_bounds(ahead.0, ahead.1) == grid.in_bounds(ahead.0, ahead.1));
    lemma_walk(open, ray, cx, cy);
    if ray.spent(cx, cy) || !grid.in_bounds(ahead.0, ahead.1) {
        assert(s =~= seq![(cx, cy)]);
        assert(p =~= seq![(cx, cy)]);
        assert(s =~= p.take(1));
    } else if grid.blocking(cx, cy) {
        assert(s =~= seq![(cx, cy)]);
        assert(s =~= p.take(1));
    } else {
        let s_rest = grid.sight_from(ray, ahead.0, ahead.1);
        let p_rest = open.sight_from(ray, ahead.0, ahead.1);
        lemma_walk_begins_open_walk(grid, ray, ahead.0, ahead.1);
        lemma_walk(grid, ray, ahead.0, ahead.1);
        assert(s =~= seq![(cx, cy)] + s_rest);
        assert(p =~= seq![(cx, cy)] + p_rest);
        assert(s_rest == p_rest.take(s_rest.len() as int));
        assert forall|i: int| 0 <= i < s.len() implies s[i] == p.take(s.len() as int)[i] by {
            if i > 0 {
                assert(s[i] == s_rest[i - 1]);
                assert(s_rest[i - 1] == p_rest.take(s_rest.len() as int)[i - 1]);
                assert(p[i] == p_rest[i - 1]);
            }
        }
        assert(s =~= p.take(s.len() as int));
        assert(s.last() == s_rest.last());
    }
}

/// A line of sight starts in the cell of the ray's start, stays inside the
/// grid, and holds no more cells than the grid has columns and rows
/// together. It is empty only for a ray without direction or length, or
/// one that starts outside the grid.
pub proof fn lemma_sight_starts_at_origin(grid: Grid, ray: Ray)
    requires
        grid.well_formed(),
    ensures
        ({
            let s = grid.sight(ray);
            let start = (cell_index(ray.x), cell_index(ray.y));
            &&& s.len() <= grid.width + grid.height
            &&& s.len() == 0 <==> ray.still() || ray.length <= 0 || !grid.in_bounds(start.0, start.1)
            &&& s.len() > 0 ==> s[0] == start
            &&& forall|i: int| 0 <= i < s.len() ==> grid.in_bounds((#[trigger] s[i]).0, s[i].1)
        }),
{
    let s = grid.sight(ray);
    let start = (cell_index(ray.x), cell_index(ray.y));
    if !(ray.still() || ray.length <= 0 || !grid.in_bounds(start.0, start.1)) {
        lemma_walk(grid, ray, start.0, start.1);
    }
}

/// Each cell of a line of sight is followed by a neighbour: the next column
/// or the next row on the side to which the ray travels. No cell is skipped.
pub proof fn lemma_sight_steps_to_neighbour(grid: Grid, ray: Ray)
    ensures
        ({
            let s = grid.sight(ray);
            forall|i: int|
                0 <= i < s.len() - 1 ==> {
                    &&& (#[trigger] s[i + 1]) == ray.next(s[i].0, s[i].1)
                    &&& ray.one_step(s[i], s[i + 1])
                    &&& !ray.spent(s[i].0, s[i].1)
                }
        }),
{
    let s = grid.sight(ray);
    let start = (cell_index(ray.x), cell_index(ray.y));
    assert forall|i: int| 0 <= i < s.len() - 1 implies {
        &&& (#[trigger] s[i + 1]) == ray.next(s[i].0, s[i].1)
        &&& ray.one_step(s[i], s[i + 1])
        &&& !ray.spent(s[i].0, s[i].1)
    } by {
        lemma_walk_link(grid, ray, start.0, start.1, i);
    }
}

/// Along a line of sight the cells move away from the first: the cell at
/// index `i` lies `i` steps ahead, columns and rows together, and on neither
/// axis does the walk ever turn back.
pub proof fn lemma_sight_moves_ahead(grid: Grid, ray: Ray)
    ensures
        ({
            let s = grid.sight(ray);
            &&& forall|i: int|
                0 <= i < s.len() ==> ray.columns_ahead(s[0].0, (#[trigger] s[i]).0) + ray.rows_ahead(
                    s[0].1,
                    s[i].1,
                ) == i
            &&& forall|i: int, j: int|
                0 <= i <= j < s.len() ==> {
                    &&& 0 <= ray.columns_ahead((#[trigger] s[i]).0, (#[trigger] s[j]).0)
                    &&& 0 <= ray.rows_ahead(s[i].1, s[j].1)
                }
        }),
{
    let s = grid.sight(ray);
    let start = (cell_index(ray.x), cell_index(ray.y));
    if s.len() > 0 {
        lemma_walk(grid, ray, start.0, start.1);
        assert forall|i: int, j: int| 0 <= i <= j < s.len() implies {
            &&& 0 <= ray.columns_ahead((#[trigger] s[i]).0, (#[trigger] s[j]).0)
            &&& 0 <= ray.rows_ahead(s[i].1, s[j].1)
        } by {
            lemma_walk_goes_on(grid, ray, start.0, start.1, i);
            let tail = grid.sight_from(ray, s[i].0, s[i].1);
            lemma_walk(grid, ray, s[i].0, s[i].1);
            assert(tail[j - i] == s[j]);
        }
    }
}

/// A line of sight never enters a cell twice.
pub proof fn lemma_sight_never_returns(grid: Grid, ray: Ray)
    ensures
        grid.sight(ray).no_duplicates(),
{
    let s = grid.sight(ray);
    lemma_sight_moves_ahead(grid, ray);
    assert forall|i: int, j: int| 0 <= i < s.len() && 0 <= j < s.len() && i != j implies s[i]
        != s[j] by {
        assert(ray.columns_ahead(s[0].0, s[i].0) + ray.rows_ahead(s[0].1, s[i].1) == i);
        assert(ray.columns_ahead(s[0].0, s[j].0) + ray.rows_ahead(s[0].1, s[j].1) == j);
    }
}

/// Along a line of sight the distance from the first cell never shrinks:
/// neither the larger of the two distances along the axes, nor the
/// straight-line distance.
pub proof fn lemma_sight_moves_away(grid: Grid, ray: Ray)
    ensures
        ({
            let s = grid.sight(ray);
            forall|i: int, j: int|
                0 <= i <= j < s.len() ==> {
                    &&& chebyshev(#[trigger] s[i], s[0]) <= chebyshev(#[trigger] s[j], s[0])
                    &&& distance_squared(s[i], s[0]) <= distance_squared(s[j], s[0])
                }
        }),
{
    let s = grid.sight(ray);
    lemma_sight_moves_ahead(grid, ray);
    assert forall|i: int, j: int| 0 <= i <= j < s.len() implies {
        &&& chebyshev(#[trigger] s[i], s[0]) <= chebyshev(#[trigger] s[j], s[0])
        &&& distance_squared(s[i], s[0]) <= distance_squared(s[j], s[0])
    } by {
        assert(0 <= ray.columns_ahead(s[0].0, s[i].0) && 0 <= ray.rows_ahead(s[0].1, s[i].1));
        assert(0 <= ray.columns_ahead(s[i].0, s[j].0) && 0 <= ray.rows_ahead(s[i].1, s[j].1));
        let ax = magnitude(s[i].0 - s[0].0);
        let bx = magnitude(s[j].0 - s[0].0);
        let ay = magnitude(s[i].1 - s[0].1);
        let by = magnitude(s[j].1 - s[0].1);
        assert(0 <= ax <= bx && 0 <= ay <= by);
        assert(ax * ax <= bx * bx && ay * ay <= by * by) by (nonlinear_arith)
            requires
                0 <= ax <= bx,
                0 <= ay <= by,
        ;
        assert((s[i].0 - s[0].0) * (s[i].0 - s[0].0) == ax * ax) by (nonlinear_arith)
            requires
                ax == magnitude(s[i].0 - s[0].0),
        ;
        assert((s[j].0 - s[0].0) * (s[j].0 - s[0].0) == bx * bx) by (nonlinear_arith)
            requires
                bx == magnitude(s[j].0 - s[0].0),
        ;
        assert((s[i].1 - s[0].1) * (s[i].1 - s[0].1) == ay * ay) by (nonlinear_arith)
            requires
                ay == magnitude(s[i].1 - s[0].1),
        ;
        assert((s[j].1 - s[0].1) * (s[j].1 - s[0].1) == by * by) by (nonlinear_arith)
            requires
                by == magnitude(s[j].1 - s[0].1),
        ;
    }
}

/// A blocking cell ends the line of sight: only the last cell can block.
pub proof fn lemma_sight_stops_when_blocked(grid: Grid, ray: Ray)
    ensures
        ({
            let s = grid.sight(ray);
            forall|i: int|
                0 <= i < s.len() && grid.blocking((#[trigger] s[i]).0, s[i].1) ==> i == s.len() - 1
        }),
{
    let s = grid.sight(ray);
    let start = (cell_index(ray.x), cell_index(ray.y));
    assert forall|i: int|
        0 <= i < s.len() && grid.blocking((#[trigger] s[i]).0, s[i].1) implies i == s.len()
        - 1 by {
        if i < s.len() - 1 {
            lemma_walk_link(grid, ray, start.0, start.1, i);
        }
    }
}

/// Nothing behind a blocking cell is seen. The line of sight is the
/// beginning of the path that the same ray takes through the cleared grid;
/// where the path goes further, the line of sight ended in a blocking cell,
/// and no cell of the rest of the path is part of it.
pub proof fn lemma_sight_hides_what_lies_behind(grid: Grid, ray: Ray)
    ensures
        ({
            let s = grid.sight(ray);
            let path = grid.cleared().sight(ray);
            &&& s.len() <= path.len()
            &&& s == path.take(s.len() as int)
            &&& s.len() < path.len() ==> s.len() > 0 && grid.blocking(s.last().0, s.last().1)
            &&& forall|j: int| s.len() <= j < path.len() ==> !s.contains(#[trigger] path[j])
        }),
{
    let s = grid.sight(ray);
    let open = grid.cleared();
    let path = open.sight(ray);
    let start = (cell_index(ray.x), cell_index(ray.y));
    assert(open.in_bounds(start.0, start.1) == grid.in_bounds(start.0, start.1));
    if ray.still() || ray.length <= 0 || !grid.in_bounds(start.0, start.1) {
        assert(s =~= path.take(0));
    } else {
        lemma_walk_begins_open_walk(grid, ray, start.0, start.1);
        lemma_sight_never_returns(open, ray);
        assert forall|j: int| s.len() <= j < path.len() implies !s.contains(#[trigger] path[j]) by {
            if s.contains(path[j]) {
                let i = choose|i: int| 0 <= i < s.len() && s[i] == path[j];
                assert(s[i] == path.take(s.len() as int)[i]);
                assert(path[i] == path[j]);
            }
        }
    }
}

} // verus!
