//! Line of sight: the cells that a ray passes through, one after another,
//! until it has gone its length, leaves the grid, or enters a blocking cell.
//!
//! The walk is exact. A ray is a start point and a direction with whole
//! components; which side of a cell it leaves through, and how far it has
//! gone by then, are decided by comparing products of whole numbers.

use vstd::prelude::*;
use crate::fixed::cell_index;
use crate::fixed::cell_of;
use crate::fixed::magnitude;
use crate::fixed::magnitude_of;
use crate::fixed::signum;
use crate::fixed::TILE_SIZE;
use crate::geometry::Point;
use crate::tile_map::Grid;
use crate::tile_map::TileMap;

verus! {

/// A direction of travel. Only the ratio of the components matters, so any
/// scale serves; `(0, 0)` is no direction at all.
#[derive(Clone, Copy, Debug, PartialEq, Eq, Structural)]
pub struct Direction {
    pub dx: i32,
    pub dy: i32,
}

/// A ray as a mathematical value: where it starts, which way it goes, and
/// how far, in milli-units.
pub struct Ray {
    pub x: int,
    pub y: int,
    pub dx: int,
    pub dy: int,
    pub length: int,
}

impl Ray {
    /// The ray from `origin` along `direction` for `length` milli-units.
    pub open spec fn from(origin: Point, direction: Direction, length: u32) -> Ray {
        Ray {
            x: origin.x as int,
            y: origin.y as int,
            dx: direction.dx as int,
            dy: direction.dy as int,
            length: length as int,
        }
    }

    /// A ray without a direction goes nowhere.
    pub open spec fn still(self) -> bool {
        self.dx == 0 && self.dy == 0
    }

    /// How far the ray has moved along the x axis when it leaves column
    /// `cx` by the side that lies ahead.
    pub open spec fn gap_x(self, cx: int) -> int {
        if self.dx > 0 {
            (cx + 1) * TILE_SIZE - self.x
        } else {
            self.x - cx * TILE_SIZE
        }
    }

    /// How far the ray has moved along the y axis when it leaves row `cy`
    /// by the side that lies ahead.
    pub open spec fn gap_y(self, cy: int) -> int {
        if self.dy > 0 {
            (cy + 1) * TILE_SIZE - self.y
        } else {
            self.y - cy * TILE_SIZE
        }
    }

    /// Whether the ray leaves cell `(cx, cy)` into the next column rather
    /// than the next row: it reaches the side ahead on the x axis strictly
    /// sooner. Through a corner it goes into the next row first.
    pub open spec fn leaves_sideways(self, cx: int, cy: int) -> bool {
        self.dx != 0 && (self.dy == 0 || self.gap_x(cx) * magnitude(self.dy) < self.gap_y(cy)
            * magnitude(self.dx))
    }

    /// The cell that the ray enters when it leaves `(cx, cy)`.
    pub open spec fn next(self, cx: int, cy: int) -> (int, int) {
        if self.leaves_sideways(cx, cy) {
            (cx + signum(self.dx), cy)
        } else {
            (cx, cy + signum(self.dy))
        }
    }

    /// Whether the ray has gone its whole length by the time it leaves
    /// `(cx, cy)`. With `gap` the distance moved along the axis of the side
    /// that it leaves through and `d` the direction's component on that
    /// axis, the distance gone is `gap * |direction| / |d|`.
    pub open spec fn spent(self, cx: int, cy: int) -> bool {
        let gap = if self.leaves_sideways(cx, cy) {
            self.gap_x(cx)
        } else {
            self.gap_y(cy)
        };
        let d = if self.leaves_sideways(cx, cy) {
            self.dx
        } else {
            self.dy
        };
        gap * gap * (self.dx * self.dx + self.dy * self.dy) >= self.length * self.length * (d * d)
    }

    /// How many cells lie ahead of `(cx, cy)` on the two axes before the
    /// edge of a grid of `width` by `height` cells.
    pub open spec fn room(self, width: int, height: int, cx: int, cy: int) -> int {
        (if self.dx > 0 {
            width - cx
        } else if self.dx < 0 {
            cx + 1
        } else {
            0
        }) + (if self.dy > 0 {
            height - cy
        } else if self.dy < 0 {
            cy + 1
        } else {
            0
        })
    }
}

impl Grid {
    /// The same grid with nothing in the way: no tile blocks.
    pub open spec fn cleared(self) -> Grid {
        Grid { colliders: Seq::new(self.colliders.len(), |i: int| false), ..self }
    }

    /// The cells that `ray` passes through from cell `(cx, cy)` on, that
    /// cell first. The walk ends with the cell in which the ray has gone its
    /// length, with the last cell before the edge of the grid, or with the
    /// first blocking cell.
    pub open spec fn sight_from(self, ray: Ray, cx: int, cy: int) -> Seq<(int, int)>
        decreases ray.room(self.width, self.height, cx, cy),
    {
        let ahead = ray.next(cx, cy);
        if ray.still() || self.blocking(cx, cy) || ray.spent(cx, cy) || !self.in_bounds(
            ahead.0,
            ahead.1,
        ) {
            seq![(cx, cy)]
        } else {
            seq![(cx, cy)] + self.sight_from(ray, ahead.0, ahead.1)
        }
    }

    /// The cells that `ray` passes through, in the order in which it enters
    /// them, the cell of its start first. Empty for a ray that has no
    /// direction, no length, or starts outside the grid.
    pub open spec fn sight(self, ray: Ray) -> Seq<(int, int)> {
        if ray.still() || ray.length <= 0 || !self.in_bounds(cell_index(ray.x), cell_index(ray.y)) {
            Seq::empty()
        } else {
            self.sight_from(ray, cell_index(ray.x), cell_index(ray.y))
        }
    }
}

/// Grid cells as pairs of whole numbers.
pub open spec fn cells_of(cells: Seq<(u16, u16)>) -> Seq<(int, int)> {
    cells.map_values(|c: (u16, u16)| (c.0 as int, c.1 as int))
}

impl TileMap {
    /// The cells that a ray from `origin` along `direction` passes through
    /// within `length` milli-units, in the order in which it enters them. The
    /// walk stops at the edge of the grid, and with the first blocking cell,
    /// which is still part of the result.
    pub fn find_tiles_for_ray(&self, direction: Direction, origin: Point, length: u32) -> (cells:
        Vec<(u16, u16)>)
        ensures
            cells_of(cells@) == self@.sight(Ray::from(origin, direction, length)),
    {
        let mut cells: Vec<(u16, u16)> = Vec::new();
        self.trace_ray(direction, origin, length, &mut cells);
        cells
    }

    /// As `find_tiles_for_ray`, into a buffer that the caller keeps: what the
    /// buffer held is dropped, its allocation is used again.
    pub fn trace_ray(
        &self,
        direction: Direction,
        origin: Point,
        length: u32,
        cells: &mut Vec<(u16, u16)>,
    )
        ensures
            cells_of(final(cells)@) == self@.sight(Ray::from(origin, direction, length)),
    {
        let ghost ray = Ray::from(origin, direction, length);
        let ghost grid = self@;
        cells.clear();
        assert(cells_of(cells@) =~= Seq::<(int, int)>::empty());
        let width: u16 = self.width();
        let height: u16 = self.height();
        if (direction.dx == 0 && direction.dy == 0) || length == 0 {
            return ;
        }
        let start_x: i32 = cell_of(origin.x);
        let start_y: i32 = cell_of(origin.y);
        if start_x < 0 || start_y < 0 || start_x >= width as i32 || start_y >= height as i32 {
            return ;
        }
        let mut cx: u16 = start_x as u16;
        let mut cy: u16 = start_y as u16;
        let adx: u64 = magnitude_of(direction.dx) as u64;
        let ady: u64 = magnitude_of(direction.dy) as u64;
        let mut gap_x: u64 = if direction.dx > 0 {
            ((start_x as i64 + 1) * (TILE_SIZE as i64) - origin.x as i64) as u64
        } else {
            (origin.x as i64 - (start_x as i64) * (TILE_SIZE as i64)) as u64
        };
        let mut gap_y: u64 = if direction.dy > 0 {
            ((start_y as i64 + 1) * (TILE_SIZE as i64) - origin.y as i64) as u64
        } else {
            (origin.y as i64 - (start_y as i64) * (TILE_SIZE as i64)) as u64
        };
        assert(adx * adx <= 0x8000_0000 * 0x8000_0000) by (nonlinear_arith)
            requires
                adx <= 0x8000_0000,
        ;
        assert(ady * ady <= 0x8000_0000 * 0x8000_0000) by (nonlinear_arith)
            requires
                ady <= 0x8000_0000,
        ;
        assert(length * length <= 0xffff_ffff * 0xffff_ffff) by (nonlinear_arith)
            requires
                length <= 0xffff_ffff,
        ;
        let adx2: u128 = (adx as u128) * (adx as u128);
        let ady2: u128 = (ady as u128) * (ady as u128);
        let norm2: u128 = adx2 + ady2;
        let length2: u128 = (length as u128) * (length as u128);
        assert(adx2 == ray.dx * ray.dx && ady2 == ray.dy * ray.dy) by (nonlinear_arith)
            requires
                adx == magnitude(ray.dx),
                ady == magnitude(ray.dy),
                adx2 == adx * adx,
                ady2 == ady * ady,
        ;
        loop
            invariant_except_break
                grid.sight(ray) == cells_of(cells@) + grid.sight_from(ray, cx as int, cy as int),
            invariant
                grid == self@,
                grid.well_formed(),
                width == grid.width,
                height == grid.height,
                ray == Ray::from(origin, direction, length),
                !ray.still(),
                grid.in_bounds(cx as int, cy as int),
                adx == magnitude(ray.dx),
                ady == magnitude(ray.dy),
                adx2 == ray.dx * ray.dx,
                ady2 == ray.dy * ray.dy,
                norm2 == adx2 + ady2,
                adx2 <= 0x8000_0000 * 0x8000_0000,
                ady2 <= 0x8000_0000 * 0x8000_0000,
                length2 == ray.length * ray.length,
                length2 <= 0xffff_ffff * 0xffff_ffff,
                gap_x == ray.gap_x(cx as int),
                gap_y == ray.gap_y(cy as int),
                gap_x <= 0x2000_0000,
                gap_y <= 0x2000_0000,
                ray.dx > 0 ==> cx >= start_x,
                ray.dx <= 0 ==> cx <= start_x,
                ray.dy > 0 ==> cy >= start_y,
                ray.dy <= 0 ==> cy <= start_y,
                start_x * TILE_SIZE <= origin.x < (start_x + 1) * TILE_SIZE,
                start_y * TILE_SIZE <= origin.y < (start_y + 1) * TILE_SIZE,
                0 <= start_x < width,
                0 <= start_y < height,
            ensures
                cells_of(cells@) == grid.sight(ray),
            decreases ray.room(grid.width, grid.height, cx as int, cy as int),
        {
            let ghost before = cells@;
            let ghost rest = grid.sight_from(ray, cx as int, cy as int);
            cells.push((cx, cy));
            assert(cells_of(cells@) =~= cells_of(before) + seq![(cx as int, cy as int)]);
            if self.blocks_at(cx, cy) {
                assert(rest =~= seq![(cx as int, cy as int)]);
                break ;
            }
            let sideways: bool = direction.dx != 0 && (direction.dy == 0 || {
                assert(gap_x * ady <= 0x2000_0000 * 0x8000_0000) by (nonlinear_arith)
                    requires
                        gap_x <= 0x2000_0000,
                        ady <= 0x8000_0000,
                ;
                assert(gap_y * adx <= 0x2000_0000 * 0x8000_0000) by (nonlinear_arith)
                    requires
                        gap_y <= 0x2000_0000,
                        adx <= 0x8000_0000,
                ;
                gap_x * ady < gap_y * adx
            });
            assert(sideways == ray.leaves_sideways(cx as int, cy as int));
            let gap: u64 = if sideways {
                gap_x
            } else {
                gap_y
            };
            let along2: u128 = if sideways {
                adx2
            } else {
                ady2
            };
            assert(gap * gap <= 0x2000_0000 * 0x2000_0000) by (nonlinear_arith)
                requires
                    gap <= 0x2000_0000,
            ;
            let gap2: u128 = (gap as u128) * (gap as u128);
            assert(gap2 * norm2 <= (0x2000_0000 * 0x2000_0000) * (2 * (0x8000_0000 * 0x8000_0000)))
                by (nonlinear_arith)
                requires
                    gap2 <= 0x2000_0000 * 0x2000_0000,
                    norm2 <= 2 * (0x8000_0000 * 0x8000_0000),
            ;
            assert(length2 * along2 <= (0xffff_ffff * 0xffff_ffff) * (0x8000_0000 * 0x8000_0000))
                by (nonlinear_arith)
                requires
                    length2 <= 0xffff_ffff * 0xffff_ffff,
                    along2 <= 0x8000_0000 * 0x8000_0000,
            ;
            let spent: bool = gap2 * norm2 >= length2 * along2;
            assert(spent == ray.spent(cx as int, cy as int)) by {
                let g = if ray.leaves_sideways(cx as int, cy as int) {
                    ray.gap_x(cx as int)
                } else {
                    ray.gap_y(cy as int)
                };
                assert(gap2 == g * g);
            }
            if spent {
                assert(rest =~= seq![(cx as int, cy as int)]);
                break ;
            }
            if sideways {
                if direction.dx > 0 {
                    if cx + 1 >= width {
                        assert(rest =~= seq![(cx as int, cy as int)]);
                        break ;
                    }
                    cx = cx + 1;
                } else {
                    if cx == 0 {
                        assert(rest =~= seq![(cx as int, cy as int)]);
                        break ;
                    }
                    cx = cx - 1;
                }
                gap_x = gap_x + TILE_SIZE as u64;
            } else {
                if direction.dy > 0 {
                    if cy + 1 >= height {
                        assert(rest =~= seq![(cx as int, cy as int)]);
                        break ;
                    }
                    cy = cy + 1;
                } else {
                    if cy == 0 {
                        assert(rest =~= seq![(cx as int, cy as int)]);
                        break ;
                    }
                    cy = cy - 1;
                }
                gap_y = gap_y + TILE_SIZE as u64;
            }
            assert(grid.sight(ray) =~= cells_of(cells@) + grid.sight_from(ray, cx as int, cy as int));
        }
    }
}

/// The cell with row-major index `i` in a grid of `width` columns.
pub open spec fn cell_numbered(width: int, i: int) -> (u16, u16) {
    ((i % width) as u16, (i / width) as u16)
}

impl Grid {
    /// Whether a ray from `origin` along one of `directions`, `length`
    /// milli-units long, passes through `cell`.
    pub open spec fn seen(
        self,
        origin: Point,
        directions: Seq<Direction>,
        length: u32,
        cell: (int, int),
    ) -> bool {
        exists|i: int|
            0 <= i < directions.len() && #[trigger] self.sight(
                Ray::from(origin, directions[i], length),
            ).contains(cell)
    }
}

/// One more direction adds the cells of its line of sight to what is seen,
/// and nothing else.
pub proof fn lemma_seen_with_one_more(
    grid: Grid,
    origin: Point,
    directions: Seq<Direction>,
    length: u32,
    count: int,
    cell: (int, int),
)
    requires
        0 <= count < directions.len(),
    ensures
        grid.seen(origin, directions.take(count + 1), length, cell) <==> grid.seen(
            origin,
            directions.take(count),
            length,
            cell,
        ) || grid.sight(Ray::from(origin, directions[count], length)).contains(cell),
{
    let fewer = directions.take(count);
    let more = directions.take(count + 1);
    if grid.seen(origin, more, length, cell) {
        let i = choose|i: int|
            0 <= i < more.len() && #[trigger] grid.sight(
                Ray::from(origin, more[i], length),
            ).contains(cell);
        if i < count {
            assert(fewer[i] == more[i]);
            assert(grid.sight(Ray::from(origin, fewer[i], length)).contains(cell));
        }
    }
    if grid.seen(origin, fewer, length, cell) {
        let i = choose|i: int|
            0 <= i < fewer.len() && #[trigger] grid.sight(
                Ray::from(origin, fewer[i], length),
            ).contains(cell);
        assert(fewer[i] == more[i]);
        assert(grid.sight(Ray::from(origin, more[i], length)).contains(cell));
    }
    if grid.sight(Ray::from(origin, directions[count], length)).contains(cell) {
        assert(more[count] == directions[count]);
        assert(grid.sight(Ray::from(origin, more[count], length)).contains(cell));
    }
}

/// A sequence with one more element holds what it held and that element.
proof fn lemma_push_holds<T>(s: Seq<T>, v: T, c: T)
    ensures
        s.push(v).contains(c) <==> s.contains(c) || c == v,
{
    if s.contains(c) {
        let at = choose|at: int| 0 <= at < s.len() && s[at] == c;
        assert(s.push(v)[at] == c);
    }
    if c == v {
        assert(s.push(v)[s.len() as int] == c);
    }
    if s.push(v).contains(c) {
        let at = choose|at: int| 0 <= at < s.push(v).len() && s.push(v)[at] == c;
        if at < s.len() {
            assert(s[at] == c);
        }
    }
}

/// The first `k + 1` elements hold what the first `k` hold and element `k`.
proof fn lemma_take_holds<T>(s: Seq<T>, k: int, c: T)
    requires
        0 <= k < s.len(),
    ensures
        s.take(k + 1).contains(c) <==> s.take(k).contains(c) || c == s[k],
{
    assert(s.take(k + 1) =~= s.take(k).push(s[k]));
    lemma_push_holds(s.take(k), s[k], c);
}

/// A cell is among grid cells exactly if its pair of whole numbers is among
/// theirs.
proof fn lemma_cells_of_holds(cells: Seq<(u16, u16)>, c: (u16, u16))
    ensures
        cells.contains(c) <==> cells_of(cells).contains((c.0 as int, c.1 as int)),
{
    let pair = (c.0 as int, c.1 as int);
    if cells.contains(c) {
        let at = choose|at: int| 0 <= at < cells.len() && cells[at] == c;
        assert(cells_of(cells)[at] == pair);
    }
    if cells_of(cells).contains(pair) {
        let at = choose|at: int| 0 <= at < cells_of(cells).len() && cells_of(cells)[at] == pair;
        assert(cells[at] == c);
    }
}

impl TileMap {
    /// The cells that the rays from `origin` along `directions` pass
    /// through, each ray `length` milli-units long: every cell that some ray
    /// sees, and each such cell once, in no order that a caller may count
    /// on.
    pub fn find_tiles(&self, directions: Vec<Direction>, length: u32, origin: Point) -> (tiles:
        Vec<(u16, u16)>)
        ensures
            tiles@.no_duplicates(),
            forall|c: (u16, u16)| #[trigger]
                tiles@.contains(c) <==> self@.seen(
                    origin,
                    directions@,
                    length,
                    (c.0 as int, c.1 as int),
                ),
    {
        let ghost grid = self@;
        let width: u16 = self.width();
        let height: u16 = self.height();
        let count: usize = self.cell_count();
        let mut marked: Vec<bool> = vec![false; count];
        let mut tiles: Vec<(u16, u16)> = Vec::new();
        let mut line: Vec<(u16, u16)> = Vec::new();
        let mut r: usize = 0;
        assert(directions@.take(0) =~= Seq::<Direction>::empty());
        while r < directions.len()
            invariant
                grid == self@,
                grid.well_formed(),
                width == grid.width,
                height == grid.height,
                r <= directions.len(),
                marked.len() == count,
                count == grid.width * grid.height,
                tiles@.no_duplicates(),
                forall|c: (u16, u16)| #[trigger]
                    tiles@.contains(c) <==> grid.seen(
                        origin,
                        directions@.take(r as int),
                        length,
                        (c.0 as int, c.1 as int),
                    ),
                forall|i: int|
                    0 <= i < count ==> (marked[i] <==> tiles@.contains(
                        #[trigger] cell_numbered(grid.width, i),
                    )),
            decreases directions.len() - r,
        {
            let ghost ray = Ray::from(origin, directions[r as int], length);
            let ghost held = tiles@;
            self.trace_ray(directions[r], origin, length, &mut line);
            proof {
                crate::sight_laws::lemma_sight_starts_at_origin(grid, ray);
            }
            let mut k: usize = 0;
            assert(line@.take(0) =~= Seq::<(u16, u16)>::empty());
            while k < line.len()
                invariant
                    grid == self@,
                    grid.well_formed(),
                    width == grid.width,
                    height == grid.height,
                    k <= line.len(),
                    marked.len() == count,
                    count == grid.width * grid.height,
                    cells_of(line@) == grid.sight(ray),
                    forall|i: int|
                        0 <= i < grid.sight(ray).len() ==> grid.in_bounds(
                            (#[trigger] grid.sight(ray)[i]).0,
                            grid.sight(ray)[i].1,
                        ),
                    tiles@.no_duplicates(),
                    forall|c: (u16, u16)| #[trigger]
                        tiles@.contains(c) <==> held.contains(c) || line@.take(k as int).contains(c),
                    forall|i: int|
                        0 <= i < count ==> (marked[i] <==> tiles@.contains(
                            #[trigger] cell_numbered(grid.width, i),
                        )),
                decreases line.len() - k,
            {
                let cell: (u16, u16) = line[k];
                proof {
                    assert(cells_of(line@)[k as int] == (cell.0 as int, cell.1 as int));
                    assert(grid.in_bounds(
                        grid.sight(ray)[k as int].0,
                        grid.sight(ray)[k as int].1,
                    ));
                    crate::tile_map::lemma_index_joins(
                        grid.width,
                        grid.height,
                        cell.0 as int,
                        cell.1 as int,
                    );
                    assert(cell.1 * width >= 0) by (nonlinear_arith)
                        requires
                            cell.1 >= 0,
                            width >= 0,
                    ;
                }
                let index: usize = (cell.1 as usize) * (width as usize) + (cell.0 as usize);
                assert(cell_numbered(grid.width, index as int) == cell);
                let ghost before = tiles@;
                assert(marked[index as int] <==> before.contains(cell));
                if !marked[index] {
                    marked.set(index, true);
                    tiles.push(cell);
                    assert forall|i: int| 0 <= i < count implies (marked[i] <==> tiles@.contains(
                        #[trigger] cell_numbered(grid.width, i),
                    )) by {
                        let other = cell_numbered(grid.width, i);
                        lemma_push_holds(before, cell, other);
                        if i != index {
                            crate::tile_map::lemma_index_splits(grid.width, grid.height, i);
                            assert(other != cell);
                        }
                    }
                }
                assert forall|c: (u16, u16)| #[trigger]
                    tiles@.contains(c) <==> held.contains(c) || line@.take(k + 1).contains(c) by {
                    lemma_take_holds(line@, k as int, c);
                    lemma_push_holds(before, cell, c);
                    assert(before.contains(c) <==> held.contains(c) || line@.take(k as int).contains(
                        c,
                    ));
                }
                k += 1;
            }
            assert(line@.take(line.len() as int) =~= line@);
            assert forall|c: (u16, u16)| #[trigger]
                tiles@.contains(c) <==> grid.seen(
                    origin,
                    directions@.take(r + 1),
                    length,
                    (c.0 as int, c.1 as int),
                ) by {
                lemma_seen_with_one_more(
                    grid,
                    origin,
                    directions@,
                    length,
                    r as int,
                    (c.0 as int, c.1 as int),
                );
                lemma_cells_of_holds(line@, c);
                assert(held.contains(c) <==> grid.seen(
                    origin,
                    directions@.take(r as int),
                    length,
                    (c.0 as int, c.1 as int),
                ));
            }
            r += 1;
        }
        assert(directions@.take(directions.len() as int) =~= directions@);
        tiles
    }
}

} // verus!
