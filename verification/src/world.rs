//! The world of one game: its grid and what moves in it, the cells that a
//! view of the world shows, and the record of frame rates.

use vstd::prelude::*;
use std::collections::VecDeque;
use crate::entities::burning;
use crate::entities::flying;
use crate::entities::Bullet;
use crate::entities::EntityManager;
use crate::entities::Grenade;
use crate::geometry::Point;
use crate::player::Player;
use crate::tile_map::lemma_index_joins;
use crate::tile_map::TileMap;

verus! {

/// The frame rates that a record holds.
pub const FPS_RECORD_LEN: usize = 100;

/// The grid and what moves in it.
pub struct World {
    pub tile_map: TileMap,
    pub entities: EntityManager,
}

/// The frame rates of the last frames, oldest first, and the highest that
/// was ever seen.
pub struct FpsBarGraph {
    pub fps_record: VecDeque<i32>,
    pub highest_fps: i32,
}

/// The column or row in which a view of the world ends: the world unit of
/// the coordinate, kept inside `0 ..= 65535`, and the cell of eight world
/// units that holds it.
pub open spec fn view_cell(v: int) -> int {
    if v < 0 {
        0
    } else if v / 1000 > 65535 {
        8191
    } else {
        (v / 1000) / 8
    }
}

/// `v`, or `limit` where `v` lies beyond it.
pub open spec fn at_most(v: int, limit: int) -> int {
    if v > limit {
        limit
    } else {
        v
    }
}

/// The column or row in which a view of the world ends.
pub fn view_cell_of(v: i32) -> (cell: u16)
    ensures
        cell == view_cell(v as int),
        cell <= 8191,
{
    if v < 0 {
        0
    } else if v / 1000 > 65535 {
        8191
    } else {
        ((v / 1000) / 8) as u16
    }
}

impl World {
    /// A world on `tile_map` with nobody and nothing in it.
    pub fn new(tile_map: TileMap) -> (world: World)
        ensures
            world.tile_map@ == tile_map@,
            world.entities.other_players@.len() == 0,
            world.entities.other_player_index == 0,
            world.entities.bullets@.len() == 0,
            world.entities.grenades@.len() == 0,
    {
        World { tile_map, entities: EntityManager::new() }
    }

    /// One frame of the world: the shooting of the frame, with the bullets
    /// of `volley` fired in it, and then the other players turn to their
    /// `bearings`. `frame` is the length of the frame in thousandths of a
    /// sixtieth of a second, `elapsed` in milliseconds.
    pub fn update(&mut self, volley: Vec<Bullet>, bearings: &Vec<i32>, frame: u32, elapsed: u32)
        ensures
            final(self).tile_map@ == old(self).tile_map@,
            final(self).entities.bullets@ == (old(self).entities.bullets@.filter(
                |b: Bullet| flying(b),
            ) + volley@).map_values(
                |b: Bullet|
                    b.flown(frame).settled(old(self).tile_map@, old(self).entities.other_players@),
            ),
            final(self).entities.grenades@ == old(self).entities.grenades@.map_values(
                |g: Grenade| g.ticked(elapsed),
            ).filter(|g: Grenade| burning(g)),
            final(self).entities.other_player_index == old(self).entities.other_player_index,
            final(self).entities.other_players@.len() == old(self).entities.other_players@.len(),
            forall|i: int|
                0 <= i < old(self).entities.other_players@.len()
                    ==> #[trigger] final(self).entities.other_players@[i] == (match old(
                    self,
                ).entities.other_players@[i] {
                    Some(player) => if i < bearings@.len() {
                        Some(Player { angle: bearings@[i], ..player })
                    } else {
                        Some(player)
                    },
                    None => None,
                }),
    {
        self.entities.handle_shooting(&self.tile_map, volley, frame, elapsed);
        self.entities.update(bearings);
    }
}

impl TileMap {
    /// The cells of the grid that a view of the world from `top_left` to
    /// `bottom_right` shows, row by row: the columns from the one that
    /// holds `top_left.x` to the one that holds `bottom_right.x`, the rows
    /// likewise, as far as the grid has them.
    pub fn tiles_in_view(&self, top_left: Point, bottom_right: Point) -> (tiles: Vec<(u16, u16)>)
        ensures
            ({
                let first_x = at_most(view_cell(top_left.x as int), self@.width);
                let first_y = at_most(view_cell(top_left.y as int), self@.height);
                let end_x = at_most(view_cell(bottom_right.x as int) + 1, self@.width);
                let end_y = at_most(view_cell(bottom_right.y as int) + 1, self@.height);
                let columns = if end_x > first_x {
                    end_x - first_x
                } else {
                    0
                };
                let rows = if end_y > first_y {
                    end_y - first_y
                } else {
                    0
                };
                &&& tiles@.len() == columns * rows
                &&& forall|k: int|
                    0 <= k < tiles@.len() ==> #[trigger] tiles@[k] == (
                        (first_x + k % columns) as u16,
                        (first_y + k / columns) as u16,
                    )
            }),
    {
        let width: u16 = self.width();
        let height: u16 = self.height();
        let left: u16 = view_cell_of(top_left.x);
        let top: u16 = view_cell_of(top_left.y);
        let right: u16 = view_cell_of(bottom_right.x) + 1;
        let bottom: u16 = view_cell_of(bottom_right.y) + 1;
        let first_x: u16 = if left > width {
            width
        } else {
            left
        };
        let first_y: u16 = if top > height {
            height
        } else {
            top
        };
        let end_x: u16 = if right > width {
            width
        } else {
            right
        };
        let end_y: u16 = if bottom > height {
            height
        } else {
            bottom
        };
        let mut tiles: Vec<(u16, u16)> = Vec::new();
        if end_x <= first_x || end_y <= first_y {
            assert((end_x - first_x) * 0 == 0);
            assert(0 * (end_y - first_y) == 0);
            return tiles;
        }
        let ghost columns = (end_x - first_x) as int;
        let ghost rows = (end_y - first_y) as int;
        let mut y: u16 = first_y;
        assert(0 * columns == 0);
        while y < end_y
            invariant
                first_y <= y <= end_y,
                first_x < end_x,
                columns == end_x - first_x,
                rows == end_y - first_y,
                tiles@.len() == (y - first_y) * columns,
                forall|k: int|
                    0 <= k < tiles@.len() ==> #[trigger] tiles@[k] == (
                        (first_x + k % columns) as u16,
                        (first_y + k / columns) as u16,
                    ),
            decreases end_y - y,
        {
            let mut x: u16 = first_x;
            while x < end_x
                invariant
                    first_y <= y < end_y,
                    first_x <= x <= end_x,
                    columns == end_x - first_x,
                    rows == end_y - first_y,
                    tiles@.len() == (y - first_y) * columns + (x - first_x),
                    forall|k: int|
                        0 <= k < tiles@.len() ==> #[trigger] tiles@[k] == (
                            (first_x + k % columns) as u16,
                            (first_y + k / columns) as u16,
                        ),
                decreases end_x - x,
            {
                proof {
                    lemma_index_joins(columns, rows, (x - first_x) as int, (y - first_y) as int);
                }
                tiles.push((x, y));
                x += 1;
            }
            assert((y + 1 - first_y) * columns == (y - first_y) * columns + columns)
                by (nonlinear_arith);
            y += 1;
        }
        assert(rows * columns == columns * rows) by (nonlinear_arith);
        tiles
    }
}

impl FpsBarGraph {
    /// A record of a hundred frames without a rate.
    pub fn new() -> (graph: FpsBarGraph)
        ensures
            graph.fps_record@ == Seq::new(FPS_RECORD_LEN as nat, |i: int| 0i32),
            graph.highest_fps == 0,
    {
        let mut fps_record: VecDeque<i32> = VecDeque::new();
        let mut i: usize = 0;
        while i < FPS_RECORD_LEN
            invariant
                i <= FPS_RECORD_LEN,
                fps_record@ == Seq::new(i as nat, |k: int| 0i32),
            decreases FPS_RECORD_LEN - i,
        {
            fps_record.push_front(0);
            assert(fps_record@ =~= Seq::new((i + 1) as nat, |k: int| 0i32));
            i += 1;
        }
        FpsBarGraph { fps_record, highest_fps: 0 }
    }

    /// Takes the rate of one more frame into the record: it joins at the
    /// end, the oldest leaves, and the highest rate is kept.
    pub fn update(&mut self, fps: i32)
        ensures
            final(self).fps_record@ == old(self).fps_record@.push(fps).drop_first(),
            final(self).highest_fps == if fps > old(self).highest_fps {
                fps
            } else {
                old(self).highest_fps
            },
    {
        self.fps_record.push_back(fps);
        let _ = self.fps_record.pop_front();
        if fps > self.highest_fps {
            self.highest_fps = fps;
        }
        assert(self.fps_record@ =~= old(self).fps_record@.push(fps).drop_first());
    }
}

} // verus!
