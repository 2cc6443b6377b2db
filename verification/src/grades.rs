//! Graded visibility: a cell that is seen over the narrow field straight
//! ahead is seen directly; one that is seen only over the wider field around
//! it, peripherally. The better grade always wins.

use vstd::prelude::*;
use crate::geometry::Point;
use crate::sight::Direction;
use crate::tile_map::Grid;
use crate::tile_map::TileMap;

verus! {

/// How well a cell is seen.
#[derive(Clone, Copy, Debug, PartialEq, Eq, Structural)]
pub enum Visibility {
    /// Seen over the narrow field.
    Direct,
    /// Seen over the wide field only.
    Peripheral,
    /// Not seen at all.
    NotVisible,
}

/// Two fans of rays from one place: a narrow one for what is seen directly
/// and a wide one for what is seen peripherally, each with the length of its
/// rays in milli-units.
pub struct Gaze {
    pub origin: Point,
    pub direct: Seq<Direction>,
    pub direct_length: u32,
    pub peripheral: Seq<Direction>,
    pub peripheral_length: u32,
}

impl Grid {
    /// How well `cell` is seen: directly where a ray of the narrow fan
    /// passes through it, whatever the wide fan does; else peripherally
    /// where a ray of the wide fan does; else not at all.
    pub open spec fn grade(self, gaze: Gaze, cell: (int, int)) -> Visibility {
        if self.seen(gaze.origin, gaze.direct, gaze.direct_length, cell) {
            Visibility::Direct
        } else if self.seen(gaze.origin, gaze.peripheral, gaze.peripheral_length, cell) {
            Visibility::Peripheral
        } else {
            Visibility::NotVisible
        }
    }
}

/// What is seen directly is never graded lower, whatever the wide fan is.
pub proof fn lemma_direct_is_never_downgraded(
    grid: Grid,
    gaze: Gaze,
    peripheral: Seq<Direction>,
    peripheral_length: u32,
    cell: (int, int),
)
    requires
        grid.grade(gaze, cell) == Visibility::Direct,
    ensures
        grid.grade((Gaze { peripheral, peripheral_length, ..gaze }), cell) == Visibility::Direct,
{
}

/// A cell has a grade better than none exactly if a ray of one of the two
/// fans passes through it.
pub proof fn lemma_graded_is_seen(grid: Grid, gaze: Gaze, cell: (int, int))
    ensures
        grid.grade(gaze, cell) != Visibility::NotVisible <==> grid.seen(
            gaze.origin,
            gaze.direct,
            gaze.direct_length,
            cell,
        ) || grid.seen(gaze.origin, gaze.peripheral, gaze.peripheral_length, cell),
{
}

/// Whether `cell` has an entry in `tiles`.
pub open spec fn listed(tiles: Seq<((u16, u16), Visibility)>, cell: (u16, u16)) -> bool {
    exists|k: int| 0 <= k < tiles.len() && (#[trigger] tiles[k]).0 == cell
}

/// The grade of `cell` where `direct` holds the cells that are seen
/// directly and `peripheral` those that are seen peripherally.
pub open spec fn graded(
    direct: Seq<(u16, u16)>,
    peripheral: Seq<(u16, u16)>,
    cell: (u16, u16),
) -> Visibility {
    if direct.contains(cell) {
        Visibility::Direct
    } else if peripheral.contains(cell) {
        Visibility::Peripheral
    } else {
        Visibility::NotVisible
    }
}

/// Whether `cell` is among `cells`.
fn holds(cells: &Vec<(u16, u16)>, cell: (u16, u16)) -> (found: bool)
    ensures
        found == cells@.contains(cell),
{
    let mut i: usize = 0;
    while i < cells.len()
        invariant
            i <= cells.len(),
            forall|j: int| 0 <= j < i ==> cells@[j] != cell,
        decreases cells.len() - i,
    {
        let held: (u16, u16) = cells[i];
        if held.0 == cell.0 && held.1 == cell.1 {
            return true;
        }
        i += 1;
    }
    false
}

/// The grade of `cell` where `direct` holds the cells that are seen
/// directly and `peripheral` those that are seen peripherally.
pub fn grade_tile(direct: &Vec<(u16, u16)>, peripheral: &Vec<(u16, u16)>, cell: (u16, u16)) -> (grade:
    Visibility)
    ensures
        grade == graded(direct@, peripheral@, cell),
{
    if holds(direct, cell) {
        Visibility::Direct
    } else if holds(peripheral, cell) {
        Visibility::Peripheral
    } else {
        Visibility::NotVisible
    }
}

impl TileMap {
    /// The cells that are seen from `origin` over two fans of rays, each
    /// with its grade: every cell that a ray of either fan passes through,
    /// once, and no other. A cell that a ray of the narrow fan `direct`
    /// passes through is seen directly, whatever the wide fan `peripheral`
    /// does.
    pub fn find_graded_tiles(
        &self,
        direct: Vec<Direction>,
        direct_length: u32,
        peripheral: Vec<Direction>,
        peripheral_length: u32,
        origin: Point,
    ) -> (tiles: Vec<((u16, u16), Visibility)>)
        ensures
            forall|i: int, j: int|
                0 <= i < j < tiles@.len() ==> (#[trigger] tiles@[i]).0 != (#[trigger] tiles@[j]).0,
            forall|k: int|
                0 <= k < tiles@.len() ==> (#[trigger] tiles@[k]).1 == self@.grade(
                    (Gaze {
                        origin,
                        direct: direct@,
                        direct_length,
                        peripheral: peripheral@,
                        peripheral_length,
                    }),
                    (tiles@[k].0.0 as int, tiles@[k].0.1 as int),
                ),
            forall|c: (u16, u16)| #[trigger]
                listed(tiles@, c) <==> self@.grade(
                    (Gaze {
                        origin,
                        direct: direct@,
                        direct_length,
                        peripheral: peripheral@,
                        peripheral_length,
                    }),
                    (c.0 as int, c.1 as int),
                ) != Visibility::NotVisible,
    {
        let ghost gaze = Gaze {
            origin,
            direct: direct@,
            direct_length,
            peripheral: peripheral@,
            peripheral_length,
        };
        let ghost grid = self@;
        let near: Vec<(u16, u16)> = self.find_tiles(direct, direct_length, origin);
        let wide: Vec<(u16, u16)> = self.find_tiles(peripheral, peripheral_length, origin);
        let mut tiles: Vec<((u16, u16), Visibility)> = Vec::new();
        let mut i: usize = 0;
        while i < near.len()
            invariant
                i <= near.len(),
                near@.no_duplicates(),
                tiles@.len() == i,
                forall|k: int|
                    0 <= k < i ==> #[trigger] tiles@[k] == (near@[k], Visibility::Direct),
            decreases near.len() - i,
        {
            tiles.push((near[i], Visibility::Direct));
            i += 1;
        }
        let ghost first = tiles@;
        assert forall|c: (u16, u16)| #[trigger] listed(first, c) <==> near@.contains(c) by {
            if listed(first, c) {
                let k = choose|k: int| 0 <= k < first.len() && (#[trigger] first[k]).0 == c;
                assert(near@[k] == c);
            }
            if near@.contains(c) {
                let k = choose|k: int| 0 <= k < near@.len() && near@[k] == c;
                assert(first[k].0 == c);
            }
        }
        let mut j: usize = 0;
        assert(wide@.take(0) =~= Seq::<(u16, u16)>::empty());
        while j < wide.len()
            invariant
                j <= wide.len(),
                wide@.no_duplicates(),
                forall|a: int, b: int|
                    0 <= a < b < tiles@.len() ==> (#[trigger] tiles@[a]).0 != (
                    #[trigger] tiles@[b]).0,
                forall|k: int|
                    0 <= k < tiles@.len() ==> (#[trigger] tiles@[k]).1 == graded(
                        near@,
                        wide@,
                        tiles@[k].0,
                    ),
                forall|k: int|
                    0 <= k < tiles@.len() ==> near@.contains((#[trigger] tiles@[k]).0)
                        || wide@.take(j as int).contains(tiles@[k].0),
                forall|c: (u16, u16)|
                    near@.contains(c) || wide@.take(j as int).contains(c) ==> #[trigger] listed(
                        tiles@,
                        c,
                    ),
            decreases wide.len() - j,
        {
            let cell: (u16, u16) = wide[j];
            let ghost before = tiles@;
            let ghost fewer = wide@.take(j as int);
            let ghost more = wide@.take(j + 1);
            assert(more =~= fewer.push(cell));
            assert(more.contains(cell)) by {
                assert(more[j as int] == cell);
            }
            assert(wide@.contains(cell));
            if !holds(&near, cell) {
                tiles.push((cell, Visibility::Peripheral));
                assert forall|a: int, b: int| 0 <= a < b < tiles@.len() implies (
                #[trigger] tiles@[a]).0 != (#[trigger] tiles@[b]).0 by {
                    if b == before.len() {
                        assert(tiles@[a] == before[a]);
                        if fewer.contains(before[a].0) {
                            let at = choose|at: int|
                                0 <= at < fewer.len() && fewer[at]
                                    == before[a].0;
                            assert(wide@[at] == before[a].0);
                        }
                    } else {
                        assert(tiles@[a] == before[a] && tiles@[b] == before[b]);
                    }
                }
            }
            assert forall|k: int| 0 <= k < tiles@.len() implies near@.contains(
                (#[trigger] tiles@[k]).0,
            ) || more.contains(tiles@[k].0) by {
                if k < before.len() {
                    assert(tiles@[k] == before[k]);
                    if fewer.contains(before[k].0) {
                        let at = choose|at: int|
                            0 <= at < fewer.len() && fewer[at]
                                == before[k].0;
                        assert(more[at] == before[k].0);
                    }
                }
            }
            assert forall|c: (u16, u16)|
                near@.contains(c) || more.contains(c) implies #[trigger] listed(
                tiles@,
                c,
            ) by {
                if near@.contains(c) || fewer.contains(c) {
                    assert(listed(before, c));
                    let k = choose|k: int| 0 <= k < before.len() && (#[trigger] before[k]).0 == c;
                    assert(tiles@[k].0 == c);
                } else {
                    let at = choose|at: int|
                        0 <= at < more.len() && more[at] == c;
                    if at < j {
                        assert(fewer[at] == c);
                    }
                    assert(c == cell);
                    assert(tiles@[before.len() as int].0 == c);
                }
            }
            j += 1;
        }
        assert(wide@.take(wide@.len() as int) =~= wide@);
        assert forall|k: int| 0 <= k < tiles@.len() implies (#[trigger] tiles@[k]).1 == grid.grade(
            gaze,
            (tiles@[k].0.0 as int, tiles@[k].0.1 as int),
        ) by {
            let c = tiles@[k].0;
            assert(near@.contains(c) <==> grid.seen(
                origin,
                gaze.direct,
                direct_length,
                (c.0 as int, c.1 as int),
            ));
            assert(wide@.contains(c) <==> grid.seen(
                origin,
                gaze.peripheral,
                peripheral_length,
                (c.0 as int, c.1 as int),
            ));
        }
        assert forall|c: (u16, u16)| #[trigger]
            listed(tiles@, c) <==> grid.grade(gaze, (c.0 as int, c.1 as int))
                != Visibility::NotVisible by {
            assert(near@.contains(c) <==> grid.seen(
                origin,
                gaze.direct,
                direct_length,
                (c.0 as int, c.1 as int),
            ));
            assert(wide@.contains(c) <==> grid.seen(
                origin,
                gaze.peripheral,
                peripheral_length,
                (c.0 as int, c.1 as int),
            ));
            if listed(tiles@, c) {
                let k = choose|k: int| 0 <= k < tiles@.len() && (#[trigger] tiles@[k]).0 == c;
                assert(near@.contains(c) || wide@.contains(c));
            }
        }
        tiles
    }
}

} // verus!
