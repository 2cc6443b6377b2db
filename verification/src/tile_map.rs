//! The tile grid: packed cells, the collider table, and the collision
//! queries against blocking cells.

use vstd::prelude::*;
use crate::fixed::cell_index;
use crate::fixed::cell_of;
use crate::fixed::TILE_SIZE;
use crate::geometry::LineSegment;
use crate::geometry::Point;
use crate::geometry::Rect;

verus! {

/// The bits of a packed cell that hold the tile identifier.
pub const TILE_ID_MASK: u32 = 0x1FFF_FFFF;

/// The bit of a packed cell that asks for a quarter turn.
pub const ROTATE_BIT: u32 = 0x2000_0000;

/// The bit of a packed cell that asks for a vertical flip.
pub const FLIP_V_BIT: u32 = 0x4000_0000;

/// The bit of a packed cell that asks for a horizontal flip.
pub const FLIP_H_BIT: u32 = 0x8000_0000;

/// The tile identifier of a packed cell: its low 29 bits. Identifier 0 marks
/// an empty cell; identifier `n >= 1` is entry `n - 1` of the collider table.
pub open spec fn tile_id(cell: u32) -> u32 {
    cell & 0x1FFF_FFFF
}

/// What a packed cell holds: identifier, horizontal flip, vertical flip,
/// quarter turn.
pub open spec fn unpacked(cell: u32) -> (u32, bool, bool, bool) {
    (
        cell & 0x1FFF_FFFF,
        cell & 0x8000_0000 != 0,
        cell & 0x4000_0000 != 0,
        cell & 0x2000_0000 != 0,
    )
}

/// The packed cell for an identifier and three flags. Bits of `id` above the
/// low 29 are dropped.
pub open spec fn packed(id: u32, flip_h: bool, flip_v: bool, rotate: bool) -> u32 {
    (id & 0x1FFF_FFFF) | (if flip_h {
        0x8000_0000u32
    } else {
        0u32
    }) | (if flip_v {
        0x4000_0000u32
    } else {
        0u32
    }) | (if rotate {
        0x2000_0000u32
    } else {
        0u32
    })
}

/// The tiles in one row of the picture that holds all tiles.
pub const ATLAS_COLUMNS: u32 = 8;

/// Where the tile with identifier `id` lies in the picture of all tiles:
/// column and row, the tiles counted row by row from identifier 1.
pub open spec fn atlas_place(id: u32) -> (u32, u32) {
    (((id - 1) % 8) as u32, ((id - 1) / 8) as u32)
}

/// How a tile is mirrored when it is drawn, along x and along y. A tile
/// that is turned by a quarter is drawn mirrored along y the other way
/// round, and never along x.
pub open spec fn drawn_mirrored(flip_x: bool, flip_y: bool, rotate: bool) -> (bool, bool) {
    if rotate {
        (false, !flip_y)
    } else {
        (flip_x, flip_y)
    }
}

/// Where the tile with identifier `id` lies in the picture of all tiles, or
/// `None` for the empty tile, which has no picture.
pub fn atlas_slot(id: u32) -> (slot: Option<(u32, u32)>)
    ensures
        id == 0 ==> slot.is_none(),
        id > 0 ==> slot == Some(atlas_place(id)),
{
    if id == 0 {
        None
    } else {
        Some(((id - 1) % ATLAS_COLUMNS, (id - 1) / ATLAS_COLUMNS))
    }
}

/// How a tile is mirrored when it is drawn, along x and along y.
pub fn drawn_flips(flip_x: bool, flip_y: bool, rotate: bool) -> (flips: (bool, bool))
    ensures
        flips == drawn_mirrored(flip_x, flip_y, rotate),
{
    let mut x: bool = flip_x;
    let mut y: bool = flip_y;
    if rotate {
        y = !y;
        if x {
            x = !x;
        }
    }
    (x, y)
}

/// Unpacks a cell into identifier, horizontal flip, vertical flip and
/// quarter turn.
pub fn decode_tile(cell: u32) -> (parts: (u32, bool, bool, bool))
    ensures
        parts == unpacked(cell),
        parts.0 == tile_id(cell),
        parts.0 < 0x2000_0000,
{
    assert(cell & 0x1FFF_FFFF < 0x2000_0000) by (bit_vector);
    (
        cell & TILE_ID_MASK,
        (cell & FLIP_H_BIT) != 0,
        (cell & FLIP_V_BIT) != 0,
        (cell & ROTATE_BIT) != 0,
    )
}

/// Packs an identifier and three flags into a cell.
pub fn encode_tile(id: u32, flip_h: bool, flip_v: bool, rotate: bool) -> (cell: u32)
    ensures
        cell == packed(id, flip_h, flip_v, rotate),
{
    let h: u32 = if flip_h {
        FLIP_H_BIT
    } else {
        0
    };
    let v: u32 = if flip_v {
        FLIP_V_BIT
    } else {
        0
    };
    let r: u32 = if rotate {
        ROTATE_BIT
    } else {
        0
    };
    (id & TILE_ID_MASK) | h | v | r
}

/// Packing an identifier below 2^29 with any flags and unpacking the cell
/// gives the identifier and the flags back.
pub proof fn lemma_unpack_packed(id: u32, flip_h: bool, flip_v: bool, rotate: bool)
    requires
        id < 0x2000_0000,
    ensures
        unpacked(packed(id, flip_h, flip_v, rotate)) == (id, flip_h, flip_v, rotate),
{
    let h: u32 = if flip_h {
        0x8000_0000u32
    } else {
        0u32
    };
    let v: u32 = if flip_v {
        0x4000_0000u32
    } else {
        0u32
    };
    let r: u32 = if rotate {
        0x2000_0000u32
    } else {
        0u32
    };
    let cell = (id & 0x1FFF_FFFF) | h | v | r;
    assert(cell & 0x1FFF_FFFF == id) by (bit_vector)
        requires
            id < 0x2000_0000,
            h == 0x8000_0000u32 || h == 0u32,
            v == 0x4000_0000u32 || v == 0u32,
            r == 0x2000_0000u32 || r == 0u32,
            cell == (id & 0x1FFF_FFFF) | h | v | r,
    ;
    assert((cell & 0x8000_0000 != 0) == (h != 0)) by (bit_vector)
        requires
            h == 0x8000_0000u32 || h == 0u32,
            v == 0x4000_0000u32 || v == 0u32,
            r == 0x2000_0000u32 || r == 0u32,
            cell == (id & 0x1FFF_FFFF) | h | v | r,
    ;
    assert((cell & 0x4000_0000 != 0) == (v != 0)) by (bit_vector)
        requires
            h == 0x8000_0000u32 || h == 0u32,
            v == 0x4000_0000u32 || v == 0u32,
            r == 0x2000_0000u32 || r == 0u32,
            cell == (id & 0x1FFF_FFFF) | h | v | r,
    ;
    assert((cell & 0x2000_0000 != 0) == (r != 0)) by (bit_vector)
        requires
            h == 0x8000_0000u32 || h == 0u32,
            v == 0x4000_0000u32 || v == 0u32,
            r == 0x2000_0000u32 || r == 0u32,
            cell == (id & 0x1FFF_FFFF) | h | v | r,
    ;
}

/// Unpacking any cell and packing the parts gives the cell back.
pub proof fn lemma_pack_unpacked(cell: u32)
    ensures
        packed(unpacked(cell).0, unpacked(cell).1, unpacked(cell).2, unpacked(cell).3) == cell,
{
    let id = cell & 0x1FFF_FFFF;
    let h: u32 = if cell & 0x8000_0000 != 0 {
        0x8000_0000u32
    } else {
        0u32
    };
    let v: u32 = if cell & 0x4000_0000 != 0 {
        0x4000_0000u32
    } else {
        0u32
    };
    let r: u32 = if cell & 0x2000_0000 != 0 {
        0x2000_0000u32
    } else {
        0u32
    };
    assert(h == cell & 0x8000_0000) by (bit_vector)
        requires
            h == if cell & 0x8000_0000 != 0 {
                0x8000_0000u32
            } else {
                0u32
            },
    ;
    assert(v == cell & 0x4000_0000) by (bit_vector)
        requires
            v == if cell & 0x4000_0000 != 0 {
                0x4000_0000u32
            } else {
                0u32
            },
    ;
    assert(r == cell & 0x2000_0000) by (bit_vector)
        requires
            r == if cell & 0x2000_0000 != 0 {
                0x2000_0000u32
            } else {
                0u32
            },
    ;
    assert(((cell & 0x1FFF_FFFF) & 0x1FFF_FFFF) | (cell & 0x8000_0000) | (cell & 0x4000_0000) | (
    cell & 0x2000_0000) == cell) by (bit_vector);
}

/// The grid as a mathematical value: its size, its packed cells row by row,
/// and the collider table.
pub struct Grid {
    pub width: int,
    pub height: int,
    pub cells: Seq<u32>,
    pub colliders: Seq<bool>,
}

impl Grid {
    /// Whether the collider table has an entry for the tile of a packed cell.
    /// The empty tile needs none.
    pub open spec fn knows(self, cell: u32) -> bool {
        tile_id(cell) == 0 || tile_id(cell) - 1 < self.colliders.len()
    }

    /// The size matches the cells, and every tile has its collider entry.
    pub open spec fn well_formed(self) -> bool {
        &&& 0 <= self.width <= u16::MAX
        &&& 0 <= self.height <= u16::MAX
        &&& self.cells.len() == self.width * self.height
        &&& forall|i: int| 0 <= i < self.cells.len() ==> self.knows(#[trigger] self.cells[i])
    }

    /// Whether `(x, y)` names a cell of the grid.
    pub open spec fn in_bounds(self, x: int, y: int) -> bool {
        0 <= x < self.width && 0 <= y < self.height
    }

    /// The packed cell at `(x, y)`.
    pub open spec fn cell(self, x: int, y: int) -> u32 {
        self.cells[y * self.width + x]
    }

    /// Whether tiles with this identifier block movement and sight. The empty
    /// tile and identifiers beyond the table do not.
    pub open spec fn blocks(self, id: u32) -> bool {
        1 <= id && id - 1 < self.colliders.len() && self.colliders[id - 1]
    }

    /// Whether `(x, y)` is a cell of the grid that blocks.
    pub open spec fn blocking(self, x: int, y: int) -> bool {
        self.in_bounds(x, y) && self.blocks(tile_id(self.cell(x, y)))
    }

    /// Whether `rect` shares a point with a blocking cell.
    pub open spec fn rect_hits(self, rect: Rect) -> bool {
        exists|x: int, y: int| #[trigger] self.blocking(x, y) && rect.overlaps(tile_rect(x, y))
    }
}

/// The square that cell `(x, y)` covers, border included.
pub open spec fn tile_rect(x: int, y: int) -> Rect {
    Rect {
        left: (x * TILE_SIZE) as i32,
        top: (y * TILE_SIZE) as i32,
        right: (x * TILE_SIZE + TILE_SIZE) as i32,
        bottom: (y * TILE_SIZE + TILE_SIZE) as i32,
    }
}

/// Why a grid could not be built.
#[derive(Clone, Copy, Debug, PartialEq, Eq, Structural)]
pub enum MapError {
    /// The number of cells is not width times height.
    SizeMismatch,
    /// The cell at this row-major index names a tile that the collider table
    /// has no entry for.
    UnknownTile { index: usize },
}

impl MapError {
    /// A sentence for the person who made the map.
    pub fn message(&self) -> (text: &'static str)
        ensures
            *self is SizeMismatch ==> text@ == "the number of cells is not width times height"@,
            *self is UnknownTile ==> text@ == "a cell names a tile without a collider entry"@,
    {
        match self {
            MapError::SizeMismatch => "the number of cells is not width times height",
            MapError::UnknownTile { .. } => "a cell names a tile without a collider entry",
        }
    }
}

/// A rectangular grid of packed cells with its collider table. It cannot be
/// changed once built, and every grid that exists is well formed.
pub struct TileMap {
    data: Vec<u32>,
    colliders: Vec<bool>,
    width: u16,
    height: u16,
}

impl View for TileMap {
    type V = Grid;

    closed spec fn view(&self) -> Grid {
        Grid {
            width: self.width as int,
            height: self.height as int,
            cells: self.data@,
            colliders: self.colliders@,
        }
    }
}

/// A row-major index below `width * height` splits into a column and a row
/// of the grid.
pub proof fn lemma_index_splits(width: int, height: int, i: int)
    requires
        0 < width,
        0 <= i < width * height,
    ensures
        0 <= i % width < width,
        0 <= i / width < height,
        (i / width) * width + i % width == i,
{
    vstd::arithmetic::div_mod::lemma_fundamental_div_mod(i, width);
    assert(0 <= i % width < width) by (nonlinear_arith)
        requires
            0 < width,
    ;
    let q = i / width;
    let r = i % width;
    assert(i == width * q + r);
    assert(0 <= q < height) by (nonlinear_arith)
        requires
            0 < width,
            0 <= r < width,
            i == width * q + r,
            0 <= i < width * height,
    ;
    assert(q * width == width * q) by (nonlinear_arith);
}

/// A column and a row of the grid join into a row-major index below
/// `width * height`, which splits back into them.
pub proof fn lemma_index_joins(width: int, height: int, x: int, y: int)
    requires
        0 <= x < width,
        0 <= y < height,
    ensures
        0 <= y * width + x < width * height,
        (y * width + x) % width == x,
        (y * width + x) / width == y,
{
    assert(0 <= y * width + x < width * height) by (nonlinear_arith)
        requires
            0 <= x < width,
            0 <= y < height,
    ;
    assert(y * width == width * y) by (nonlinear_arith);
    vstd::arithmetic::div_mod::lemma_fundamental_div_mod_converse(y * width + x, width, y, x);
}

impl TileMap {
    #[verifier::type_invariant]
    spec fn sound(&self) -> bool {
        self@.well_formed()
    }

    /// Builds a grid of `width` by `height` cells from its packed cells, row
    /// by row, and the collider table. Fails where the number of cells is not
    /// `width * height`, and else at the first cell whose tile the table has
    /// no entry for.
    pub fn new(width: u16, height: u16, data: Vec<u32>, colliders: Vec<bool>) -> (built: Result<
        TileMap,
        MapError,
    >)
        ensures
            match built {
                Ok(map) => {
                    &&& map@ == (Grid {
                        width: width as int,
                        height: height as int,
                        cells: data@,
                        colliders: colliders@,
                    })
                    &&& map@.well_formed()
                },
                Err(MapError::SizeMismatch) => data.len() != width * height,
                Err(MapError::UnknownTile { index }) => {
                    let grid = Grid {
                        width: width as int,
                        height: height as int,
                        cells: data@,
                        colliders: colliders@,
                    };
                    &&& data.len() == width * height
                    &&& index < data.len()
                    &&& !grid.knows(data[index as int])
                    &&& forall|i: int| 0 <= i < index ==> grid.knows(#[trigger] data[i])
                },
            },
    {
        let ghost grid = Grid {
            width: width as int,
            height: height as int,
            cells: data@,
            colliders: colliders@,
        };
        assert((width as u64) * (height as u64) <= 0xffff * 0xffff) by (nonlinear_arith)
            requires
                width <= 0xffff,
                height <= 0xffff,
        ;
        let expected: u64 = (width as u64) * (height as u64);
        if data.len() as u64 != expected {
            return Err(MapError::SizeMismatch);
        }
        let mut i: usize = 0;
        while i < data.len()
            invariant
                i <= data.len(),
                data.len() == width * height,
                grid.cells == data@,
                grid.colliders == colliders@,
                forall|j: int| 0 <= j < i ==> grid.knows(#[trigger] data[j]),
            decreases data.len() - i,
        {
            let cell: u32 = data[i];
            let id: u32 = cell & TILE_ID_MASK;
            assert(cell & 0x1FFF_FFFF < 0x2000_0000) by (bit_vector);
            if id != 0 && (id - 1) as usize >= colliders.len() {
                return Err(MapError::UnknownTile { index: i });
            }
            i += 1;
        }
        Ok(TileMap { data, colliders, width, height })
    }

    /// The number of columns.
    pub fn width(&self) -> (w: u16)
        ensures
            w == self@.width,
            self@.well_formed(),
    {
        proof {
            use_type_invariant(self);
        }
        self.width
    }

    /// The number of rows.
    pub fn height(&self) -> (h: u16)
        ensures
            h == self@.height,
            self@.well_formed(),
    {
        proof {
            use_type_invariant(self);
        }
        self.height
    }

    /// The number of cells.
    pub fn cell_count(&self) -> (n: usize)
        ensures
            n == self@.width * self@.height,
            self@.well_formed(),
    {
        proof {
            use_type_invariant(self);
        }
        self.data.len()
    }

    /// The place of cell `(grid_x, grid_y)` in the row-major data.
    fn offset(&self, grid_x: u16, grid_y: u16) -> (i: usize)
        requires
            self@.in_bounds(grid_x as int, grid_y as int),
        ensures
            i == grid_y * self@.width + grid_x,
            i < self.data.len(),
            self.data[i as int] == self@.cell(grid_x as int, grid_y as int),
            self@.knows(self.data[i as int]),
    {
        proof {
            use_type_invariant(self);
            lemma_index_joins(
                self.width as int,
                self.height as int,
                grid_x as int,
                grid_y as int,
            );
            assert(grid_y * self.width >= 0) by (nonlinear_arith)
                requires
                    grid_y >= 0,
                    self.width >= 0,
            ;
            assert(self.data.len() == self.width * self.height);
            assert(grid_y * self.width + grid_x < self.data.len());
        }
        (grid_y as usize) * (self.width as usize) + (grid_x as usize)
    }

    /// The packed cell at `(grid_x, grid_y)`, or `None` outside the grid.
    pub fn cell_at(&self, grid_x: u16, grid_y: u16) -> (cell: Option<u32>)
        ensures
            cell.is_some() <==> self@.in_bounds(grid_x as int, grid_y as int),
            cell.is_some() ==> cell.unwrap() == self@.cell(grid_x as int, grid_y as int),
    {
        if grid_x < self.width && grid_y < self.height {
            let i: usize = self.offset(grid_x, grid_y);
            Some(self.data[i])
        } else {
            None
        }
    }

    /// The tile at `(grid_x, grid_y)` as identifier, horizontal flip, vertical
    /// flip and quarter turn, or `None` outside the grid.
    pub fn get_tile(&self, grid_x: u16, grid_y: u16) -> (tile: Option<(u32, bool, bool, bool)>)
        ensures
            tile.is_some() <==> self@.in_bounds(grid_x as int, grid_y as int),
            tile.is_some() ==> tile.unwrap() == unpacked(
                self@.cell(grid_x as int, grid_y as int),
            ),
    {
        match self.cell_at(grid_x, grid_y) {
            Some(cell) => Some(decode_tile(cell)),
            None => None,
        }
    }

    /// Whether tiles with this identifier block movement and sight. The empty
    /// tile, and an identifier that the collider table has no entry for, do
    /// not.
    pub fn is_blocking(&self, id: u32) -> (blocks: bool)
        ensures
            blocks == self@.blocks(id),
    {
        if id == 0 {
            return false;
        }
        let entry: usize = (id - 1) as usize;
        if entry < self.colliders.len() {
            self.colliders[entry]
        } else {
            false
        }
    }

    /// Whether `(grid_x, grid_y)` is a cell of the grid that blocks.
    pub fn blocks_at(&self, grid_x: u16, grid_y: u16) -> (blocks: bool)
        ensures
            blocks == self@.blocking(grid_x as int, grid_y as int),
    {
        match self.cell_at(grid_x, grid_y) {
            Some(cell) => {
                let (id, _, _, _) = decode_tile(cell);
                self.is_blocking(id)
            },
            None => false,
        }
    }

    /// The square that cell `(grid_x, grid_y)` covers.
    pub fn tile_bounds(grid_x: u16, grid_y: u16) -> (rect: Rect)
        ensures
            rect == tile_rect(grid_x as int, grid_y as int),
            rect.left == grid_x * TILE_SIZE,
            rect.top == grid_y * TILE_SIZE,
            rect.right == rect.left + TILE_SIZE,
            rect.bottom == rect.top + TILE_SIZE,
    {
        let left: i32 = (grid_x as i32) * TILE_SIZE;
        let top: i32 = (grid_y as i32) * TILE_SIZE;
        Rect { left, top, right: left + TILE_SIZE, bottom: top + TILE_SIZE }
    }

    /// Whether the cell that holds `point` blocks. A point outside the grid
    /// collides with nothing.
    pub fn point_collides_with_tile(&self, point: Point) -> (collides: bool)
        ensures
            collides == self@.blocking(cell_index(point.x as int), cell_index(point.y as int)),
    {
        let cx: i32 = cell_of(point.x);
        let cy: i32 = cell_of(point.y);
        if cx < 0 || cy < 0 || cx > 0xffff || cy > 0xffff {
            proof {
                use_type_invariant(self);
            }
            return false;
        }
        self.blocks_at(cx as u16, cy as u16)
    }

    /// Whether `rect` shares a point with a blocking cell. Touching a
    /// blocking cell's border counts. Only the cells that `rect` can reach
    /// are looked at.
    pub fn rect_collides_with_tile(&self, rect: Rect) -> (collides: bool)
        ensures
            collides == self@.rect_hits(rect),
    {
        proof {
            use_type_invariant(self);
        }
        if rect.left > rect.right || rect.top > rect.bottom || self.width == 0 || self.height
            == 0 {
            return false;
        }
        let first_x: i32 = cell_of(rect.left) - 1;
        let last_x: i32 = cell_of(rect.right);
        let first_y: i32 = cell_of(rect.top) - 1;
        let last_y: i32 = cell_of(rect.bottom);
        let x0: i32 = if first_x < 0 {
            0
        } else {
            first_x
        };
        let y0: i32 = if first_y < 0 {
            0
        } else {
            first_y
        };
        let x1: i32 = if last_x >= self.width as i32 {
            self.width as i32 - 1
        } else {
            last_x
        };
        let y1: i32 = if last_y >= self.height as i32 {
            self.height as i32 - 1
        } else {
            last_y
        };
        assert forall|x: int, y: int| #[trigger]
            self@.blocking(x, y) && rect.overlaps(tile_rect(x, y)) implies x0 <= x <= x1 && y0
            <= y <= y1 by {
            assert(0 <= x < 0x10000 && 0 <= y < 0x10000);
        }
        let mut y: i32 = y0;
        while y <= y1
            invariant
                0 <= y0 <= y,
                0 <= x0,
                y1 < self@.height,
                x1 < self@.width,
                y <= y1 + 1 || y == y0,
                forall|cx: int, cy: int| #[trigger]
                    self@.blocking(cx, cy) && rect.overlaps(tile_rect(cx, cy)) ==> x0 <= cx <= x1
                        && y <= cy <= y1,
            decreases y1 + 1 - y,
        {
            let mut x: i32 = x0;
            while x <= x1
                invariant
                    0 <= y0 <= y <= y1,
                    0 <= x0 <= x,
                    y1 < self@.height,
                    x1 < self@.width,
                    x <= x1 + 1 || x == x0,
                    forall|cx: int, cy: int| #[trigger]
                        self@.blocking(cx, cy) && rect.overlaps(tile_rect(cx, cy)) ==> x0 <= cx
                            <= x1 && y <= cy <= y1 && (cy == y ==> x <= cx),
                decreases x1 + 1 - x,
            {
                if self.blocks_at(x as u16, y as u16) {
                    let bounds: Rect = TileMap::tile_bounds(x as u16, y as u16);
                    if rect.intersect(bounds).is_some() {
                        assert(self@.blocking(x as int, y as int) && rect.overlaps(
                            tile_rect(x as int, y as int),
                        ));
                        return true;
                    }
                }
                x += 1;
            }
            y += 1;
        }
        false
    }
}

} // verus!
