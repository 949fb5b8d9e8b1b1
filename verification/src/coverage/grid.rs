//! The tiling that the coverage bitmap lives on: pixels, the blocks that
//! partition them, and the range of the map.

use vstd::prelude::*;

verus! {

/// Pixels along each side of a block.
pub const BLOCK_WIDTH: u32 = 64;

/// Pixels in a block.
pub const BLOCK_PIXELS: u32 = 4096;

/// Blocks along each side of the map. The map is 512 tiles wide and a tile
/// is 128 blocks wide.
pub const GRID_BLOCKS: u32 = 65_536;

/// Pixels along each side of the map: `GRID_BLOCKS` times `BLOCK_WIDTH`.
pub const GRID_WIDTH: u32 = 4_194_304;

/// A pixel as a point of the plane: `x` counts columns from the left edge,
/// `y` counts rows from the top edge. Within a block the same type names a
/// cell by its column and row there.
pub ghost struct Pixel {
    pub x: int,
    pub y: int,
}

/// Whether a point names a cell of a block.
pub open spec fn is_cell(cell: Pixel) -> bool {
    0 <= cell.x < BLOCK_WIDTH && 0 <= cell.y < BLOCK_WIDTH
}

/// Every cell of a block.
pub open spec fn block_cells() -> Set<Pixel> {
    Set::new(|cell: Pixel| is_cell(cell))
}

/// The cell with the given number, counting row by row.
pub open spec fn cell_of_index(i: int) -> Pixel {
    Pixel { x: i % (BLOCK_WIDTH as int), y: i / (BLOCK_WIDTH as int) }
}

/// A block has finitely many cells: as many as `BLOCK_PIXELS` says.
pub proof fn lemma_block_cells_finite()
    ensures
        block_cells().finite(),
        block_cells().len() == BLOCK_PIXELS,
{
    let indices = vstd::set_lib::set_int_range(0, BLOCK_PIXELS as int);
    let to_cell = |i: int| cell_of_index(i);
    vstd::set_lib::lemma_int_range(0, BLOCK_PIXELS as int);
    assert forall|i: int, j: int|
        indices.contains(i) && indices.contains(j) && #[trigger] to_cell(i) == #[trigger] to_cell(
            j,
        ) implies i == j by {
        assert(i == (i / 64) * 64 + i % 64);
        assert(j == (j / 64) * 64 + j % 64);
    }
    assert(indices.map(to_cell) =~= block_cells()) by {
        assert forall|cell: Pixel| block_cells().contains(cell) implies indices.map(
            to_cell,
        ).contains(cell) by {
            let i = cell.y * 64 + cell.x;
            assert(indices.contains(i));
            assert(to_cell(i) == cell);
        }
    }
    vstd::set_lib::lemma_map_size(indices, block_cells(), to_cell);
}

/// The place of a block on the map: `x` counts block columns and `y` block
/// rows.
#[derive(Copy, Clone, Debug, PartialEq, Eq, Hash)]
pub struct BlockCoord {
    pub x: u32,
    pub y: u32,
}

impl BlockCoord {
    /// Whether this block comes before the other when blocks are listed row
    /// by row.
    pub open spec fn spec_precedes(self, other: BlockCoord) -> bool {
        self.y < other.y || (self.y == other.y && self.x < other.x)
    }

    /// Whether the block lies on the map.
    pub open spec fn spec_in_tiling_range(self) -> bool {
        self.x < GRID_BLOCKS && self.y < GRID_BLOCKS
    }

    /// Whether a pixel lies in this block.
    pub open spec fn holds(self, pixel: Pixel) -> bool {
        &&& self.x as int * BLOCK_WIDTH as int <= pixel.x < (self.x as int + 1) * BLOCK_WIDTH as int
        &&& self.y as int * BLOCK_WIDTH as int <= pixel.y < (self.y as int + 1) * BLOCK_WIDTH as int
    }

    /// The pixel of the map that a cell of this block is.
    pub open spec fn pixel_of_cell(self, cell: Pixel) -> Pixel {
        Pixel {
            x: self.x as int * BLOCK_WIDTH as int + cell.x,
            y: self.y as int * BLOCK_WIDTH as int + cell.y,
        }
    }

    /// The cell of this block that a pixel of the map is.
    pub open spec fn cell_of_pixel(self, pixel: Pixel) -> Pixel {
        Pixel {
            x: pixel.x - self.x as int * BLOCK_WIDTH as int,
            y: pixel.y - self.y as int * BLOCK_WIDTH as int,
        }
    }

    /// The blocks partition the plane: a pixel lies in one block, which is
    /// the block that its coordinates name.
    pub proof fn lemma_one_block_per_pixel(self, pixel: PixelCoord)
        ensures
            self.holds(pixel@) <==> self == pixel.spec_block(),
            pixel.spec_block().pixel_of_cell(pixel.spec_block().cell_of_pixel(pixel@)) == pixel@,
            is_cell(pixel.spec_block().cell_of_pixel(pixel@)),
    {
        let block = pixel.spec_block();
        assert(block.x as int == pixel.x as int / 64 && block.y as int == pixel.y as int / 64);
        if self.holds(pixel@) {
            assert(self.x == block.x && self.y == block.y);
        }
    }

    /// Whether this block comes before the other when blocks are listed row
    /// by row.
    pub fn precedes(&self, other: &BlockCoord) -> (r: bool)
        ensures
            r == self.spec_precedes(*other),
    {
        self.y < other.y || (self.y == other.y && self.x < other.x)
    }

    /// Whether the block lies on the map.
    pub fn in_tiling_range(&self) -> (r: bool)
        ensures
            r == self.spec_in_tiling_range(),
    {
        self.x < GRID_BLOCKS && self.y < GRID_BLOCKS
    }
}

/// A pixel of the map: `x` counts columns from the left edge, `y` counts rows
/// from the top edge.
#[derive(Copy, Clone, Debug, PartialEq, Eq, Hash)]
pub struct PixelCoord {
    pub x: u32,
    pub y: u32,
}

impl View for PixelCoord {
    type V = Pixel;

    open spec fn view(&self) -> Pixel {
        Pixel { x: self.x as int, y: self.y as int }
    }
}

impl PixelCoord {
    /// The block that the pixel lies in.
    pub open spec fn spec_block(self) -> BlockCoord {
        BlockCoord { x: self.x / BLOCK_WIDTH, y: self.y / BLOCK_WIDTH }
    }

    /// The pixel at the given column and row of a block, where there is one
    /// and its coordinates can be represented.
    pub open spec fn spec_of_block(block: BlockCoord, col: u32, row: u32) -> Option<PixelCoord> {
        if col < BLOCK_WIDTH && row < BLOCK_WIDTH && block.x as int * BLOCK_WIDTH as int + col
            <= u32::MAX && block.y as int * BLOCK_WIDTH as int + row <= u32::MAX {
            Some(
                PixelCoord {
                    x: (block.x as int * BLOCK_WIDTH as int + col) as u32,
                    y: (block.y as int * BLOCK_WIDTH as int + row) as u32,
                },
            )
        } else {
            None
        }
    }

    /// The block that the pixel lies in.
    pub fn block(&self) -> (r: BlockCoord)
        ensures
            r == self.spec_block(),
            r.holds(self@),
    {
        BlockCoord { x: self.x / BLOCK_WIDTH, y: self.y / BLOCK_WIDTH }
    }

    /// The pixel's column within its block.
    pub fn col_in_block(&self) -> (r: u32)
        ensures
            r == self.x as int % BLOCK_WIDTH as int,
            r == self.spec_block().cell_of_pixel(self@).x,
    {
        self.x % BLOCK_WIDTH
    }

    /// The pixel's row within its block.
    pub fn row_in_block(&self) -> (r: u32)
        ensures
            r == self.y as int % BLOCK_WIDTH as int,
            r == self.spec_block().cell_of_pixel(self@).y,
    {
        self.y % BLOCK_WIDTH
    }

    /// The row of the map that the pixel lies in, on which alone the area
    /// that it covers depends.
    pub fn global_row(&self) -> (r: u32)
        ensures
            r == self@.y,
    {
        self.y
    }

    /// The pixel at the given column and row of a block, where there is one
    /// and its coordinates can be represented.
    pub fn of_block(block: BlockCoord, col: u32, row: u32) -> (r: Option<PixelCoord>)
        ensures
            r == Self::spec_of_block(block, col, row),
            r matches Some(pixel) ==> pixel.spec_block() == block && pixel@
                == block.pixel_of_cell(Pixel { x: col as int, y: row as int }),
    {
        if col >= BLOCK_WIDTH || row >= BLOCK_WIDTH {
            return None;
        }
        let x: u64 = block.x as u64 * BLOCK_WIDTH as u64 + col as u64;
        let y: u64 = block.y as u64 * BLOCK_WIDTH as u64 + row as u64;
        if x > u32::MAX as u64 || y > u32::MAX as u64 {
            return None;
        }
        Some(PixelCoord { x: x as u32, y: y as u32 })
    }

    /// Whether the pixel lies on the map.
    pub fn in_tiling_range(&self) -> (r: bool)
        ensures
            r == (self.x < GRID_WIDTH && self.y < GRID_WIDTH),
            r == self.spec_block().spec_in_tiling_range(),
    {
        self.x < GRID_WIDTH && self.y < GRID_WIDTH
    }
}

} // verus!
