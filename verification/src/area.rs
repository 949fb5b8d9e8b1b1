//! Reducing a coverage bitmap to what an area estimate is made of: for each
//! row of the map at which the area of a pixel is evaluated, the number of
//! pixels that are given that area.
//!
//! The area that one pixel covers depends on its row alone. An exact estimate
//! evaluates it at the row of each visited pixel; a block estimate evaluates
//! it once for each block, at the row through the block's middle, and gives
//! that area to every visited pixel of the block.

use vstd::prelude::*;

pub mod laws;

use crate::coverage::bitmap::{block_occupied, cells_in_block, lemma_occupant,
    lists_occupied_blocks, places, CoverageBitmap};
use crate::coverage::block::Block;
use crate::coverage::grid::{block_cells, lemma_block_cells_finite, BlockCoord, Pixel,
    BLOCK_WIDTH, GRID_BLOCKS, GRID_WIDTH};

verus! {

/// The axis along which an ablated estimate corrects for the projection.
#[derive(Copy, Clone, Debug, PartialEq, Eq, Hash)]
pub enum Axis {
    Width,
    Height,
}

/// A way of estimating the area that a bitmap covers.
#[derive(Copy, Clone, Debug, PartialEq, Eq, Hash)]
pub enum Strategy {
    /// The area of every visited pixel at its own row.
    Exact,
    /// As `Exact`, with the projection corrected along one axis only.
    AxisOnly(Axis),
    /// The area at the middle row of each block, for as many pixels as a
    /// scan of the block's bits finds.
    BlockApprox,
    /// The area at the middle row of each block, for as many pixels as the
    /// block says it holds.
    BlockOnly,
}

/// The pixels that an estimate gives one area to.
#[derive(Copy, Clone, Debug, PartialEq, Eq, Hash)]
pub enum Granularity {
    /// The pixels of one row of one block.
    PixelRows,
    /// The pixels of one block.
    Blocks,
}

/// A row of the map, and the number of pixels that are given the area of a
/// pixel in that row.
#[derive(Copy, Clone, Debug, PartialEq, Eq, Hash)]
pub struct Tally {
    pub row: u32,
    pub pixels: u32,
}

/// A bitmap holds a pixel that lies off the map. `block` is the first block,
/// row by row, that holds such a pixel.
#[derive(Copy, Clone, Debug, PartialEq, Eq, Hash)]
pub struct GeometryError {
    pub block: BlockCoord,
}

/// Whether every pixel of a set lies on the map.
pub open spec fn in_tiling_range(pixels: Set<Pixel>) -> bool {
    forall|pixel: Pixel| #[trigger]
        pixels.contains(pixel) ==> 0 <= pixel.x < GRID_WIDTH && 0 <= pixel.y < GRID_WIDTH
}

/// Whether a block is the first, row by row, that holds a pixel of the set
/// and lies off the map.
pub open spec fn first_block_off_map(pixels: Set<Pixel>, coord: BlockCoord) -> bool {
    &&& block_occupied(pixels, coord)
    &&& !coord.spec_in_tiling_range()
    &&& forall|other: BlockCoord| #[trigger]
        block_occupied(pixels, other) && other.spec_precedes(coord)
            ==> other.spec_in_tiling_range()
}

/// The number of a block of the map, counting row by row.
pub open spec fn block_number(coord: BlockCoord) -> int {
    coord.y as int * GRID_BLOCKS as int + coord.x as int
}

/// The number of the block that a pixel lies in.
pub open spec fn block_number_of(pixel: Pixel) -> int {
    (pixel.y / BLOCK_WIDTH as int) * GRID_BLOCKS as int + pixel.x / BLOCK_WIDTH as int
}

/// The number of the group that a pixel belongs to: that of its block, or
/// that of its row within its block, the rows of all blocks counted block
/// by block.
pub open spec fn group_of(granularity: Granularity, pixel: Pixel) -> int {
    match granularity {
        Granularity::Blocks => block_number_of(pixel),
        Granularity::PixelRows => block_number_of(pixel) * BLOCK_WIDTH as int + pixel.y
            % BLOCK_WIDTH as int,
    }
}

/// The number of groups on the map.
pub open spec fn group_limit(granularity: Granularity) -> nat {
    match granularity {
        Granularity::Blocks => 4_294_967_296,
        Granularity::PixelRows => 274_877_906_944,
    }
}

/// The row of the map at which the area of a group's pixels is evaluated:
/// the row that the pixels lie in, or the row through the middle of their
/// block.
pub open spec fn model_row(granularity: Granularity, group: int) -> int {
    match granularity {
        Granularity::Blocks => (group / GRID_BLOCKS as int) * BLOCK_WIDTH as int + BLOCK_WIDTH
            as int / 2,
        Granularity::PixelRows => (group / BLOCK_WIDTH as int / GRID_BLOCKS as int) * BLOCK_WIDTH
            as int + group % BLOCK_WIDTH as int,
    }
}

/// The pixels of a set that belong to a group.
pub open spec fn group_pixels(pixels: Set<Pixel>, granularity: Granularity, group: int) -> Set<
    Pixel,
> {
    pixels.filter(|pixel: Pixel| group_of(granularity, pixel) == group)
}

/// The tallies of the groups below a number, in the order of the groups: one
/// for each group that holds a pixel of the set.
pub open spec fn tallies_below(pixels: Set<Pixel>, granularity: Granularity, limit: nat) -> Seq<
    Tally,
>
    decreases limit,
{
    if limit == 0 {
        Seq::empty()
    } else {
        let group = (limit - 1) as int;
        let count = group_pixels(pixels, granularity, group).len();
        let below = tallies_below(pixels, granularity, (limit - 1) as nat);
        if count > 0 {
            below.push(Tally { row: model_row(granularity, group) as u32, pixels: count as u32 })
        } else {
            below
        }
    }
}

/// The tallies of a set of pixels: one for each group that holds a pixel, in
/// the order of the groups.
pub open spec fn spec_tallies(pixels: Set<Pixel>, granularity: Granularity) -> Seq<Tally> {
    tallies_below(pixels, granularity, group_limit(granularity))
}

/// The number of the first group of a block.
pub open spec fn group_start(granularity: Granularity, coord: BlockCoord) -> int {
    match granularity {
        Granularity::Blocks => block_number(coord),
        Granularity::PixelRows => block_number(coord) * 64,
    }
}

/// The number that follows that of the last group of a block.
pub open spec fn group_end(granularity: Granularity, coord: BlockCoord) -> int {
    match granularity {
        Granularity::Blocks => block_number(coord) + 1,
        Granularity::PixelRows => (block_number(coord) + 1) * 64,
    }
}

/// The end of the groups of the block before a place in a list: nothing for
/// the first place.
pub open spec fn reach_from(coords: Seq<BlockCoord>, granularity: Granularity, i: int) -> nat {
    if i > 0 {
        group_end(granularity, coords[i - 1]) as nat
    } else {
        0
    }
}

/// The first group of the block at a place in a list: the number of groups
/// on the map for the place past the last.
pub open spec fn reach_to(coords: Seq<BlockCoord>, granularity: Granularity, i: int) -> nat {
    if i < coords.len() {
        group_start(granularity, coords[i]) as nat
    } else {
        group_limit(granularity)
    }
}

impl Strategy {
    /// The pixels that this strategy gives one area to.
    pub open spec fn spec_granularity(self) -> Granularity {
        match self {
            Strategy::Exact => Granularity::PixelRows,
            Strategy::AxisOnly(_) => Granularity::PixelRows,
            Strategy::BlockApprox => Granularity::Blocks,
            Strategy::BlockOnly => Granularity::Blocks,
        }
    }

    /// The pixels that this strategy gives one area to.
    pub fn granularity(&self) -> (r: Granularity)
        ensures
            r == self.spec_granularity(),
    {
        match self {
            Strategy::Exact => Granularity::PixelRows,
            Strategy::AxisOnly(_) => Granularity::PixelRows,
            Strategy::BlockApprox => Granularity::Blocks,
            Strategy::BlockOnly => Granularity::Blocks,
        }
    }
}

/// Where no group from one number up to another holds a pixel, the tallies
/// below the two numbers are the same.
pub proof fn lemma_tallies_skip(pixels: Set<Pixel>, granularity: Granularity, from: nat, to: nat)
    requires
        from <= to,
        forall|pixel: Pixel| #[trigger]
            pixels.contains(pixel) ==> !(from <= group_of(granularity, pixel) < to),
    ensures
        tallies_below(pixels, granularity, to) == tallies_below(pixels, granularity, from),
    decreases to - from,
{
    if from < to {
        let group = (to - 1) as int;
        assert(group_pixels(pixels, granularity, group) =~= Set::<Pixel>::empty());
        lemma_tallies_skip(pixels, granularity, from, (to - 1) as nat);
    }
}

/// The pixels of a block of the map are as many as the block's cells that
/// hold one, and they are the group of that block.
pub proof fn lemma_block_group(pixels: Set<Pixel>, coord: BlockCoord)
    requires
        coord.spec_in_tiling_range(),
        in_tiling_range(pixels),
    ensures
        group_pixels(pixels, Granularity::Blocks, block_number(coord)).finite(),
        group_pixels(pixels, Granularity::Blocks, block_number(coord)).len() == cells_in_block(
            pixels,
            coord,
        ).len(),
        forall|pixel: Pixel|
            pixels.contains(pixel) ==> (coord.holds(pixel) <==> #[trigger] block_number_of(pixel)
                == block_number(coord)),
{
    let cells = cells_in_block(pixels, coord);
    let group = group_pixels(pixels, Granularity::Blocks, block_number(coord));
    let lift = |cell: Pixel| coord.pixel_of_cell(cell);
    lemma_block_cells_finite();
    vstd::set_lib::lemma_len_subset(cells, block_cells());
    assert forall|pixel: Pixel| pixels.contains(pixel) implies (coord.holds(pixel)
        <==> #[trigger] block_number_of(pixel) == block_number(coord)) by {
        lemma_block_number_decides(pixel, coord);
    }
    assert forall|a: Pixel, b: Pixel|
        cells.contains(a) && cells.contains(b) && #[trigger] lift(a) == #[trigger] lift(
            b,
        ) implies a == b by {
    }
    assert(cells.map(lift) =~= group) by {
        assert forall|pixel: Pixel| group.contains(pixel) implies cells.map(lift).contains(
            pixel,
        ) by {
            lemma_block_number_decides(pixel, coord);
            let cell = coord.cell_of_pixel(pixel);
            assert(cells.contains(cell));
            assert(lift(cell) == pixel);
        }
        assert forall|pixel: Pixel| cells.map(lift).contains(pixel) implies group.contains(
            pixel,
        ) by {
            let cell = choose|cell: Pixel| cells.contains(cell) && lift(cell) == pixel;
            assert(coord.holds(pixel));
            lemma_block_number_decides(pixel, coord);
        }
    }
    vstd::set_lib::lemma_map_size(cells, group, lift);
}

/// On the map, a pixel lies in a block exactly when the number of its block
/// is that block's number.
pub proof fn lemma_block_number_decides(pixel: Pixel, coord: BlockCoord)
    requires
        coord.spec_in_tiling_range(),
        0 <= pixel.x < GRID_WIDTH,
        0 <= pixel.y < GRID_WIDTH,
    ensures
        coord.holds(pixel) <==> block_number_of(pixel) == block_number(coord),
{
    let bx = pixel.x / 64;
    let by = pixel.y / 64;
    assert(0 <= bx < 65536 && 0 <= by < 65536);
    if block_number_of(pixel) == block_number(coord) {
        assert(by * 65536 + bx == coord.y as int * 65536 + coord.x as int);
        assert(by == coord.y as int);
    }
}

/// The pixels of one row of a block of the map are as many as the cells of
/// that row of the block that hold one, and they are the group of that row.
pub proof fn lemma_row_group(pixels: Set<Pixel>, coord: BlockCoord, row: int)
    requires
        coord.spec_in_tiling_range(),
        in_tiling_range(pixels),
        0 <= row < BLOCK_WIDTH,
    ensures
        group_pixels(
            pixels,
            Granularity::PixelRows,
            block_number(coord) * BLOCK_WIDTH as int + row,
        ).finite(),
        group_pixels(
            pixels,
            Granularity::PixelRows,
            block_number(coord) * BLOCK_WIDTH as int + row,
        ).len() == Block::row_cells(cells_in_block(pixels, coord), row).len(),
{
    let cells = Block::row_cells(cells_in_block(pixels, coord), row);
    let number = block_number(coord) * BLOCK_WIDTH as int + row;
    let group = group_pixels(pixels, Granularity::PixelRows, number);
    let lift = |cell: Pixel| coord.pixel_of_cell(cell);
    lemma_block_cells_finite();
    vstd::set_lib::lemma_len_subset(cells, block_cells());
    assert forall|a: Pixel, b: Pixel|
        cells.contains(a) && cells.contains(b) && #[trigger] lift(a) == #[trigger] lift(
            b,
        ) implies a == b by {
    }
    assert(cells.map(lift) =~= group) by {
        assert forall|pixel: Pixel| group.contains(pixel) implies cells.map(lift).contains(
            pixel,
        ) by {
            let local = pixel.y % 64;
            assert(block_number_of(pixel) * 64 + local == block_number(coord) * 64 + row);
            assert(block_number_of(pixel) == block_number(coord));
            lemma_block_number_decides(pixel, coord);
            let cell = coord.cell_of_pixel(pixel);
            assert(cell.y == row);
            assert(cells.contains(cell));
            assert(lift(cell) == pixel);
        }
        assert forall|pixel: Pixel| cells.map(lift).contains(pixel) implies group.contains(
            pixel,
        ) by {
            let cell = choose|cell: Pixel| cells.contains(cell) && lift(cell) == pixel;
            assert(coord.holds(pixel));
            lemma_block_number_decides(pixel, coord);
            assert(pixel.y % 64 == row);
        }
    }
    vstd::set_lib::lemma_map_size(cells, group, lift);
}

/// Blocks of the map that are listed row by row have increasing numbers.
pub proof fn lemma_block_numbers_increase(a: BlockCoord, b: BlockCoord)
    requires
        a.spec_in_tiling_range(),
        b.spec_in_tiling_range(),
        a.spec_precedes(b),
    ensures
        block_number(a) < block_number(b),
{
}

/// Where a pixel's block stands in a list of the occupied blocks.
proof fn lemma_listed(coords: Seq<BlockCoord>, pixels: Set<Pixel>, pixel: Pixel) -> (j: int)
    requires
        lists_occupied_blocks(coords, pixels),
        pixels.contains(pixel),
    ensures
        0 <= j < coords.len(),
        coords[j].holds(pixel),
{
    choose|j: int| 0 <= j < coords.len() && (#[trigger] coords[j]).holds(pixel)
}

/// In a list of the occupied blocks, a block that lies off the map while
/// those before it lie on the map is the first block off the map.
proof fn lemma_first_off_map(coords: Seq<BlockCoord>, pixels: Set<Pixel>, i: int)
    requires
        lists_occupied_blocks(coords, pixels),
        0 <= i < coords.len(),
        !coords[i].spec_in_tiling_range(),
        forall|k: int| 0 <= k < i ==> (#[trigger] coords[k]).spec_in_tiling_range(),
    ensures
        first_block_off_map(pixels, coords[i]),
        !in_tiling_range(pixels),
{
    let coord = coords[i];
    assert(block_occupied(pixels, coord));
    assert forall|other: BlockCoord| #[trigger]
        block_occupied(pixels, other) && other.spec_precedes(
            coord,
        ) implies other.spec_in_tiling_range() by {
        let pixel = lemma_occupant(pixels, other);
        let j = lemma_listed(coords, pixels, pixel);
        assert(coords[j].x == other.x && coords[j].y == other.y);
        if j > i {
            assert(coords[i].spec_precedes(coords[j]));
        }
    }
    let pixel = lemma_occupant(pixels, coord);
    assert(!(0 <= pixel.x < 4_194_304 && 0 <= pixel.y < 4_194_304));
}

/// Where every occupied block lies on the map, so does every pixel.
proof fn lemma_all_on_map(coords: Seq<BlockCoord>, pixels: Set<Pixel>)
    requires
        lists_occupied_blocks(coords, pixels),
        forall|k: int| 0 <= k < coords.len() ==> (#[trigger] coords[k]).spec_in_tiling_range(),
    ensures
        in_tiling_range(pixels),
{
    assert forall|pixel: Pixel| #[trigger] pixels.contains(pixel) implies 0 <= pixel.x
        < GRID_WIDTH && 0 <= pixel.y < GRID_WIDTH by {
        let j = lemma_listed(coords, pixels, pixel);
        assert(coords[j].spec_in_tiling_range());
    }
}

/// In a list of the occupied blocks of the map, the groups of a pixel are
/// those of the listed blocks: no pixel belongs to a group between the
/// groups of one listed block and those of the next, before those of the
/// first, or after those of the last.
proof fn lemma_gap(
    coords: Seq<BlockCoord>,
    pixels: Set<Pixel>,
    granularity: Granularity,
    i: int,
    pixel: Pixel,
)
    requires
        lists_occupied_blocks(coords, pixels),
        in_tiling_range(pixels),
        forall|k: int| 0 <= k < coords.len() ==> (#[trigger] coords[k]).spec_in_tiling_range(),
        0 <= i <= coords.len(),
        pixels.contains(pixel),
    ensures
        i > 0 ==> !(group_end(granularity, coords[i - 1]) <= group_of(granularity, pixel)
            < group_limit(granularity) && (i < coords.len() ==> group_of(granularity, pixel)
            < group_start(granularity, coords[i]))),
        i == 0 ==> !(0 <= group_of(granularity, pixel) && (i < coords.len() ==> group_of(
            granularity,
            pixel,
        ) < group_start(granularity, coords[i]))),
        0 <= group_of(granularity, pixel) < group_limit(granularity),
{
    let j = lemma_listed(coords, pixels, pixel);
    lemma_block_number_decides(pixel, coords[j]);
    let local = pixel.y % 64;
    assert(0 <= local < 64);
    assert(0 <= block_number(coords[j]) < 4_294_967_296);
    if j < i - 1 {
        assert(coords[j].spec_precedes(coords[i - 1]));
        lemma_block_numbers_increase(coords[j], coords[i - 1]);
    }
    if i < coords.len() && j > i {
        assert(coords[i].spec_precedes(coords[j]));
        lemma_block_numbers_increase(coords[i], coords[j]);
    }
}

/// The tallies below the first group of the block that stands at a place in
/// a list of the occupied blocks are those below the end of the block before
/// it; past the last block, nothing more is tallied.
proof fn lemma_tallies_reach(
    coords: Seq<BlockCoord>,
    pixels: Set<Pixel>,
    granularity: Granularity,
    i: int,
)
    requires
        lists_occupied_blocks(coords, pixels),
        in_tiling_range(pixels),
        forall|k: int| 0 <= k < coords.len() ==> (#[trigger] coords[k]).spec_in_tiling_range(),
        0 <= i <= coords.len(),
    ensures
        tallies_below(pixels, granularity, reach_to(coords, granularity, i)) == tallies_below(
            pixels,
            granularity,
            reach_from(coords, granularity, i),
        ),
        reach_from(coords, granularity, i) <= reach_to(coords, granularity, i) <= group_limit(
            granularity,
        ),
{
    let from = reach_from(coords, granularity, i);
    let to = reach_to(coords, granularity, i);
    if i > 0 {
        assert(0 <= block_number(coords[i - 1]) < 4_294_967_296);
    }
    if i < coords.len() {
        assert(0 <= block_number(coords[i]) < 4_294_967_296);
        if i > 0 {
            assert(coords[i - 1].spec_precedes(coords[i]));
            lemma_block_numbers_increase(coords[i - 1], coords[i]);
        }
    }
    assert forall|pixel: Pixel| #[trigger] pixels.contains(pixel) implies !(from <= group_of(
        granularity,
        pixel,
    ) < to) by {
        lemma_gap(coords, pixels, granularity, i, pixel);
    }
    lemma_tallies_skip(pixels, granularity, from, to);
}

/// The one tally of an occupied block of the map.
proof fn lemma_block_tally(pixels: Set<Pixel>, coord: BlockCoord)
    requires
        coord.spec_in_tiling_range(),
        in_tiling_range(pixels),
        block_occupied(pixels, coord),
    ensures
        tallies_below(
            pixels,
            Granularity::Blocks,
            group_end(Granularity::Blocks, coord) as nat,
        ) == tallies_below(
            pixels,
            Granularity::Blocks,
            group_start(Granularity::Blocks, coord) as nat,
        ).push(
            Tally {
                row: (coord.y * 64 + 32) as u32,
                pixels: cells_in_block(pixels, coord).len() as u32,
            },
        ),
        0 < cells_in_block(pixels, coord).len() <= 4096,
{
    let number = block_number(coord);
    lemma_block_group(pixels, coord);
    lemma_block_cells_finite();
    vstd::set_lib::lemma_len_subset(cells_in_block(pixels, coord), block_cells());
    let pixel = lemma_occupant(pixels, coord);
    assert(group_pixels(pixels, Granularity::Blocks, number).contains(pixel));
    assert(model_row(Granularity::Blocks, number) == coord.y as int * 64 + 32);
    assert(0 <= number);
}

/// The tally, if any, of one row of a block of the map.
proof fn lemma_row_tally(pixels: Set<Pixel>, coord: BlockCoord, row: int)
    requires
        coord.spec_in_tiling_range(),
        in_tiling_range(pixels),
        0 <= row < 64,
    ensures
        ({
            let first = block_number(coord) * 64;
            let count = Block::row_cells(cells_in_block(pixels, coord), row).len();
            let below = tallies_below(pixels, Granularity::PixelRows, (first + row) as nat);
            tallies_below(pixels, Granularity::PixelRows, (first + row + 1) as nat) == if count
                > 0 {
                below.push(Tally { row: (coord.y * 64 + row) as u32, pixels: count as u32 })
            } else {
                below
            }
        }),
{
    let first = block_number(coord) * 64;
    lemma_row_group(pixels, coord, row);
    assert(model_row(Granularity::PixelRows, first + row) == coord.y as int * 64 + row);
    assert(0 <= first);
}

/// Looks for the first listed block that lies off the map.
fn check_blocks(blocks: &Vec<(BlockCoord, &Block)>, Ghost(pixels): Ghost<Set<Pixel>>) -> (r: Result<
    (),
    GeometryError,
>)
    requires
        lists_occupied_blocks(places(blocks@), pixels),
    ensures
        r is Ok <==> in_tiling_range(pixels),
        r is Ok ==> forall|i: int|
            0 <= i < blocks@.len() ==> (#[trigger] places(blocks@)[i]).spec_in_tiling_range(),
        r matches Err(e) ==> first_block_off_map(pixels, e.block),
{
    let ghost coords = places(blocks@);
    let mut i: usize = 0;
    while i < blocks.len()
        invariant
            i <= blocks@.len(),
            coords == places(blocks@),
            lists_occupied_blocks(coords, pixels),
            forall|k: int| 0 <= k < i ==> (#[trigger] coords[k]).spec_in_tiling_range(),
        decreases blocks@.len() - i,
    {
        let coord = blocks[i].0;
        assert(coords[i as int] == coord);
        if !coord.in_tiling_range() {
            proof {
                lemma_first_off_map(coords, pixels, i as int);
            }
            return Err(GeometryError { block: coord });
        }
        i = i + 1;
    }
    proof {
        lemma_all_on_map(coords, pixels);
    }
    Ok(())
}

/// Whether every visited pixel of a bitmap lies on the map; if not, the
/// first block, row by row, that holds one that does not.
pub fn check_geometry(bitmap: &CoverageBitmap) -> (r: Result<(), GeometryError>)
    requires
        bitmap.wf(),
    ensures
        r is Ok <==> in_tiling_range(bitmap@),
        r matches Err(e) ==> first_block_off_map(bitmap@, e.block),
{
    let blocks = bitmap.iterate_blocks();
    check_blocks(&blocks, Ghost(bitmap@))
}

/// Appends the tallies of the rows of one block.
fn push_row_tallies(
    out: &mut Vec<Tally>,
    coord: BlockCoord,
    block: &Block,
    Ghost(pixels): Ghost<Set<Pixel>>,
)
    requires
        coord.spec_in_tiling_range(),
        in_tiling_range(pixels),
        block.wf(),
        block@ == cells_in_block(pixels, coord),
        old(out)@ == tallies_below(
            pixels,
            Granularity::PixelRows,
            group_start(Granularity::PixelRows, coord) as nat,
        ),
    ensures
        final(out)@ == tallies_below(
            pixels,
            Granularity::PixelRows,
            group_end(Granularity::PixelRows, coord) as nat,
        ),
{
    let ghost first = block_number(coord) * 64;
    let mut row: u32 = 0;
    while row < BLOCK_WIDTH
        invariant
            coord.spec_in_tiling_range(),
            in_tiling_range(pixels),
            block.wf(),
            block@ == cells_in_block(pixels, coord),
            first == block_number(coord) * 64,
            0 <= first,
            row <= 64,
            out@ == tallies_below(pixels, Granularity::PixelRows, (first + row) as nat),
        decreases 64 - row,
    {
        let count = block.row_popcount(row);
        proof {
            lemma_row_tally(pixels, coord, row as int);
        }
        if count > 0 {
            out.push(Tally { row: coord.y * BLOCK_WIDTH + row, pixels: count });
        }
        row = row + 1;
    }
}

/// What an area estimate of a bitmap is made of under a strategy: for each
/// group of pixels that the strategy gives one area to, the row at which
/// that area is evaluated and the number of visited pixels in the group, in
/// the order of the groups. A bitmap with a pixel off the map is rejected.
pub fn tallies(bitmap: &CoverageBitmap, strategy: Strategy) -> (r: Result<
    Vec<Tally>,
    GeometryError,
>)
    requires
        bitmap.wf(),
    ensures
        r is Ok <==> in_tiling_range(bitmap@),
        r matches Ok(list) ==> list@ == spec_tallies(bitmap@, strategy.spec_granularity()),
        r matches Err(e) ==> first_block_off_map(bitmap@, e.block),
{
    let ghost pixels = bitmap@;
    let blocks = bitmap.iterate_blocks();
    let ghost coords = places(blocks@);
    match check_blocks(&blocks, Ghost(pixels)) {
        Err(e) => {
            return Err(e);
        },
        Ok(()) => {},
    }
    let granularity = strategy.granularity();
    let mut out: Vec<Tally> = Vec::new();
    let mut i: usize = 0;
    while i < blocks.len()
        invariant
            i <= blocks@.len(),
            coords == places(blocks@),
            lists_occupied_blocks(coords, pixels),
            in_tiling_range(pixels),
            granularity == strategy.spec_granularity(),
            forall|k: int| 0 <= k < coords.len() ==> (#[trigger] coords[k]).spec_in_tiling_range(),
            forall|k: int|
                0 <= k < blocks@.len() ==> (#[trigger] blocks@[k]).1.wf() && blocks@[k].1@
                    == cells_in_block(pixels, blocks@[k].0),
            out@ == tallies_below(pixels, granularity, reach_from(coords, granularity, i as int)),
        decreases blocks@.len() - i,
    {
        let coord = blocks[i].0;
        let block = blocks[i].1;
        proof {
            assert(coords[i as int] == coord);
            lemma_tallies_reach(coords, pixels, granularity, i as int);
            assert(block_occupied(pixels, coords[i as int]));
        }
        match granularity {
            Granularity::Blocks => {
                let count = match strategy {
                    Strategy::BlockApprox => block.count_bits(),
                    _ => block.popcount(),
                };
                proof {
                    lemma_block_tally(pixels, coord);
                }
                out.push(Tally { row: coord.y * BLOCK_WIDTH + BLOCK_WIDTH / 2, pixels: count });
            },
            Granularity::PixelRows => {
                push_row_tallies(&mut out, coord, block, Ghost(pixels));
            },
        }
        i = i + 1;
    }
    proof {
        lemma_tallies_reach(coords, pixels, granularity, blocks@.len() as int);
    }
    Ok(out)
}

} // verus!
