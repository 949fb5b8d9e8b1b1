//! The sparse bitmap of visited pixels.

use vstd::prelude::*;
use crate::coverage::block::Block;
use crate::coverage::grid::{is_cell, BlockCoord, Pixel, PixelCoord};

verus! {

/// One more than the largest block column or row that a pixel with `u32`
/// coordinates can lie in.
pub const MAX_BLOCKS: u32 = 67_108_864;

/// The cells of a block whose pixels belong to a set of pixels.
pub open spec fn cells_in_block(pixels: Set<Pixel>, coord: BlockCoord) -> Set<Pixel> {
    Set::new(|cell: Pixel| is_cell(cell) && pixels.contains(coord.pixel_of_cell(cell)))
}

/// Whether a block holds a pixel of a set of pixels.
#[verifier::opaque]
pub open spec fn block_occupied(pixels: Set<Pixel>, coord: BlockCoord) -> bool {
    exists|pixel: Pixel| #[trigger] pixels.contains(pixel) && coord.holds(pixel)
}

/// A block that holds a given pixel of the set is occupied.
pub proof fn lemma_occupied_by(pixels: Set<Pixel>, coord: BlockCoord, pixel: Pixel)
    requires
        pixels.contains(pixel),
        coord.holds(pixel),
    ensures
        block_occupied(pixels, coord),
{
    reveal(block_occupied);
}

/// A pixel of the set that an occupied block holds.
pub proof fn lemma_occupant(pixels: Set<Pixel>, coord: BlockCoord) -> (pixel: Pixel)
    requires
        block_occupied(pixels, coord),
    ensures
        pixels.contains(pixel),
        coord.holds(pixel),
{
    reveal(block_occupied);
    choose|pixel: Pixel| #[trigger] pixels.contains(pixel) && coord.holds(pixel)
}

/// Whether a sequence lists the blocks that hold a pixel of a set of pixels:
/// each of them, none else, row by row and so none twice.
pub open spec fn lists_occupied_blocks(coords: Seq<BlockCoord>, pixels: Set<Pixel>) -> bool {
    &&& row_by_row(coords)
    &&& forall|i: int| 0 <= i < coords.len() ==> block_occupied(pixels, #[trigger] coords[i])
    &&& forall|pixel: Pixel| #[trigger]
        pixels.contains(pixel) ==> exists|i: int|
            0 <= i < coords.len() && (#[trigger] coords[i]).holds(pixel)
}

/// Whether a sequence of places is in row-by-row order, none twice.
pub open spec fn row_by_row(coords: Seq<BlockCoord>) -> bool {
    forall|i: int, j: int|
        0 <= i < j < coords.len() ==> (#[trigger] coords[i]).spec_precedes(#[trigger] coords[j])
}

/// The blocks that hold a pixel of a set of pixels, row by row.
pub open spec fn occupied_blocks(pixels: Set<Pixel>) -> Seq<BlockCoord> {
    choose|coords: Seq<BlockCoord>| lists_occupied_blocks(coords, pixels)
}

/// The places of a list of blocks.
pub open spec fn places(blocks: Seq<(BlockCoord, &Block)>) -> Seq<BlockCoord> {
    Seq::new(blocks.len(), |i: int| blocks[i].0)
}

/// Two sequences of places in row-by-row order that hold the same places are
/// the same sequence.
pub proof fn lemma_row_by_row_unique(a: Seq<BlockCoord>, b: Seq<BlockCoord>)
    requires
        row_by_row(a),
        row_by_row(b),
        forall|coord: BlockCoord| a.contains(coord) == b.contains(coord),
    ensures
        a == b,
    decreases a.len(),
{
    if a.len() == 0 {
        if b.len() > 0 {
            assert(b.contains(b[0]));
        }
        assert(a =~= b);
    } else {
        assert(a.contains(a[0]));
        assert(b.contains(a[0]));
        let k = choose|k: int| 0 <= k < b.len() && b[k] == a[0];
        assert(b.contains(b[0]));
        assert(a.contains(b[0]));
        let m = choose|m: int| 0 <= m < a.len() && a[m] == b[0];
        if k > 0 {
            assert(b[0].spec_precedes(b[k]));
            if m > 0 {
                assert(a[0].spec_precedes(a[m]));
            }
        }
        assert(a[0] == b[0]);
        let rest_a = a.subrange(1, a.len() as int);
        let rest_b = b.subrange(1, b.len() as int);
        assert forall|coord: BlockCoord| rest_a.contains(coord) == rest_b.contains(coord) by {
            if rest_a.contains(coord) {
                let i = choose|i: int| 0 <= i < rest_a.len() && rest_a[i] == coord;
                assert(a[i + 1] == coord);
                assert(a[0].spec_precedes(a[i + 1]));
                assert(a.contains(coord));
                let j = choose|j: int| 0 <= j < b.len() && b[j] == coord;
                assert(j > 0);
                assert(rest_b[j - 1] == coord);
            }
            if rest_b.contains(coord) {
                let i = choose|i: int| 0 <= i < rest_b.len() && rest_b[i] == coord;
                assert(b[i + 1] == coord);
                assert(b[0].spec_precedes(b[i + 1]));
                assert(b.contains(coord));
                let j = choose|j: int| 0 <= j < a.len() && a[j] == coord;
                assert(j > 0);
                assert(rest_a[j - 1] == coord);
            }
        }
        assert(row_by_row(rest_a)) by {
            assert forall|i: int, j: int| 0 <= i < j < rest_a.len() implies (#[trigger] rest_a[i])
                .spec_precedes(#[trigger] rest_a[j]) by {
                assert(a[i + 1].spec_precedes(a[j + 1]));
            }
        }
        assert(row_by_row(rest_b)) by {
            assert forall|i: int, j: int| 0 <= i < j < rest_b.len() implies (#[trigger] rest_b[i])
                .spec_precedes(#[trigger] rest_b[j]) by {
                assert(b[i + 1].spec_precedes(b[j + 1]));
            }
        }
        lemma_row_by_row_unique(rest_a, rest_b);
        assert(a.len() == b.len());
        assert forall|i: int| 0 <= i < a.len() implies a[i] == b[i] by {
            if i > 0 {
                assert(rest_a[i - 1] == rest_b[i - 1]);
            }
        }
        assert(a =~= b);
    }
}

/// A list of the occupied blocks holds a place exactly when the block there
/// is occupied.
pub proof fn lemma_listed_iff_occupied(
    coords: Seq<BlockCoord>,
    pixels: Set<Pixel>,
    coord: BlockCoord,
)
    requires
        lists_occupied_blocks(coords, pixels),
    ensures
        coords.contains(coord) == block_occupied(pixels, coord),
{
    if block_occupied(pixels, coord) {
        let pixel = lemma_occupant(pixels, coord);
        let j = choose|j: int| 0 <= j < coords.len() && (#[trigger] coords[j]).holds(pixel);
        assert(coords[j].x == coord.x && coords[j].y == coord.y);
        assert(coords[j] == coord);
    }
    if coords.contains(coord) {
        let i = choose|i: int| 0 <= i < coords.len() && coords[i] == coord;
        assert(block_occupied(pixels, coords[i]));
    }
}

/// There is one list of the occupied blocks of a set of pixels: every such
/// list is `occupied_blocks`.
pub proof fn lemma_occupied_blocks_unique(coords: Seq<BlockCoord>, pixels: Set<Pixel>)
    requires
        lists_occupied_blocks(coords, pixels),
    ensures
        coords == occupied_blocks(pixels),
{
    let chosen = occupied_blocks(pixels);
    assert(lists_occupied_blocks(chosen, pixels));
    assert forall|coord: BlockCoord| coords.contains(coord) == chosen.contains(coord) by {
        lemma_listed_iff_occupied(coords, pixels, coord);
        lemma_listed_iff_occupied(chosen, pixels, coord);
    }
    lemma_row_by_row_unique(coords, chosen);
}

/// A block together with its place on the map.
#[derive(Clone, Debug, PartialEq, Eq)]
struct Entry {
    coord: BlockCoord,
    block: Block,
}

impl Entry {
    /// Whether a pixel lies in this entry's block and is set there.
    spec fn has(self, pixel: Pixel) -> bool {
        self.coord.holds(pixel) && self.block@.contains(self.coord.cell_of_pixel(pixel))
    }
}

/// The visited pixels of the map. Only blocks with a visited pixel are
/// stored, in the order of their places, row by row.
#[derive(Clone, Debug, PartialEq, Eq)]
pub struct CoverageBitmap {
    entries: Vec<Entry>,
}

impl View for CoverageBitmap {
    type V = Set<Pixel>;

    /// The visited pixels.
    closed spec fn view(&self) -> Set<Pixel> {
        Set::new(
            |pixel: Pixel|
                exists|i: int| 0 <= i < self.entries@.len() && (#[trigger] self.entries@[i]).has(pixel),
        )
    }
}

impl CoverageBitmap {
    /// A bitmap is well formed when its blocks are well formed, none of them
    /// is empty, they stand in the order of their places, and their places
    /// are ones that a pixel can lie in.
    pub closed spec fn wf(self) -> bool {
        &&& forall|i: int|
            0 <= i < self.entries@.len() ==> {
                &&& (#[trigger] self.entries@[i]).block.wf()
                &&& self.entries@[i].block@.len() > 0
                &&& self.entries@[i].coord.x < MAX_BLOCKS
                &&& self.entries@[i].coord.y < MAX_BLOCKS
            }
        &&& forall|i: int, j: int|
            0 <= i < j < self.entries@.len() ==> (#[trigger] self.entries@[i]).coord.spec_precedes(
                (#[trigger] self.entries@[j]).coord,
            )
        &&& self@.finite()
    }

    /// The places of the stored blocks, in storage order.
    closed spec fn coords(self) -> Seq<BlockCoord> {
        Seq::new(self.entries@.len(), |i: int| self.entries@[i].coord)
    }

    /// The block stored at a place holds exactly the bitmap's pixels there.
    proof fn lemma_entry_cells(self, i: int)
        requires
            self.wf(),
            0 <= i < self.entries@.len(),
        ensures
            cells_in_block(self@, self.entries@[i].coord) == self.entries@[i].block@,
            block_occupied(self@, self.entries@[i].coord),
    {
        let entry = self.entries@[i];
        entry.block.lemma_view_bounded();
        assert forall|cell: Pixel|
            cells_in_block(self@, entry.coord).contains(cell) == entry.block@.contains(cell) by {
            let pixel = entry.coord.pixel_of_cell(cell);
            if entry.block@.contains(cell) {
                assert(entry.has(pixel));
            }
            if cells_in_block(self@, entry.coord).contains(cell) {
                let j = choose|j: int|
                    0 <= j < self.entries@.len() && (#[trigger] self.entries@[j]).has(pixel);
                self.lemma_same_place(i, j, pixel);
            }
        }
        assert(cells_in_block(self@, entry.coord) =~= entry.block@);
        let cell = entry.block@.choose();
        assert(entry.block@.contains(cell)) by {
            if entry.block@ =~= Set::<Pixel>::empty() {
            }
        }
        assert(entry.has(entry.coord.pixel_of_cell(cell)));
        assert(self@.contains(entry.coord.pixel_of_cell(cell)));
        lemma_occupied_by(self@, entry.coord, entry.coord.pixel_of_cell(cell));
    }

    /// Two stored blocks whose places hold the same pixel are one block.
    proof fn lemma_same_place(self, i: int, j: int, pixel: Pixel)
        requires
            self.wf(),
            0 <= i < self.entries@.len(),
            0 <= j < self.entries@.len(),
            self.entries@[i].coord.holds(pixel),
            self.entries@[j].coord.holds(pixel),
        ensures
            i == j,
    {
        let a = self.entries@[i].coord;
        let b = self.entries@[j].coord;
        assert(a.x == b.x && a.y == b.y);
        if i < j {
            assert(a.spec_precedes(b));
        } else if j < i {
            assert(b.spec_precedes(a));
        }
    }

    /// No place is stored in a bitmap that has no block there.
    proof fn lemma_absent(self, coord: BlockCoord)
        requires
            self.wf(),
            forall|i: int| 0 <= i < self.entries@.len() ==> (#[trigger] self.entries@[i]).coord != coord,
        ensures
            !block_occupied(self@, coord),
            cells_in_block(self@, coord) == Set::<Pixel>::empty(),
    {
        assert forall|pixel: Pixel| self@.contains(pixel) implies !coord.holds(pixel) by {
            let j = choose|j: int|
                0 <= j < self.entries@.len() && (#[trigger] self.entries@[j]).has(pixel);
            if coord.holds(pixel) {
                assert(self.entries@[j].coord.x == coord.x && self.entries@[j].coord.y == coord.y);
            }
        }
        if block_occupied(self@, coord) {
            let pixel = lemma_occupant(self@, coord);
        }
        assert forall|cell: Pixel| !cells_in_block(self@, coord).contains(cell) by {
            if is_cell(cell) {
                assert(coord.holds(coord.pixel_of_cell(cell)));
            }
        }
        assert(cells_in_block(self@, coord) =~= Set::<Pixel>::empty());
    }

    /// The bitmap in which no pixel is visited.
    pub fn new() -> (r: CoverageBitmap)
        ensures
            r.wf(),
            r@ == Set::<Pixel>::empty(),
    {
        let r = CoverageBitmap { entries: Vec::new() };
        assert(r@ =~= Set::<Pixel>::empty());
        r
    }

    /// Where a place stands among the stored blocks, or would stand, and
    /// whether a block is stored there.
    fn find(&self, coord: &BlockCoord) -> (r: (usize, bool))
        requires
            self.wf(),
        ensures
            r.0 <= self.entries@.len(),
            r.1 ==> r.0 < self.entries@.len() && self.entries@[r.0 as int].coord == *coord,
            !r.1 ==> forall|i: int|
                0 <= i < self.entries@.len() ==> (#[trigger] self.entries@[i]).coord != *coord,
            forall|i: int|
                0 <= i < r.0 ==> (#[trigger] self.entries@[i]).coord.spec_precedes(*coord),
            forall|i: int|
                r.0 <= i < self.entries@.len() && !(r.1 && i == r.0) ==> coord.spec_precedes(
                    (#[trigger] self.entries@[i]).coord,
                ),
    {
        let mut lo: usize = 0;
        let mut hi: usize = self.entries.len();
        while lo < hi
            invariant
                self.wf(),
                lo <= hi <= self.entries@.len(),
                forall|i: int|
                    0 <= i < lo ==> (#[trigger] self.entries@[i]).coord.spec_precedes(*coord),
                forall|i: int|
                    hi <= i < self.entries@.len() ==> coord.spec_precedes(
                        (#[trigger] self.entries@[i]).coord,
                    ),
            decreases hi - lo,
        {
            let mid: usize = lo + (hi - lo) / 2;
            let here = self.entries[mid].coord;
            if here.precedes(coord) {
                assert forall|i: int| 0 <= i < mid + 1 implies (#[trigger] self.entries@[i])
                    .coord.spec_precedes(*coord) by {
                    if i < mid {
                        assert(self.entries@[i].coord.spec_precedes(self.entries@[mid as int].coord));
                    }
                }
                lo = mid + 1;
            } else if coord.precedes(&here) {
                assert forall|i: int| mid <= i < self.entries@.len() implies coord.spec_precedes(
                    (#[trigger] self.entries@[i]).coord,
                ) by {
                    if mid < i {
                        assert(self.entries@[mid as int].coord.spec_precedes(self.entries@[i].coord));
                    }
                }
                hi = mid;
            } else {
                assert(here == *coord);
                assert forall|i: int| 0 <= i < mid implies (#[trigger] self.entries@[i])
                    .coord.spec_precedes(*coord) by {
                    assert(self.entries@[i].coord.spec_precedes(self.entries@[mid as int].coord));
                }
                assert forall|i: int|
                    mid <= i < self.entries@.len() && i != mid implies coord.spec_precedes(
                    (#[trigger] self.entries@[i]).coord,
                ) by {
                    assert(self.entries@[mid as int].coord.spec_precedes(self.entries@[i].coord));
                }
                return (mid, true);
            }
        }
        proof {
            assert forall|i: int| 0 <= i < self.entries@.len() implies (#[trigger] self.entries@[i])
                .coord != *coord by {
                if i < lo {
                    assert(self.entries@[i].coord.spec_precedes(*coord));
                } else {
                    assert(coord.spec_precedes(self.entries@[i].coord));
                }
            }
        }
        (lo, false)
    }

    /// The block at a place, where one of the bitmap's pixels lies in it; a
    /// place without a visited pixel has no block.
    pub fn block_at(&self, coord: BlockCoord) -> (r: Option<&Block>)
        requires
            self.wf(),
        ensures
            r is Some <==> block_occupied(self@, coord),
            r matches Some(block) ==> block.wf() && block@ == cells_in_block(self@, coord)
                && block@.len() > 0,
    {
        let (idx, found) = self.find(&coord);
        if found {
            proof {
                self.lemma_entry_cells(idx as int);
            }
            Some(&self.entries[idx].block)
        } else {
            proof {
                self.lemma_absent(coord);
            }
            None
        }
    }

    /// Whether a pixel is visited.
    pub fn is_pixel_set(&self, pixel: PixelCoord) -> (r: bool)
        requires
            self.wf(),
        ensures
            r == self@.contains(pixel@),
    {
        let coord = pixel.block();
        match self.block_at(coord) {
            Some(block) => {
                let r = block.is_set(pixel.col_in_block(), pixel.row_in_block());
                proof {
                    let cell = coord.cell_of_pixel(pixel@);
                    assert(is_cell(cell));
                    assert(coord.pixel_of_cell(cell) == pixel@);
                }
                r
            },
            None => {
                proof {
                    if self@.contains(pixel@) {
                        lemma_occupied_by(self@, coord, pixel@);
                    }
                }
                false
            },
        }
    }

    /// Marks a pixel as visited, and says whether it was not visited before.
    pub fn set_pixel(&mut self, pixel: PixelCoord) -> (changed: bool)
        requires
            old(self).wf(),
        ensures
            final(self).wf(),
            final(self)@ == old(self)@.insert(pixel@),
            changed == !old(self)@.contains(pixel@),
    {
        let coord = pixel.block();
        let col = pixel.col_in_block();
        let row = pixel.row_in_block();
        let ghost before = *self;
        let ghost cell = coord.cell_of_pixel(pixel@);
        let (idx, found) = self.find(&coord);
        if found {
            proof {
                before.lemma_entry_cells(idx as int);
                before.entries@[idx as int].block.lemma_view_bounded();
                assert(coord.pixel_of_cell(cell) == pixel@);
                assert(is_cell(cell));
            }
            let changed = self.entries[idx].block.set(col, row);
            proof {
                let old_entry = before.entries@[idx as int];
                let new_entry = self.entries@[idx as int];
                assert(new_entry.coord == coord);
                assert(new_entry.block@ == old_entry.block@.insert(cell));
                assert(self.entries@ == before.entries@.update(idx as int, new_entry));
                assert forall|p: Pixel| self@.contains(p) == before@.insert(pixel@).contains(p) by {
                    if self@.contains(p) {
                        let j = choose|j: int|
                            0 <= j < self.entries@.len() && (#[trigger] self.entries@[j]).has(p);
                        if j == idx {
                            if coord.cell_of_pixel(p) != cell {
                                assert(old_entry.has(p));
                            }
                        } else {
                            assert(before.entries@[j].has(p));
                        }
                    }
                    if before@.insert(pixel@).contains(p) {
                        if p == pixel@ {
                            assert(new_entry.has(p));
                        } else {
                            let j = choose|j: int|
                                0 <= j < before.entries@.len() && (#[trigger] before.entries@[j]).has(
                                    p,
                                );
                            if j == idx {
                                assert(new_entry.has(p));
                            } else {
                                assert(self.entries@[j].has(p));
                            }
                        }
                    }
                }
                assert(self@ =~= before@.insert(pixel@));
                new_entry.block.lemma_view_bounded();
                old_entry.block.lemma_view_bounded();
                assert forall|i: int, j: int| 0 <= i < j < self.entries@.len() implies (
                #[trigger] self.entries@[i]).coord.spec_precedes(
                    (#[trigger] self.entries@[j]).coord,
                ) by {
                    assert(before.entries@[i].coord.spec_precedes(before.entries@[j].coord));
                }
                assert forall|i: int| 0 <= i < self.entries@.len() implies {
                    &&& (#[trigger] self.entries@[i]).block.wf()
                    &&& self.entries@[i].block@.len() > 0
                    &&& self.entries@[i].coord.x < MAX_BLOCKS
                    &&& self.entries@[i].coord.y < MAX_BLOCKS
                } by {
                    if i != idx {
                        assert(self.entries@[i] == before.entries@[i]);
                    }
                }
            }
            changed
        } else {
            proof {
                before.lemma_absent(coord);
                assert(coord.pixel_of_cell(cell) == pixel@);
                assert(is_cell(cell));
                if before@.contains(pixel@) {
                    lemma_occupied_by(before@, coord, pixel@);
                }
            }
            let mut block = Block::new();
            block.set(col, row);
            let entry = Entry { coord, block };
            self.entries.insert(idx, entry);
            proof {
                assert(entry.block@ =~= Set::<Pixel>::empty().insert(cell));
                assert(entry.block@.len() == 1);
                assert(self.entries@ == before.entries@.insert(idx as int, entry));
                assert forall|p: Pixel| self@.contains(p) == before@.insert(pixel@).contains(p) by {
                    if self@.contains(p) {
                        let j = choose|j: int|
                            0 <= j < self.entries@.len() && (#[trigger] self.entries@[j]).has(p);
                        if j < idx {
                            assert(before.entries@[j].has(p));
                        } else if j > idx {
                            assert(before.entries@[j - 1].has(p));
                        }
                    }
                    if before@.insert(pixel@).contains(p) {
                        if p == pixel@ {
                            assert(self.entries@[idx as int].has(p));
                        } else {
                            let j = choose|j: int|
                                0 <= j < before.entries@.len() && (#[trigger] before.entries@[j]).has(
                                    p,
                                );
                            if j < idx {
                                assert(self.entries@[j].has(p));
                            } else {
                                assert(self.entries@[j + 1] == before.entries@[j]);
                                assert(self.entries@[j + 1].has(p));
                            }
                        }
                    }
                }
                assert(self@ =~= before@.insert(pixel@));
                assert forall|i: int, j: int| 0 <= i < j < self.entries@.len() implies (
                #[trigger] self.entries@[i]).coord.spec_precedes(
                    (#[trigger] self.entries@[j]).coord,
                ) by {
                    let a = if i < idx { i } else { i - 1 };
                    let b = if j < idx { j } else { j - 1 };
                    if i != idx && j != idx {
                        assert(before.entries@[a].coord.spec_precedes(before.entries@[b].coord));
                    } else if i == idx {
                        assert(coord.spec_precedes(before.entries@[b].coord));
                    } else {
                        assert(before.entries@[a].coord.spec_precedes(coord));
                    }
                }
                assert forall|i: int| 0 <= i < self.entries@.len() implies {
                    &&& (#[trigger] self.entries@[i]).block.wf()
                    &&& self.entries@[i].block@.len() > 0
                    &&& self.entries@[i].coord.x < MAX_BLOCKS
                    &&& self.entries@[i].coord.y < MAX_BLOCKS
                } by {
                    if i < idx {
                        assert(self.entries@[i] == before.entries@[i]);
                    } else if i > idx {
                        assert(self.entries@[i] == before.entries@[i - 1]);
                    }
                }
            }
            true
        }
    }

    /// The blocks that hold a visited pixel, each with its place, row by row.
    pub fn iterate_blocks(&self) -> (r: Vec<(BlockCoord, &Block)>)
        requires
            self.wf(),
        ensures
            places(r@) == occupied_blocks(self@),
            lists_occupied_blocks(places(r@), self@),
            forall|i: int|
                0 <= i < r@.len() ==> (#[trigger] r@[i]).1.wf() && r@[i].1@ == cells_in_block(
                    self@,
                    r@[i].0,
                ) && r@[i].1@.len() > 0,
    {
        let mut out: Vec<(BlockCoord, &Block)> = Vec::new();
        let mut i: usize = 0;
        while i < self.entries.len()
            invariant
                self.wf(),
                i <= self.entries@.len(),
                out@.len() == i,
                forall|k: int|
                    0 <= k < i ==> (#[trigger] out@[k]).0 == self.entries@[k].coord && *out@[k].1
                        == self.entries@[k].block,
            decreases self.entries@.len() - i,
        {
            out.push((self.entries[i].coord, &self.entries[i].block));
            i = i + 1;
        }
        proof {
            self.lemma_coords_list_blocks();
            assert(places(out@) =~= self.coords());
            lemma_occupied_blocks_unique(self.coords(), self@);
            assert forall|k: int| 0 <= k < out@.len() implies (#[trigger] out@[k]).1.wf()
                && out@[k].1@ == cells_in_block(self@, out@[k].0) && out@[k].1@.len() > 0 by {
                self.lemma_entry_cells(k);
            }
        }
        out
    }

    /// The number of blocks that hold a visited pixel.
    pub fn block_count(&self) -> (r: usize)
        requires
            self.wf(),
        ensures
            r == occupied_blocks(self@).len(),
    {
        proof {
            self.lemma_coords_list_blocks();
            lemma_occupied_blocks_unique(self.coords(), self@);
        }
        self.entries.len()
    }

    /// A bitmap holds finitely many pixels.
    pub proof fn lemma_view_finite(self)
        requires
            self.wf(),
        ensures
            self@.finite(),
    {
    }

    /// The stored places are the occupied blocks, row by row.
    proof fn lemma_coords_list_blocks(self)
        requires
            self.wf(),
        ensures
            lists_occupied_blocks(self.coords(), self@),
            self.coords().len() == self.entries@.len(),
    {
        let coords = self.coords();
        assert forall|i: int| 0 <= i < coords.len() implies block_occupied(
            self@,
            #[trigger] coords[i],
        ) by {
            self.lemma_entry_cells(i);
        }
        assert forall|pixel: Pixel| #[trigger] self@.contains(pixel) implies exists|i: int|
            0 <= i < coords.len() && (#[trigger] coords[i]).holds(pixel) by {
            let j = choose|j: int|
                0 <= j < self.entries@.len() && (#[trigger] self.entries@[j]).has(pixel);
            assert(coords[j].holds(pixel));
        }
        assert forall|i: int, j: int| 0 <= i < j < coords.len() implies (#[trigger] coords[i])
            .spec_precedes(#[trigger] coords[j]) by {
            assert(self.entries@[i].coord.spec_precedes(self.entries@[j].coord));
        }
    }
}

} // verus!
