//! One block of the coverage bitmap: a dense square grid of bits.

use vstd::prelude::*;
use crate::coverage::grid::{block_cells, is_cell, lemma_block_cells_finite, Pixel, BLOCK_PIXELS,
    BLOCK_WIDTH};

verus! {

/// Whether the bit for a column is set in the word that holds a row.
pub open spec fn bit_is_set(word: u64, col: u64) -> bool {
    (word >> col) & 1 == 1
}

/// No bit is set in the zero word.
proof fn lemma_zero_word(col: u64)
    requires
        col < 64,
    ensures
        !bit_is_set(0, col),
{
    assert((0u64 >> col) & 1 == 0) by (bit_vector)
        requires
            col < 64,
    ;
}

/// Setting the bit of one column sets that bit and leaves the others alone.
proof fn lemma_set_bit(word: u64, col: u64, other: u64)
    requires
        col < 64,
        other < 64,
    ensures
        bit_is_set(word | (1u64 << col), other) == (other == col || bit_is_set(word, other)),
{
    assert((((word | (1u64 << col)) >> other) & 1 == 1) == (other == col || (word >> other) & 1
        == 1)) by (bit_vector)
        requires
            col < 64,
            other < 64,
    ;
}

/// A square grid of `BLOCK_WIDTH` by `BLOCK_WIDTH` bits, one for each pixel
/// of the block, together with the number of bits that are set.
#[derive(Clone, Debug, PartialEq, Eq)]
pub struct Block {
    rows: Vec<u64>,
    count: u32,
}

impl View for Block {
    type V = Set<Pixel>;

    /// The cells whose bit is set.
    closed spec fn view(&self) -> Set<Pixel> {
        Set::new(
            |cell: Pixel|
                is_cell(cell) && 0 <= cell.y < self.rows@.len() && bit_is_set(
                    self.rows@[cell.y],
                    cell.x as u64,
                ),
        )
    }
}

impl Block {
    /// A block is well formed when it has a word for every row and its count
    /// is the number of bits that are set.
    pub closed spec fn wf(self) -> bool {
        &&& self.rows@.len() == BLOCK_WIDTH
        &&& self.count == self@.len()
    }

    /// The cells of a row whose bit is set.
    pub open spec fn row_cells(cells: Set<Pixel>, row: int) -> Set<Pixel> {
        cells.filter(|cell: Pixel| cell.y == row)
    }

    /// The set cells in the rows above a row.
    pub open spec fn cells_above(cells: Set<Pixel>, row: int) -> Set<Pixel> {
        cells.filter(|cell: Pixel| cell.y < row)
    }

    /// The cells of a row that lie left of a column and whose bit is set.
    pub open spec fn row_cells_before(cells: Set<Pixel>, row: int, col: int) -> Set<Pixel> {
        cells.filter(|cell: Pixel| cell.y == row && cell.x < col)
    }

    /// The set cells of a block are cells, finitely many, and no more than
    /// a block has.
    pub proof fn lemma_view_bounded(self)
        ensures
            self@.subset_of(block_cells()),
            self@.finite(),
            self@.len() <= BLOCK_PIXELS,
            forall|cell: Pixel| self@.contains(cell) ==> is_cell(cell),
    {
        lemma_block_cells_finite();
        vstd::set_lib::lemma_len_subset(self@, block_cells());
    }

    /// The block in which no bit is set.
    pub fn new() -> (r: Block)
        ensures
            r.wf(),
            r@ == Set::<Pixel>::empty(),
    {
        let rows: Vec<u64> = vec![0u64; 64];
        let block = Block { rows, count: 0 };
        proof {
            assert forall|cell: Pixel| !block@.contains(cell) by {
                if is_cell(cell) {
                    lemma_zero_word(cell.x as u64);
                }
            }
            assert(block@ =~= Set::<Pixel>::empty());
        }
        block
    }

    /// Whether the bit at a column and row is set. Outside the block no bit
    /// is set.
    pub fn is_set(&self, col: u32, row: u32) -> (r: bool)
        requires
            self.wf(),
        ensures
            r == self@.contains(Pixel { x: col as int, y: row as int }),
    {
        if col >= BLOCK_WIDTH || row >= BLOCK_WIDTH {
            return false;
        }
        (self.rows[row as usize] >> (col as u64)) & 1 == 1
    }

    /// Sets the bit at a column and row, and says whether that changed the
    /// block: whether the place lies in the block and its bit was not set.
    pub fn set(&mut self, col: u32, row: u32) -> (changed: bool)
        requires
            old(self).wf(),
        ensures
            final(self).wf(),
            final(self)@ == (if col < BLOCK_WIDTH && row < BLOCK_WIDTH {
                old(self)@.insert(Pixel { x: col as int, y: row as int })
            } else {
                old(self)@
            }),
            changed == (col < BLOCK_WIDTH && row < BLOCK_WIDTH && !old(self)@.contains(
                Pixel { x: col as int, y: row as int },
            )),
    {
        if col >= BLOCK_WIDTH || row >= BLOCK_WIDTH {
            return false;
        }
        let word: u64 = self.rows[row as usize];
        if (word >> (col as u64)) & 1 == 1 {
            assert(self@.insert(Pixel { x: col as int, y: row as int }) =~= self@);
            return false;
        }
        let ghost before = *self;
        proof {
            before.lemma_view_bounded();
        }
        let updated: u64 = word | (1u64 << (col as u64));
        self.rows.set(row as usize, updated);
        proof {
            let target = Pixel { x: col as int, y: row as int };
            assert forall|cell: Pixel| self@.contains(cell) == before@.insert(target).contains(
                cell,
            ) by {
                if is_cell(cell) {
                    if cell.y == row {
                        lemma_set_bit(word, col as u64, cell.x as u64);
                    }
                }
            }
            assert(self@ =~= before@.insert(target));
        }
        self.count = self.count + 1;
        true
    }

    /// The number of bits that are set, which the block keeps at hand.
    pub fn popcount(&self) -> (r: u32)
        requires
            self.wf(),
        ensures
            r == self@.len(),
    {
        self.count
    }

    /// The number of bits that are set, counted bit by bit. It is the number
    /// that `popcount` keeps at hand.
    pub fn count_bits(&self) -> (r: u32)
        requires
            self.wf(),
        ensures
            r == self@.len(),
    {
        proof {
            self.lemma_view_bounded();
            assert(Self::cells_above(self@, 0) =~= Set::<Pixel>::empty());
        }
        let mut n: u32 = 0;
        let mut row: u32 = 0;
        while row < BLOCK_WIDTH
            invariant
                self.wf(),
                self@.finite(),
                row <= BLOCK_WIDTH,
                n <= row * BLOCK_WIDTH,
                n == Self::cells_above(self@, row as int).len(),
                Self::cells_above(self@, row as int).finite(),
            decreases BLOCK_WIDTH - row,
        {
            let in_row = self.row_popcount(row);
            proof {
                let above = Self::cells_above(self@, row as int);
                let here = Self::row_cells(self@, row as int);
                self@.lemma_len_filter(|cell: Pixel| cell.y == row as int);
                assert(above.disjoint(here));
                vstd::set_lib::lemma_set_disjoint_lens(above, here);
                assert(Self::cells_above(self@, row as int + 1) =~= above + here);
            }
            n = n + in_row;
            row = row + 1;
        }
        proof {
            assert(Self::cells_above(self@, BLOCK_WIDTH as int) =~= self@);
        }
        n
    }

    /// Whether no bit is set.
    pub fn is_empty(&self) -> (r: bool)
        requires
            self.wf(),
        ensures
            r == (self@ == Set::<Pixel>::empty()),
    {
        proof {
            self.lemma_view_bounded();
            if self@.len() == 0 {
                self@.lemma_len0_is_empty();
                assert(self@ =~= Set::<Pixel>::empty());
            }
        }
        self.count == 0
    }

    /// The number of bits that are set in a row. Outside the block no bit is
    /// set.
    pub fn row_popcount(&self, row: u32) -> (r: u32)
        requires
            self.wf(),
        ensures
            r == Self::row_cells(self@, row as int).len(),
            r <= BLOCK_WIDTH,
    {
        proof {
            self.lemma_view_bounded();
        }
        if row >= BLOCK_WIDTH {
            proof {
                assert(Self::row_cells(self@, row as int) =~= Set::<Pixel>::empty());
            }
            return 0;
        }
        let word: u64 = self.rows[row as usize];
        let mut n: u32 = 0;
        let mut col: u32 = 0;
        proof {
            assert(Self::row_cells_before(self@, row as int, 0) =~= Set::<Pixel>::empty());
        }
        while col < BLOCK_WIDTH
            invariant
                self.wf(),
                self@.finite(),
                row < BLOCK_WIDTH,
                word == self.rows@[row as int],
                col <= BLOCK_WIDTH,
                n <= col,
                n == Self::row_cells_before(self@, row as int, col as int).len(),
                Self::row_cells_before(self@, row as int, col as int).finite(),
            decreases BLOCK_WIDTH - col,
        {
            let ghost seen = Self::row_cells_before(self@, row as int, col as int);
            let ghost next = Self::row_cells_before(self@, row as int, col as int + 1);
            let ghost here = Pixel { x: col as int, y: row as int };
            if (word >> (col as u64)) & 1 == 1 {
                proof {
                    assert(self@.contains(here));
                    assert(next =~= seen.insert(here));
                }
                n = n + 1;
            } else {
                proof {
                    assert(!self@.contains(here));
                    assert(next =~= seen);
                }
            }
            col = col + 1;
        }
        proof {
            assert(Self::row_cells_before(self@, row as int, BLOCK_WIDTH as int)
                =~= Self::row_cells(self@, row as int));
        }
        n
    }
}

} // verus!
