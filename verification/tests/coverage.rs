use memolanes_core::coverage::bitmap::CoverageBitmap;
use memolanes_core::coverage::block::Block;
use memolanes_core::coverage::grid::{
    BlockCoord, PixelCoord, BLOCK_PIXELS, BLOCK_WIDTH, GRID_BLOCKS, GRID_WIDTH,
};

fn bitmap_of(pixels: &[(u32, u32)]) -> CoverageBitmap {
    let mut bitmap = CoverageBitmap::new();
    for &(x, y) in pixels {
        bitmap.set_pixel(PixelCoord { x, y });
    }
    bitmap
}

#[test]
fn grid_constants_agree() {
    assert_eq!(BLOCK_WIDTH, 64);
    assert_eq!(BLOCK_PIXELS, BLOCK_WIDTH * BLOCK_WIDTH);
    assert_eq!(GRID_BLOCKS, 512 * 128);
    assert_eq!(GRID_WIDTH, GRID_BLOCKS * BLOCK_WIDTH);
}

#[test]
fn pixel_splits_into_block_and_cell() {
    let pixel = PixelCoord { x: 130, y: 4_194_303 };
    assert_eq!(pixel.block(), BlockCoord { x: 2, y: 65_535 });
    assert_eq!(pixel.col_in_block(), 2);
    assert_eq!(pixel.row_in_block(), 63);
    assert_eq!(pixel.global_row(), 4_194_303);
    assert!(pixel.in_tiling_range());
    assert_eq!(
        PixelCoord::of_block(BlockCoord { x: 2, y: 65_535 }, 2, 63),
        Some(pixel)
    );
}

#[test]
fn of_block_rejects_what_is_no_pixel() {
    let block = BlockCoord { x: 1, y: 1 };
    assert_eq!(PixelCoord::of_block(block, 64, 0), None);
    assert_eq!(PixelCoord::of_block(block, 0, 64), None);
    assert_eq!(
        PixelCoord::of_block(block, 63, 63),
        Some(PixelCoord { x: 127, y: 127 })
    );
    let last = BlockCoord { x: 67_108_863, y: 67_108_863 };
    assert_eq!(
        PixelCoord::of_block(last, 63, 63),
        Some(PixelCoord { x: u32::MAX, y: u32::MAX })
    );
    assert_eq!(
        PixelCoord::of_block(BlockCoord { x: 67_108_864, y: 0 }, 0, 0),
        None
    );
    assert_eq!(
        PixelCoord::of_block(BlockCoord { x: 0, y: u32::MAX }, 0, 0),
        None
    );
}

#[test]
fn tiling_range_edges() {
    assert!(PixelCoord { x: 0, y: 0 }.in_tiling_range());
    assert!(PixelCoord { x: GRID_WIDTH - 1, y: GRID_WIDTH - 1 }.in_tiling_range());
    assert!(!PixelCoord { x: GRID_WIDTH, y: 0 }.in_tiling_range());
    assert!(!PixelCoord { x: 0, y: GRID_WIDTH }.in_tiling_range());
    assert!(BlockCoord { x: GRID_BLOCKS - 1, y: GRID_BLOCKS - 1 }.in_tiling_range());
    assert!(!BlockCoord { x: GRID_BLOCKS, y: 0 }.in_tiling_range());
    assert!(!BlockCoord { x: 0, y: GRID_BLOCKS }.in_tiling_range());
}

#[test]
fn blocks_are_ordered_row_by_row() {
    let a = BlockCoord { x: 5, y: 1 };
    let b = BlockCoord { x: 0, y: 2 };
    let c = BlockCoord { x: 6, y: 1 };
    assert!(a.precedes(&b));
    assert!(!b.precedes(&a));
    assert!(a.precedes(&c));
    assert!(!c.precedes(&a));
    assert!(!a.precedes(&a));
}

#[test]
fn new_block_is_empty() {
    let block = Block::new();
    assert!(block.is_empty());
    assert_eq!(block.popcount(), 0);
    assert_eq!(block.count_bits(), 0);
    for row in 0..BLOCK_WIDTH {
        assert_eq!(block.row_popcount(row), 0);
        for col in 0..BLOCK_WIDTH {
            assert!(!block.is_set(col, row));
        }
    }
}

#[test]
fn block_set_and_count() {
    let mut block = Block::new();
    assert!(block.set(0, 0));
    assert!(block.set(63, 0));
    assert!(block.set(63, 63));
    assert!(block.set(5, 7));
    assert!(!block.set(5, 7));
    assert!(!block.is_empty());
    assert_eq!(block.popcount(), 4);
    assert_eq!(block.count_bits(), 4);
    assert_eq!(block.row_popcount(0), 2);
    assert_eq!(block.row_popcount(7), 1);
    assert_eq!(block.row_popcount(63), 1);
    assert_eq!(block.row_popcount(1), 0);
    assert!(block.is_set(0, 0));
    assert!(block.is_set(63, 0));
    assert!(block.is_set(63, 63));
    assert!(block.is_set(5, 7));
    assert!(!block.is_set(7, 5));
    assert!(!block.is_set(1, 0));
}

#[test]
fn block_ignores_places_outside() {
    let mut block = Block::new();
    assert!(!block.set(64, 0));
    assert!(!block.set(0, 64));
    assert!(!block.set(u32::MAX, u32::MAX));
    assert!(block.is_empty());
    assert!(!block.is_set(64, 0));
    assert!(!block.is_set(0, 64));
    assert_eq!(block.row_popcount(64), 0);
    assert_eq!(block.row_popcount(u32::MAX), 0);
}

#[test]
fn full_block_counts_every_pixel() {
    let mut block = Block::new();
    for row in 0..BLOCK_WIDTH {
        for col in 0..BLOCK_WIDTH {
            assert!(block.set(col, row));
        }
    }
    assert_eq!(block.popcount(), BLOCK_PIXELS);
    assert_eq!(block.count_bits(), BLOCK_PIXELS);
    for row in 0..BLOCK_WIDTH {
        assert_eq!(block.row_popcount(row), BLOCK_WIDTH);
    }
}

#[test]
fn new_bitmap_has_no_block() {
    let bitmap = CoverageBitmap::new();
    assert_eq!(bitmap.block_count(), 0);
    assert!(bitmap.iterate_blocks().is_empty());
    assert!(bitmap.block_at(BlockCoord { x: 0, y: 0 }).is_none());
    assert!(!bitmap.is_pixel_set(PixelCoord { x: 0, y: 0 }));
}

#[test]
fn set_pixel_says_whether_it_was_new() {
    let mut bitmap = CoverageBitmap::new();
    assert!(bitmap.set_pixel(PixelCoord { x: 10, y: 20 }));
    assert!(!bitmap.set_pixel(PixelCoord { x: 10, y: 20 }));
    assert!(bitmap.set_pixel(PixelCoord { x: 11, y: 20 }));
    assert!(bitmap.is_pixel_set(PixelCoord { x: 10, y: 20 }));
    assert!(bitmap.is_pixel_set(PixelCoord { x: 11, y: 20 }));
    assert!(!bitmap.is_pixel_set(PixelCoord { x: 20, y: 10 }));
    assert!(!bitmap.is_pixel_set(PixelCoord { x: 74, y: 20 }));
    assert_eq!(bitmap.block_count(), 1);
}

#[test]
fn blocks_are_stored_only_where_a_pixel_is() {
    let bitmap = bitmap_of(&[(0, 0), (1, 0), (0, 1), (64, 0), (0, 64), (1000, 70)]);
    assert_eq!(bitmap.block_count(), 4);
    let corner = bitmap.block_at(BlockCoord { x: 0, y: 0 }).unwrap();
    assert_eq!(corner.popcount(), 3);
    assert!(corner.is_set(0, 0));
    assert!(corner.is_set(1, 0));
    assert!(corner.is_set(0, 1));
    assert!(!corner.is_set(1, 1));
    let right = bitmap.block_at(BlockCoord { x: 1, y: 0 }).unwrap();
    assert_eq!(right.popcount(), 1);
    assert!(right.is_set(0, 0));
    let far = bitmap.block_at(BlockCoord { x: 15, y: 1 }).unwrap();
    assert_eq!(far.popcount(), 1);
    assert!(far.is_set(40, 6));
    assert!(bitmap.block_at(BlockCoord { x: 1, y: 1 }).is_none());
    assert!(bitmap.block_at(BlockCoord { x: 2, y: 0 }).is_none());
    for (_, block) in bitmap.iterate_blocks() {
        assert!(!block.is_empty());
    }
}

#[test]
fn blocks_are_listed_row_by_row_whatever_the_order_of_arrival() {
    let pixels = [(1000u32, 70u32), (0, 64), (64, 0), (0, 0), (128, 64), (64, 64)];
    let expected = vec![
        BlockCoord { x: 0, y: 0 },
        BlockCoord { x: 1, y: 0 },
        BlockCoord { x: 0, y: 1 },
        BlockCoord { x: 1, y: 1 },
        BlockCoord { x: 2, y: 1 },
        BlockCoord { x: 15, y: 1 },
    ];
    let forward = bitmap_of(&pixels);
    let mut reversed = pixels;
    reversed.reverse();
    let backward = bitmap_of(&reversed);
    for bitmap in [&forward, &backward] {
        let places: Vec<BlockCoord> = bitmap
            .iterate_blocks()
            .into_iter()
            .map(|(coord, _)| coord)
            .collect();
        assert_eq!(places, expected);
    }
    assert_eq!(forward, backward);
}

#[test]
fn bitmap_holds_pixels_at_the_edges_of_the_coordinates() {
    let bitmap = bitmap_of(&[(u32::MAX, u32::MAX), (0, u32::MAX), (u32::MAX, 0)]);
    assert_eq!(bitmap.block_count(), 3);
    assert!(bitmap.is_pixel_set(PixelCoord { x: u32::MAX, y: u32::MAX }));
    assert!(bitmap.is_pixel_set(PixelCoord { x: 0, y: u32::MAX }));
    assert!(bitmap.is_pixel_set(PixelCoord { x: u32::MAX, y: 0 }));
    assert!(!bitmap.is_pixel_set(PixelCoord { x: u32::MAX - 1, y: u32::MAX }));
    let last = bitmap
        .block_at(BlockCoord { x: 67_108_863, y: 67_108_863 })
        .unwrap();
    assert!(last.is_set(63, 63));
    assert_eq!(last.popcount(), 1);
}

#[test]
fn many_pixels_in_many_blocks() {
    let mut bitmap = CoverageBitmap::new();
    let mut expected = 0u32;
    for i in 0..2000u32 {
        let x = (i * 7919) % 5000;
        let y = (i * 104_729) % 3000;
        if bitmap.set_pixel(PixelCoord { x, y }) {
            expected += 1;
        }
    }
    let mut counted = 0;
    for (coord, block) in bitmap.iterate_blocks() {
        assert_eq!(block.popcount(), block.count_bits());
        counted += block.popcount();
        for row in 0..BLOCK_WIDTH {
            for col in 0..BLOCK_WIDTH {
                let pixel = PixelCoord::of_block(coord, col, row).unwrap();
                assert_eq!(block.is_set(col, row), bitmap.is_pixel_set(pixel));
            }
        }
    }
    assert_eq!(counted, expected);
    for i in 0..2000u32 {
        let x = (i * 7919) % 5000;
        let y = (i * 104_729) % 3000;
        assert!(bitmap.is_pixel_set(PixelCoord { x, y }));
    }
}
