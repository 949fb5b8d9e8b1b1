use memolanes_core::area::{
    check_geometry, tallies, Axis, GeometryError, Granularity, Strategy, Tally,
};
use memolanes_core::coverage::bitmap::CoverageBitmap;
use memolanes_core::coverage::grid::{BlockCoord, PixelCoord, GRID_WIDTH};

const STRATEGIES: [Strategy; 5] = [
    Strategy::Exact,
    Strategy::AxisOnly(Axis::Width),
    Strategy::AxisOnly(Axis::Height),
    Strategy::BlockApprox,
    Strategy::BlockOnly,
];

fn bitmap_of(pixels: &[(u32, u32)]) -> CoverageBitmap {
    let mut bitmap = CoverageBitmap::new();
    for &(x, y) in pixels {
        bitmap.set_pixel(PixelCoord { x, y });
    }
    bitmap
}

fn tallied_pixels(list: &[Tally]) -> u64 {
    list.iter().map(|tally| u64::from(tally.pixels)).sum()
}

/// An area model in whole numbers, for tests: rows nearer the equator of the
/// map weigh more.
fn weight(row: u32) -> u64 {
    let middle = GRID_WIDTH / 2;
    let distance = if row < middle { middle - row } else { row - middle };
    u64::from(middle - distance) + 1
}

fn weighed(list: &[Tally]) -> u64 {
    list.iter()
        .map(|tally| u64::from(tally.pixels) * weight(tally.row))
        .sum()
}

#[test]
fn granularity_of_each_strategy() {
    assert_eq!(Strategy::Exact.granularity(), Granularity::PixelRows);
    assert_eq!(
        Strategy::AxisOnly(Axis::Width).granularity(),
        Granularity::PixelRows
    );
    assert_eq!(
        Strategy::AxisOnly(Axis::Height).granularity(),
        Granularity::PixelRows
    );
    assert_eq!(Strategy::BlockApprox.granularity(), Granularity::Blocks);
    assert_eq!(Strategy::BlockOnly.granularity(), Granularity::Blocks);
}

#[test]
fn empty_bitmap_has_no_tallies() {
    let bitmap = CoverageBitmap::new();
    assert_eq!(check_geometry(&bitmap), Ok(()));
    for strategy in STRATEGIES {
        assert_eq!(tallies(&bitmap, strategy), Ok(vec![]));
    }
}

#[test]
fn exact_tallies_count_each_row_of_each_block() {
    let bitmap = bitmap_of(&[(0, 0), (1, 0), (0, 1), (64, 0), (0, 64)]);
    let expected = vec![
        Tally { row: 0, pixels: 2 },
        Tally { row: 1, pixels: 1 },
        Tally { row: 0, pixels: 1 },
        Tally { row: 64, pixels: 1 },
    ];
    assert_eq!(tallies(&bitmap, Strategy::Exact), Ok(expected.clone()));
    assert_eq!(
        tallies(&bitmap, Strategy::AxisOnly(Axis::Width)),
        Ok(expected.clone())
    );
    assert_eq!(
        tallies(&bitmap, Strategy::AxisOnly(Axis::Height)),
        Ok(expected)
    );
}

#[test]
fn block_tallies_count_each_block_at_its_middle_row() {
    let bitmap = bitmap_of(&[(0, 0), (1, 0), (0, 1), (64, 0), (0, 64)]);
    let expected = vec![
        Tally { row: 32, pixels: 3 },
        Tally { row: 32, pixels: 1 },
        Tally { row: 96, pixels: 1 },
    ];
    assert_eq!(tallies(&bitmap, Strategy::BlockApprox), Ok(expected.clone()));
    assert_eq!(tallies(&bitmap, Strategy::BlockOnly), Ok(expected));
}

#[test]
fn tallies_at_the_last_block_of_the_map() {
    let bitmap = bitmap_of(&[(GRID_WIDTH - 1, GRID_WIDTH - 1), (GRID_WIDTH - 64, GRID_WIDTH - 1)]);
    assert_eq!(
        tallies(&bitmap, Strategy::Exact),
        Ok(vec![Tally { row: GRID_WIDTH - 1, pixels: 2 }])
    );
    assert_eq!(
        tallies(&bitmap, Strategy::BlockOnly),
        Ok(vec![Tally { row: GRID_WIDTH - 32, pixels: 2 }])
    );
}

#[test]
fn tallies_do_not_depend_on_the_order_of_arrival() {
    let pixels = [(5u32, 5u32), (700, 3), (5, 6), (64, 5), (3000, 3000), (6, 5)];
    let forward = bitmap_of(&pixels);
    let mut reversed = pixels;
    reversed.reverse();
    let backward = bitmap_of(&reversed);
    for strategy in STRATEGIES {
        assert_eq!(tallies(&forward, strategy), tallies(&backward, strategy));
        assert_eq!(tallies(&forward, strategy), tallies(&forward, strategy));
    }
}

#[test]
fn every_strategy_tallies_every_pixel_once() {
    let mut bitmap = CoverageBitmap::new();
    let mut expected = 0u64;
    for i in 0..3000u32 {
        let x = (i * 7919) % 9000;
        let y = (i * 104_729) % 7000;
        if bitmap.set_pixel(PixelCoord { x, y }) {
            expected += 1;
        }
    }
    for strategy in STRATEGIES {
        let list = tallies(&bitmap, strategy).unwrap();
        assert_eq!(tallied_pixels(&list), expected);
        assert!(list.iter().all(|tally| tally.pixels > 0));
    }
}

#[test]
fn a_pixel_off_the_map_is_a_geometry_error() {
    let east = bitmap_of(&[(1, 1), (GRID_WIDTH, 5)]);
    let expected = GeometryError { block: BlockCoord { x: 65_536, y: 0 } };
    assert_eq!(check_geometry(&east), Err(expected));
    for strategy in STRATEGIES {
        assert_eq!(tallies(&east, strategy), Err(expected));
    }
    let south = bitmap_of(&[(70, GRID_WIDTH + 64)]);
    assert_eq!(
        check_geometry(&south),
        Err(GeometryError { block: BlockCoord { x: 1, y: 65_537 } })
    );
}

#[test]
fn the_first_block_off_the_map_is_reported() {
    let bitmap = bitmap_of(&[
        (GRID_WIDTH + 640, 700),
        (3, GRID_WIDTH),
        (GRID_WIDTH, 130),
        (GRID_WIDTH - 1, 130),
        (0, 0),
    ]);
    assert_eq!(
        check_geometry(&bitmap),
        Err(GeometryError { block: BlockCoord { x: 65_536, y: 2 } })
    );
}

#[test]
fn the_last_pixel_of_the_map_is_on_it() {
    let bitmap = bitmap_of(&[(GRID_WIDTH - 1, GRID_WIDTH - 1), (0, 0)]);
    assert_eq!(check_geometry(&bitmap), Ok(()));
}

#[test]
fn more_pixels_never_weigh_less() {
    let small = bitmap_of(&[(5, 5), (700, 3), (5, 6)]);
    let large = bitmap_of(&[(5, 5), (700, 3), (5, 6), (64, 5), (3000, 3000), (6, 5)]);
    for strategy in STRATEGIES {
        let less = tallies(&small, strategy).unwrap();
        let more = tallies(&large, strategy).unwrap();
        assert!(tallied_pixels(&less) <= tallied_pixels(&more));
        assert!(weighed(&less) <= weighed(&more));
    }
}

#[test]
fn disjoint_bitmaps_add_up() {
    let a = [(5u32, 5u32), (700, 3), (5, 6), (100, 2_000_000)];
    let b = [(64u32, 5u32), (3000, 3000), (6, 5), (101, 2_000_000)];
    let mut both = a.to_vec();
    both.extend_from_slice(&b);
    for strategy in STRATEGIES {
        let in_a = tallies(&bitmap_of(&a), strategy).unwrap();
        let in_b = tallies(&bitmap_of(&b), strategy).unwrap();
        let in_both = tallies(&bitmap_of(&both), strategy).unwrap();
        assert_eq!(
            tallied_pixels(&in_both),
            tallied_pixels(&in_a) + tallied_pixels(&in_b)
        );
        assert_eq!(weighed(&in_both), weighed(&in_a) + weighed(&in_b));
    }
    let exact = tallies(&bitmap_of(&both), Strategy::Exact).unwrap();
    assert_eq!(
        weighed(&exact),
        weight(5) * 3 + weight(3) + weight(6) + weight(2_000_000) * 2 + weight(3000)
    );
}
