//! What holds of the tallies of every bitmap, and of every area that is
//! computed from them in exact arithmetic.
//!
//! An area model gives each row of the map the area of one pixel in that row,
//! here as a natural number of some small unit. The area of a set of pixels
//! under a granularity is then the sum, over the groups of that granularity,
//! of the number of pixels in the group times the area at the group's row.

use vstd::prelude::*;
use crate::area::{group_limit, group_of, group_pixels, in_tiling_range, lemma_block_group,
    lemma_row_group, model_row, spec_tallies, tallies_below, Granularity, Strategy, Tally};
use crate::coverage::bitmap::cells_in_block;
use crate::coverage::block::Block;
use crate::coverage::grid::{block_cells, lemma_block_cells_finite, BlockCoord, Pixel};

verus! {

/// The area of the pixels in the groups below a number.
pub open spec fn area_below(
    pixels: Set<Pixel>,
    granularity: Granularity,
    model: spec_fn(int) -> nat,
    limit: nat,
) -> nat
    decreases limit,
{
    if limit == 0 {
        0
    } else {
        let group = (limit - 1) as int;
        area_below(pixels, granularity, model, (limit - 1) as nat) + group_pixels(
            pixels,
            granularity,
            group,
        ).len() * model(model_row(granularity, group))
    }
}

/// The area of a set of pixels under a strategy and an area model: that of
/// all the groups of the strategy's granularity.
pub open spec fn total_area(pixels: Set<Pixel>, strategy: Strategy, model: spec_fn(int) -> nat) -> nat {
    area_below(
        pixels,
        strategy.spec_granularity(),
        model,
        group_limit(strategy.spec_granularity()),
    )
}

/// The area that a list of tallies adds up to under an area model.
pub open spec fn tallied_area(list: Seq<Tally>, model: spec_fn(int) -> nat) -> nat
    decreases list.len(),
{
    if list.len() == 0 {
        0
    } else {
        tallied_area(list.drop_last(), model) + (list.last().pixels as nat) * model(
            list.last().row as int,
        )
    }
}

/// The area model under which every pixel has area one, so that an area is a
/// number of pixels.
pub open spec fn unit_model() -> spec_fn(int) -> nat {
    |row: int| 1nat
}

/// The pixels of a set whose group lies below a number.
pub open spec fn pixels_below(pixels: Set<Pixel>, granularity: Granularity, limit: int) -> Set<
    Pixel,
> {
    pixels.filter(|pixel: Pixel| 0 <= group_of(granularity, pixel) < limit)
}

/// The block of the map with a given number.
pub open spec fn block_of_number(number: int) -> BlockCoord {
    BlockCoord { x: (number % 65_536) as u32, y: (number / 65_536) as u32 }
}

/// On the map a group holds no more pixels than a block has, and its row is
/// a row of the map.
pub proof fn lemma_group_bounded(pixels: Set<Pixel>, granularity: Granularity, group: int)
    requires
        in_tiling_range(pixels),
        0 <= group < group_limit(granularity),
    ensures
        group_pixels(pixels, granularity, group).finite(),
        group_pixels(pixels, granularity, group).len() <= 4096,
        0 <= model_row(granularity, group) < 4_194_304,
{
    lemma_block_cells_finite();
    match granularity {
        Granularity::Blocks => {
            let coord = block_of_number(group);
            lemma_block_group(pixels, coord);
            vstd::set_lib::lemma_len_subset(cells_in_block(pixels, coord), block_cells());
        },
        Granularity::PixelRows => {
            let coord = block_of_number(group / 64);
            let row = group % 64;
            lemma_row_group(pixels, coord, row);
            vstd::set_lib::lemma_len_subset(
                Block::row_cells(cells_in_block(pixels, coord), row),
                block_cells(),
            );
        },
    }
}

/// The tallies of a bitmap on the map add up to its area: what is computed
/// from the tallies is the area of the pixels.
pub proof fn lemma_tallies_add_up(
    pixels: Set<Pixel>,
    granularity: Granularity,
    model: spec_fn(int) -> nat,
    limit: nat,
)
    requires
        in_tiling_range(pixels),
        limit <= group_limit(granularity),
    ensures
        tallied_area(tallies_below(pixels, granularity, limit), model) == area_below(
            pixels,
            granularity,
            model,
            limit,
        ),
    decreases limit,
{
    if limit > 0 {
        let group = (limit - 1) as int;
        let below = tallies_below(pixels, granularity, (limit - 1) as nat);
        let count = group_pixels(pixels, granularity, group).len();
        lemma_tallies_add_up(pixels, granularity, model, (limit - 1) as nat);
        lemma_group_bounded(pixels, granularity, group);
        if count > 0 {
            let tally = Tally { row: model_row(granularity, group) as u32, pixels: count as u32 };
            assert(below.push(tally).drop_last() =~= below);
            assert(below.push(tally).last() == tally);
        } else {
            assert(count * model(model_row(granularity, group)) == 0) by (nonlinear_arith)
                requires
                    count == 0,
            ;
        }
    }
}

/// No pixels, no area: the empty set has no tallies, and its area is zero
/// under every area model.
pub proof fn lemma_empty_has_no_area(
    granularity: Granularity,
    model: spec_fn(int) -> nat,
    limit: nat,
)
    ensures
        tallies_below(Set::<Pixel>::empty(), granularity, limit) == Seq::<Tally>::empty(),
        area_below(Set::<Pixel>::empty(), granularity, model, limit) == 0,
    decreases limit,
{
    if limit > 0 {
        let group = (limit - 1) as int;
        lemma_empty_has_no_area(granularity, model, (limit - 1) as nat);
        assert(group_pixels(Set::<Pixel>::empty(), granularity, group) =~= Set::<Pixel>::empty());
        assert(0 * model(model_row(granularity, group)) == 0) by (nonlinear_arith);
    }
}

/// A group of a set of pixels holds no more pixels than the same group of a
/// larger set.
pub proof fn lemma_group_monotone(
    smaller: Set<Pixel>,
    larger: Set<Pixel>,
    granularity: Granularity,
    group: int,
)
    requires
        smaller.subset_of(larger),
        larger.finite(),
    ensures
        group_pixels(smaller, granularity, group).len() <= group_pixels(
            larger,
            granularity,
            group,
        ).len(),
{
    larger.lemma_len_filter(|pixel: Pixel| group_of(granularity, pixel) == group);
    vstd::set_lib::lemma_len_subset(
        group_pixels(smaller, granularity, group),
        group_pixels(larger, granularity, group),
    );
}

/// More pixels never cover less: where one set of pixels is part of another,
/// its area is at most the other's, under every granularity and area model.
pub proof fn lemma_area_monotone(
    smaller: Set<Pixel>,
    larger: Set<Pixel>,
    granularity: Granularity,
    model: spec_fn(int) -> nat,
    limit: nat,
)
    requires
        smaller.subset_of(larger),
        larger.finite(),
    ensures
        area_below(smaller, granularity, model, limit) <= area_below(
            larger,
            granularity,
            model,
            limit,
        ),
    decreases limit,
{
    if limit > 0 {
        let group = (limit - 1) as int;
        lemma_area_monotone(smaller, larger, granularity, model, (limit - 1) as nat);
        lemma_group_monotone(smaller, larger, granularity, group);
        let less = group_pixels(smaller, granularity, group).len();
        let more = group_pixels(larger, granularity, group).len();
        let area = model(model_row(granularity, group));
        assert(less * area <= more * area) by (nonlinear_arith)
            requires
                less <= more,
                0 <= area,
        ;
    }
}

/// A group of the union of two sets of pixels that share no pixel holds as
/// many pixels as the same group of the one and of the other together.
pub proof fn lemma_group_additive(
    a: Set<Pixel>,
    b: Set<Pixel>,
    granularity: Granularity,
    group: int,
)
    requires
        a.finite(),
        b.finite(),
        a.disjoint(b),
    ensures
        group_pixels(a.union(b), granularity, group).len() == group_pixels(
            a,
            granularity,
            group,
        ).len() + group_pixels(b, granularity, group).len(),
{
    let in_a = group_pixels(a, granularity, group);
    let in_b = group_pixels(b, granularity, group);
    a.lemma_len_filter(|pixel: Pixel| group_of(granularity, pixel) == group);
    b.lemma_len_filter(|pixel: Pixel| group_of(granularity, pixel) == group);
    assert(in_a.disjoint(in_b));
    vstd::set_lib::lemma_set_disjoint_lens(in_a, in_b);
    assert(group_pixels(a.union(b), granularity, group) =~= in_a + in_b);
}

/// Areas add up: the area of the union of two sets of pixels that share no
/// pixel is the sum of their areas, under every granularity and area model.
pub proof fn lemma_area_additive(
    a: Set<Pixel>,
    b: Set<Pixel>,
    granularity: Granularity,
    model: spec_fn(int) -> nat,
    limit: nat,
)
    requires
        a.finite(),
        b.finite(),
        a.disjoint(b),
    ensures
        area_below(a.union(b), granularity, model, limit) == area_below(
            a,
            granularity,
            model,
            limit,
        ) + area_below(b, granularity, model, limit),
    decreases limit,
{
    if limit > 0 {
        let group = (limit - 1) as int;
        lemma_area_additive(a, b, granularity, model, (limit - 1) as nat);
        lemma_group_additive(a, b, granularity, group);
        let in_a = group_pixels(a, granularity, group).len();
        let in_b = group_pixels(b, granularity, group).len();
        let area = model(model_row(granularity, group));
        assert((in_a + in_b) * area == in_a * area + in_b * area) by (nonlinear_arith);
    }
}

/// Under the unit model, the area of the groups below a number is the number
/// of pixels in those groups.
pub proof fn lemma_unit_area_counts(pixels: Set<Pixel>, granularity: Granularity, limit: nat)
    requires
        pixels.finite(),
    ensures
        area_below(pixels, granularity, unit_model(), limit) == pixels_below(
            pixels,
            granularity,
            limit as int,
        ).len(),
    decreases limit,
{
    if limit == 0 {
        assert(pixels_below(pixels, granularity, 0) =~= Set::<Pixel>::empty());
    } else {
        let group = (limit - 1) as int;
        lemma_unit_area_counts(pixels, granularity, (limit - 1) as nat);
        let before = pixels_below(pixels, granularity, group);
        let here = group_pixels(pixels, granularity, group);
        pixels.lemma_len_filter(|pixel: Pixel| 0 <= group_of(granularity, pixel) < group);
        pixels.lemma_len_filter(|pixel: Pixel| group_of(granularity, pixel) == group);
        assert(before.disjoint(here));
        vstd::set_lib::lemma_set_disjoint_lens(before, here);
        assert(pixels_below(pixels, granularity, limit as int) =~= before + here);
        assert(here.len() * unit_model()(model_row(granularity, group)) == here.len())
            by (nonlinear_arith)
            requires
                unit_model()(model_row(granularity, group)) == 1,
        ;
    }
}

/// On the map every pixel belongs to a group.
pub proof fn lemma_every_pixel_grouped(pixels: Set<Pixel>, granularity: Granularity)
    requires
        in_tiling_range(pixels),
    ensures
        pixels_below(pixels, granularity, group_limit(granularity) as int) == pixels,
{
    assert forall|pixel: Pixel| pixels.contains(pixel) implies 0 <= group_of(granularity, pixel)
        < group_limit(granularity) by {
        let bx = pixel.x / 64;
        let by = pixel.y / 64;
        let local = pixel.y % 64;
        assert(0 <= bx < 65_536 && 0 <= by < 65_536 && 0 <= local < 64);
        assert(0 <= by * 65_536 + bx < 4_294_967_296);
    }
    assert(pixels_below(pixels, granularity, group_limit(granularity) as int) =~= pixels);
}

/// Every strategy weighs every pixel once: the tallies of a bitmap on the
/// map count, taken together, as many pixels as the bitmap holds, whatever
/// the strategy. So two strategies differ only in the rows at which they
/// evaluate the area of a pixel.
pub proof fn lemma_every_pixel_tallied_once(pixels: Set<Pixel>, strategy: Strategy)
    requires
        pixels.finite(),
        in_tiling_range(pixels),
    ensures
        tallied_area(spec_tallies(pixels, strategy.spec_granularity()), unit_model())
            == pixels.len(),
{
    let granularity = strategy.spec_granularity();
    lemma_tallies_add_up(pixels, granularity, unit_model(), group_limit(granularity));
    lemma_unit_area_counts(pixels, granularity, group_limit(granularity));
    lemma_every_pixel_grouped(pixels, granularity);
}

/// Strategies that give an area to the same groups have the same tallies:
/// the two ablated estimates tally as the exact one does, and the two block
/// estimates tally alike.
pub proof fn lemma_strategies_share_tallies(pixels: Set<Pixel>, a: Strategy, b: Strategy)
    requires
        (a is Exact || a is AxisOnly) == (b is Exact || b is AxisOnly),
    ensures
        spec_tallies(pixels, a.spec_granularity()) == spec_tallies(pixels, b.spec_granularity()),
{
}

/// The tallies of a bitmap depend on nothing but its pixels and the
/// granularity: bitmaps with the same pixels have the same tallies, in the
/// same order.
pub proof fn lemma_tallies_deterministic(a: Set<Pixel>, b: Set<Pixel>, granularity: Granularity)
    requires
        forall|pixel: Pixel| a.contains(pixel) == b.contains(pixel),
    ensures
        spec_tallies(a, granularity) == spec_tallies(b, granularity),
{
    assert(a =~= b);
}

/// What is computed from the tallies of a bitmap on the map is the area of
/// its pixels, under every strategy and area model.
pub proof fn lemma_tallied_area_is_total_area(
    pixels: Set<Pixel>,
    strategy: Strategy,
    model: spec_fn(int) -> nat,
)
    requires
        in_tiling_range(pixels),
    ensures
        tallied_area(spec_tallies(pixels, strategy.spec_granularity()), model) == total_area(
            pixels,
            strategy,
            model,
        ),
{
    let granularity = strategy.spec_granularity();
    lemma_tallies_add_up(pixels, granularity, model, group_limit(granularity));
}

/// An empty bitmap has no tallies under any strategy, and what is computed
/// from them is zero under every area model, as is the area of no pixels.
pub proof fn lemma_tallied_area_of_nothing(strategy: Strategy, model: spec_fn(int) -> nat)
    ensures
        spec_tallies(Set::<Pixel>::empty(), strategy.spec_granularity()) == Seq::<Tally>::empty(),
        tallied_area(spec_tallies(Set::<Pixel>::empty(), strategy.spec_granularity()), model)
            == 0,
        total_area(Set::<Pixel>::empty(), strategy, model) == 0,
{
    let granularity = strategy.spec_granularity();
    lemma_empty_has_no_area(granularity, model, group_limit(granularity));
}

/// Where the pixels of one bitmap on the map are among those of another, what
/// is computed from the tallies of the first is at most what is computed
/// from the tallies of the second, under every strategy and area model.
pub proof fn lemma_tallied_area_monotone(
    smaller: Set<Pixel>,
    larger: Set<Pixel>,
    strategy: Strategy,
    model: spec_fn(int) -> nat,
)
    requires
        smaller.subset_of(larger),
        larger.finite(),
        in_tiling_range(larger),
    ensures
        tallied_area(spec_tallies(smaller, strategy.spec_granularity()), model) <= tallied_area(
            spec_tallies(larger, strategy.spec_granularity()),
            model,
        ),
{
    let granularity = strategy.spec_granularity();
    let limit = group_limit(granularity);
    lemma_tallies_add_up(smaller, granularity, model, limit);
    lemma_tallies_add_up(larger, granularity, model, limit);
    lemma_area_monotone(smaller, larger, granularity, model, limit);
}

/// Where two bitmaps on the map share no pixel, what is computed from the
/// tallies of their union is the sum of what is computed from the tallies of
/// each, under every strategy and area model.
pub proof fn lemma_tallied_area_additive(
    a: Set<Pixel>,
    b: Set<Pixel>,
    strategy: Strategy,
    model: spec_fn(int) -> nat,
)
    requires
        a.finite(),
        b.finite(),
        a.disjoint(b),
        in_tiling_range(a),
        in_tiling_range(b),
    ensures
        tallied_area(spec_tallies(a.union(b), strategy.spec_granularity()), model)
            == tallied_area(spec_tallies(a, strategy.spec_granularity()), model) + tallied_area(
            spec_tallies(b, strategy.spec_granularity()),
            model,
        ),
{
    let granularity = strategy.spec_granularity();
    let limit = group_limit(granularity);
    lemma_tallies_add_up(a, granularity, model, limit);
    lemma_tallies_add_up(b, granularity, model, limit);
    lemma_tallies_add_up(a.union(b), granularity, model, limit);
    lemma_area_additive(a, b, granularity, model, limit);
}

} // verus!
