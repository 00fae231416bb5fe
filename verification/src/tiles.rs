//! The tile grid of a snapshot: which tiles cover the output, under which
//! index each is requested, and where on the canvas each is placed.

use vstd::prelude::*;
use vstd::arithmetic::div_mod::lemma_fundamental_div_mod;
use vstd::arithmetic::div_mod::lemma_fundamental_div_mod_converse;
use vstd::arithmetic::div_mod::lemma_mod_multiples_vanish;
use vstd::arithmetic::div_mod::lemma_mod_pos_bound;
use vstd::arithmetic::div_mod::lemma_small_mod;
use vstd::arithmetic::power2::lemma_pow2_pos;
use crate::numeric::ceil_div;
use crate::numeric::ceil_div_wide;
use crate::numeric::clamp_i32;
use crate::numeric::clamp_i64;
use crate::numeric::floor_div;
use crate::numeric::floor_div_wide;
use crate::numeric::grid_side;
use crate::numeric::saturate_i32;
use crate::numeric::saturate_i64;
use crate::numeric::tiles_per_side;
use crate::numeric::trunc_div;
use crate::numeric::trunc_div_wide;
use crate::projection::Coord;
use crate::projection::MAX_ZOOM;
use crate::projection::world_axis;
use crate::projection::WORLD_UNITS;

verus! {

/// A tile of the slippy-map scheme: column, row and zoom level.
#[derive(Clone, Copy, Debug, PartialEq, Eq, Structural)]
pub struct TileCoordinate {
    pub x: i32,
    pub y: i32,
    pub zoom: u8,
}

/// A cell of the tile grid of a snapshot: the tile to request for it and the
/// canvas pixel at which the top-left corner of that tile is pasted.
#[derive(Clone, Copy, Debug, PartialEq, Eq, Structural)]
pub struct TilePlacement {
    pub tile: TileCoordinate,
    pub x: i64,
    pub y: i64,
}

impl TileCoordinate {
    /// The column and the row lie on the grid of the zoom level.
    pub open spec fn in_range(self) -> bool {
        &&& self.zoom <= MAX_ZOOM
        &&& 0 <= self.x < tiles_per_side(self.zoom)
        &&& 0 <= self.y < tiles_per_side(self.zoom)
    }
}

/// A tile index wrapped onto the grid of `zoom`: the index modulo the number
/// of tiles along one side, never negative.
pub open spec fn wrapped_index(index: int, zoom: u8) -> int {
    index % tiles_per_side(zoom)
}

/// Wraps a tile index onto the grid of `zoom`, so that columns beyond the
/// antimeridian name the tiles on its other side.
pub fn wrap_tile_index(index: i32, zoom: u8) -> (wrapped: i32)
    requires
        zoom <= MAX_ZOOM,
    ensures
        wrapped == wrapped_index(index as int, zoom),
        0 <= wrapped < tiles_per_side(zoom),
{
    let side = grid_side(zoom);
    let value = index as i64;
    if value >= 0 {
        proof {
            lemma_mod_pos_bound(value as int, side as int);
        }
        (value % side) as i32
    } else {
        let positive = -value;
        let quotient = positive / side;
        let rest = positive % side;
        proof {
            lemma_fundamental_div_mod(positive as int, side as int);
            lemma_mod_pos_bound(positive as int, side as int);
            if rest == 0 {
                assert(value == (-quotient) * side + 0) by (nonlinear_arith)
                    requires
                        positive == side * quotient + rest,
                        rest == 0,
                        value == -positive,
                ;
                lemma_fundamental_div_mod_converse(value as int, side as int, -quotient, 0);
            } else {
                assert(value == (-quotient - 1) * side + (side - rest)) by (nonlinear_arith)
                    requires
                        positive == side * quotient + rest,
                        value == -positive,
                ;
                lemma_fundamental_div_mod_converse(
                    value as int,
                    side as int,
                    -quotient - 1,
                    side - rest,
                );
            }
        }
        if rest == 0 {
            0
        } else {
            (side - rest) as i32
        }
    }
}

/// The column one step west of column 0 is the last column of the grid.
pub proof fn lemma_wrap_of_minus_one(zoom: u8)
    ensures
        wrapped_index(-1, zoom) == tiles_per_side(zoom) - 1,
        wrapped_index(-1, zoom) == wrapped_index(tiles_per_side(zoom) - 1, zoom),
{
    let side = tiles_per_side(zoom);
    lemma_pow2_pos(zoom as nat);
    assert(-1 == (-1) * side + (side - 1)) by (nonlinear_arith);
    lemma_fundamental_div_mod_converse(-1, side, -1, side - 1);
    lemma_small_mod((side - 1) as nat, side as nat);
}

/// Indices that differ by whole turns round the world name the same tile.
pub proof fn lemma_wrap_is_periodic(index: int, turns: int, zoom: u8)
    ensures
        wrapped_index(index + turns * tiles_per_side(zoom), zoom) == wrapped_index(index, zoom),
        0 <= wrapped_index(index, zoom) < tiles_per_side(zoom),
{
    let side = tiles_per_side(zoom);
    lemma_pow2_pos(zoom as nat);
    lemma_mod_multiples_vanish(turns, index, side);
    assert(side * turns + index == index + turns * side) by (nonlinear_arith);
    vstd::arithmetic::div_mod::lemma_mod_bound(index, side);
}

/// The first tile index along one axis: the tile that holds the leading edge
/// of the output, which lies half the output extent before the centre.
pub open spec fn first_tile(tile_size: u32, extent: u32, zoom: u8, center: i64) -> int {
    clamp_i32(
        floor_div(
            2 * tile_size * world_axis(zoom, center) - extent * WORLD_UNITS,
            2 * tile_size * WORLD_UNITS,
        ),
    )
}

/// The last tile index along one axis: the trailing edge of the output, half
/// the output extent past the centre, rounded up to a whole tile.
pub open spec fn last_tile(tile_size: u32, extent: u32, zoom: u8, center: i64) -> int {
    clamp_i32(
        ceil_div(
            2 * tile_size * world_axis(zoom, center) + extent * WORLD_UNITS,
            2 * tile_size * WORLD_UNITS,
        ),
    )
}

/// Where the tile of index `index` starts on the canvas along one axis: its
/// distance from the centre in tiles, times the tile size, plus half the
/// output extent, cut to a whole pixel towards zero.
pub open spec fn tile_offset(tile_size: u32, extent: u32, zoom: u8, center: i64, index: int) -> int {
    clamp_i64(
        trunc_div(
            2 * tile_size * (index * WORLD_UNITS - world_axis(zoom, center)) + extent * WORLD_UNITS,
            2 * WORLD_UNITS,
        ),
    )
}

/// How many indices lie between `first` and `last`, both included.
pub open spec fn tile_count(first: int, last: int) -> int {
    if last >= first {
        last - first + 1
    } else {
        0
    }
}

/// The grid cell of tile column `column` and tile row `row`.
pub open spec fn placement_of(
    tile_size: u32,
    width: u32,
    height: u32,
    zoom: u8,
    center: Coord,
    column: int,
    row: int,
) -> TilePlacement {
    TilePlacement {
        tile: TileCoordinate {
            x: wrapped_index(column, zoom) as i32,
            y: wrapped_index(row, zoom) as i32,
            zoom,
        },
        x: tile_offset(tile_size, width, zoom, center.x, column) as i64,
        y: tile_offset(tile_size, height, zoom, center.y, row) as i64,
    }
}

/// The `position`-th cell of the grid, which is walked column by column,
/// each column from its first row to its last.
pub open spec fn grid_cell(
    tile_size: u32,
    width: u32,
    height: u32,
    zoom: u8,
    center: Coord,
    position: int,
) -> TilePlacement {
    let first_row = first_tile(tile_size, height, zoom, center.y);
    let rows = tile_count(first_row, last_tile(tile_size, height, zoom, center.y));
    placement_of(
        tile_size,
        width,
        height,
        zoom,
        center,
        first_tile(tile_size, width, zoom, center.x) + position / rows,
        first_row + position % rows,
    )
}

/// The tile grid of a snapshot: every column from the first to the last,
/// both included, and in each column every row from the first to the last.
pub open spec fn grid_of(tile_size: u32, width: u32, height: u32, zoom: u8, center: Coord) -> Seq<
    TilePlacement,
> {
    let columns = tile_count(
        first_tile(tile_size, width, zoom, center.x),
        last_tile(tile_size, width, zoom, center.x),
    );
    let rows = tile_count(
        first_tile(tile_size, height, zoom, center.y),
        last_tile(tile_size, height, zoom, center.y),
    );
    Seq::new(
        (columns * rows) as nat,
        |position: int| grid_cell(tile_size, width, height, zoom, center, position),
    )
}

/// Twice the tile size times the centre at `zoom`, the term that the grid
/// bounds share.
fn doubled_center(tile_size: u32, zoom: u8, center: i64) -> (scaled: i128)
    requires
        zoom <= MAX_ZOOM,
    ensures
        scaled == 2 * tile_size * world_axis(zoom, center),
        -0x3fff_ffff_ffff_ffff_ffff_ffff_ffff_ffff <= scaled <= 0x3fff_ffff_ffff_ffff_ffff_ffff_ffff_ffff,
{
    let side = grid_side(zoom) as i128;
    let value = center as i128;
    assert(-0x8000_0000_0000_0000 * 0x4000_0000 <= value * side <= 0x8000_0000_0000_0000
        * 0x4000_0000) by (nonlinear_arith)
        requires
            -0x8000_0000_0000_0000 <= value <= 0x8000_0000_0000_0000,
            1 <= side <= 0x4000_0000,
    ;
    let world = value * side;
    let scale = 2 * (tile_size as i128);
    assert(-0x2000_0000_0000_0000_0000_0000 * 0x1_ffff_fffe <= world * scale
        <= 0x2000_0000_0000_0000_0000_0000 * 0x1_ffff_fffe) by (nonlinear_arith)
        requires
            -0x2000_0000_0000_0000_0000_0000 <= world <= 0x2000_0000_0000_0000_0000_0000,
            0 <= scale <= 0x1_ffff_fffe,
    ;
    assert(world * scale == 2 * tile_size * world_axis(zoom, center)) by (nonlinear_arith)
        requires
            world == center * tiles_per_side(zoom),
            scale == 2 * tile_size,
            world_axis(zoom, center) == center * tiles_per_side(zoom),
    ;
    world * scale
}

/// The divisor that the grid bounds share: two tiles' worth of units.
fn doubled_tile(tile_size: u32) -> (divisor: i128)
    requires
        tile_size > 0,
    ensures
        divisor == 2 * tile_size * WORLD_UNITS,
        0 < divisor <= 0x200_0000_0000_0000_0000,
{
    let scale = 2 * (tile_size as i128);
    let world = WORLD_UNITS as i128;
    assert(0 < scale * world <= 0x2_0000_0000 * 0x100_0000_0000) by (nonlinear_arith)
        requires
            0 < scale <= 0x2_0000_0000,
            world == 0x100_0000_0000,
    ;
    assert(scale * world == 2 * tile_size * WORLD_UNITS) by (nonlinear_arith)
        requires
            scale == 2 * tile_size,
            world == WORLD_UNITS,
    ;
    scale * world
}

/// The output extent in units.
fn extent_units(extent: u32) -> (units: i128)
    ensures
        units == extent * WORLD_UNITS,
        0 <= units <= 0x100_0000_0000_0000_0000,
{
    let world = WORLD_UNITS as i128;
    let length = extent as i128;
    assert(0 <= length * world <= 0x1_0000_0000 * 0x100_0000_0000) by (nonlinear_arith)
        requires
            0 <= length <= 0x1_0000_0000,
            world == 0x100_0000_0000,
    ;
    length * world
}

/// `first_tile` on machine integers.
fn first_tile_index(tile_size: u32, extent: u32, zoom: u8, center: i64) -> (index: i32)
    requires
        tile_size > 0,
        zoom <= MAX_ZOOM,
    ensures
        index == first_tile(tile_size, extent, zoom, center),
{
    let numerator = doubled_center(tile_size, zoom, center) - extent_units(extent);
    saturate_i32(floor_div_wide(numerator, doubled_tile(tile_size)))
}

/// `last_tile` on machine integers.
fn last_tile_index(tile_size: u32, extent: u32, zoom: u8, center: i64) -> (index: i32)
    requires
        tile_size > 0,
        zoom <= MAX_ZOOM,
    ensures
        index == last_tile(tile_size, extent, zoom, center),
{
    let numerator = doubled_center(tile_size, zoom, center) + extent_units(extent);
    saturate_i32(ceil_div_wide(numerator, doubled_tile(tile_size)))
}

/// `tile_offset` on machine integers.
fn tile_offset_of(tile_size: u32, extent: u32, zoom: u8, center: i64, index: i32) -> (offset: i64)
    requires
        zoom <= MAX_ZOOM,
    ensures
        offset == tile_offset(tile_size, extent, zoom, center, index as int),
{
    let world = WORLD_UNITS as i128;
    let column = index as i128;
    assert(-0x8000_0000 * 0x100_0000_0000 <= column * world <= 0x8000_0000 * 0x100_0000_0000)
        by (nonlinear_arith)
        requires
            -0x8000_0000 <= column <= 0x8000_0000,
            world == 0x100_0000_0000,
    ;
    let start = column * world;
    let scale = 2 * (tile_size as i128);
    assert(-0x80_0000_0000_0000_0000 * 0x1_ffff_fffe <= start * scale <= 0x80_0000_0000_0000_0000
        * 0x1_ffff_fffe) by (nonlinear_arith)
        requires
            -0x80_0000_0000_0000_0000 <= start <= 0x80_0000_0000_0000_0000,
            0 <= scale <= 0x1_ffff_fffe,
    ;
    let centered = doubled_center(tile_size, zoom, center);
    assert(start * scale - centered == 2 * tile_size * (index * WORLD_UNITS - world_axis(
        zoom,
        center,
    ))) by (nonlinear_arith)
        requires
            start == index * WORLD_UNITS,
            scale == 2 * tile_size,
            centered == 2 * tile_size * world_axis(zoom, center),
    ;
    let numerator = start * scale - centered + extent_units(extent);
    saturate_i64(trunc_div_wide(numerator, 2 * world))
}

/// The number of indices from `first` to `last`, both included.
fn count_between(first: i32, last: i32) -> (count: i64)
    ensures
        count == tile_count(first as int, last as int),
        0 <= count <= 0x1_0000_0000,
{
    if last >= first {
        last as i64 - first as i64 + 1
    } else {
        0
    }
}

/// Lists the tile grid of a snapshot of `width` by `height` pixels centred
/// on `center` at `zoom`: for each cell the wrapped tile to request and the
/// canvas offset at which it is pasted.
pub fn tile_grid(tile_size: u32, width: u32, height: u32, zoom: u8, center: Coord) -> (grid: Vec<
    TilePlacement,
>)
    requires
        tile_size > 0,
        zoom <= MAX_ZOOM,
    ensures
        grid@ == grid_of(tile_size, width, height, zoom, center),
        forall|position: int| 0 <= position < grid.len() ==> (#[trigger] grid[position]).tile.in_range(),
{
    let first_column = first_tile_index(tile_size, width, zoom, center.x);
    let last_column = last_tile_index(tile_size, width, zoom, center.x);
    let first_row = first_tile_index(tile_size, height, zoom, center.y);
    let last_row = last_tile_index(tile_size, height, zoom, center.y);
    let columns = count_between(first_column, last_column);
    let rows = count_between(first_row, last_row);
    let mut grid: Vec<TilePlacement> = Vec::new();
    let mut column_step: i64 = 0;
    while column_step < columns && rows > 0
        invariant
            zoom <= MAX_ZOOM,
            0 <= column_step <= columns <= 0x1_0000_0000,
            0 <= rows <= 0x1_0000_0000,
            columns == tile_count(first_column as int, last_column as int),
            rows == tile_count(first_row as int, last_row as int),
            first_column == first_tile(tile_size, width, zoom, center.x),
            first_row == first_tile(tile_size, height, zoom, center.y),
            last_row == last_tile(tile_size, height, zoom, center.y),
            grid.len() == column_step * rows,
            forall|position: int|
                0 <= position < grid.len() ==> #[trigger] grid[position] == grid_cell(
                    tile_size,
                    width,
                    height,
                    zoom,
                    center,
                    position,
                ),
            forall|position: int|
                0 <= position < grid.len() ==> (#[trigger] grid[position]).tile.in_range(),
        decreases columns - column_step,
    {
        let column = (first_column as i64 + column_step) as i32;
        let tile_x = wrap_tile_index(column, zoom);
        let x = tile_offset_of(tile_size, width, zoom, center.x, column);
        let mut row_step: i64 = 0;
        while row_step < rows
            invariant
                zoom <= MAX_ZOOM,
                0 <= column_step < columns <= 0x1_0000_0000,
                0 <= row_step <= rows <= 0x1_0000_0000,
                rows == tile_count(first_row as int, last_row as int),
                first_column == first_tile(tile_size, width, zoom, center.x),
                first_row == first_tile(tile_size, height, zoom, center.y),
                last_row == last_tile(tile_size, height, zoom, center.y),
                column == first_column + column_step,
                tile_x == wrapped_index(column as int, zoom),
                0 <= tile_x < tiles_per_side(zoom),
                x == tile_offset(tile_size, width, zoom, center.x, column as int),
                grid.len() == column_step * rows + row_step,
                forall|position: int|
                    0 <= position < grid.len() ==> #[trigger] grid[position] == grid_cell(
                        tile_size,
                        width,
                        height,
                        zoom,
                        center,
                        position,
                    ),
                forall|position: int|
                    0 <= position < grid.len() ==> (#[trigger] grid[position]).tile.in_range(),
            decreases rows - row_step,
        {
            let row = (first_row as i64 + row_step) as i32;
            let tile_y = wrap_tile_index(row, zoom);
            let y = tile_offset_of(tile_size, height, zoom, center.y, row);
            let placement = TilePlacement { tile: TileCoordinate { x: tile_x, y: tile_y, zoom }, x, y };
            proof {
                let position = column_step * rows + row_step;
                assert(position == column_step * rows + row_step);
                lemma_fundamental_div_mod_converse(
                    position,
                    rows as int,
                    column_step as int,
                    row_step as int,
                );
                assert(placement == grid_cell(tile_size, width, height, zoom, center, position));
            }
            grid.push(placement);
            row_step = row_step + 1;
        }
        proof {
            assert(column_step * rows + rows == (column_step + 1) * rows) by (nonlinear_arith);
        }
        column_step = column_step + 1;
    }
    proof {
        if rows == 0 {
            assert(columns * rows == 0) by (nonlinear_arith)
                requires
                    rows == 0,
            ;
            assert(column_step * rows == 0) by (nonlinear_arith)
                requires
                    rows == 0,
            ;
        }
        assert(grid@ =~= grid_of(tile_size, width, height, zoom, center));
    }
    grid
}

/// Whether a tile that starts at `offset` lies over `pixel` along one axis.
pub open spec fn covers_along(offset: int, tile_size: u32, pixel: int) -> bool {
    offset <= pixel < offset + tile_size
}

/// Whether a snapshot is one whose grid is held back neither by the range
/// of tile indices nor by that of canvas offsets: its centre lies on the
/// map and its output is at most 2^30 pixels long.
pub open spec fn is_ordinary(extent: u32, center: i64) -> bool {
    0 <= center <= WORLD_UNITS && extent <= 0x4000_0000
}

/// Along one axis, every pixel of an ordinary output lies under a tile of
/// the grid.
pub proof fn lemma_axis_is_covered(tile_size: u32, extent: u32, zoom: u8, center: i64, pixel: int)
    requires
        tile_size > 0,
        zoom <= MAX_ZOOM,
        is_ordinary(extent, center),
        0 <= pixel < extent,
    ensures
        exists|index: int|
            first_tile(tile_size, extent, zoom, center) <= index <= last_tile(
                tile_size,
                extent,
                zoom,
                center,
            ) && covers_along(#[trigger] tile_offset(tile_size, extent, zoom, center, index), tile_size, pixel),
{
    let world = WORLD_UNITS as int;
    let size = tile_size as int;
    let scaled = world_axis(zoom, center);
    let step = 2 * size * world;
    let low = 2 * size * scaled - extent * world;
    let high = 2 * size * scaled + extent * world;
    let side = tiles_per_side(zoom);
    vstd::arithmetic::power2::lemma2_to64();
    lemma_pow2_pos(zoom as nat);
    if zoom < 30 {
        vstd::arithmetic::power2::lemma_pow2_strictly_increases(zoom as nat, 30);
    }
    assert(1 <= side <= 0x4000_0000);
    assert(0 <= scaled <= 0x4000_0000 * world) by (nonlinear_arith)
        requires
            scaled == center * side,
            0 <= center <= world,
            1 <= side <= 0x4000_0000,
            world > 0,
    ;
    assert(step == 2 * tile_size * WORLD_UNITS) by (nonlinear_arith)
        requires
            step == 2 * size * world,
            size == tile_size,
            world == WORLD_UNITS,
    ;
    assert(step >= 2 * world && step > 0) by (nonlinear_arith)
        requires
            step == 2 * size * world,
            size >= 1,
            world > 0,
    ;
    // The range of indices is not cut short.
    assert(low >= -0x2000_0000 * step) by (nonlinear_arith)
        requires
            low == 2 * size * scaled - extent * world,
            step == 2 * size * world,
            size >= 1,
            scaled >= 0,
            0 <= extent <= 0x4000_0000,
            world > 0,
    ;
    assert(high <= 0x6000_0000 * step) by (nonlinear_arith)
        requires
            high == 2 * size * scaled + extent * world,
            step == 2 * size * world,
            size >= 1,
            0 <= scaled <= 0x4000_0000 * world,
            0 <= extent <= 0x4000_0000,
            world > 0,
    ;
    assert(low <= high) by (nonlinear_arith)
        requires
            low == 2 * size * scaled - extent * world,
            high == 2 * size * scaled + extent * world,
            extent >= 0,
            world > 0,
    ;
    lemma_quotient_bounds(low, step, -0x2000_0000, 0x6000_0000);
    lemma_quotient_bounds(-high, step, -0x6000_0000, 0x2000_0000);
    let first = floor_div(low, step);
    let last = ceil_div(high, step);
    assert(first == first_tile(tile_size, extent, zoom, center));
    assert(last == last_tile(tile_size, extent, zoom, center));

    // The tile that holds the pixel before offsets are cut to whole pixels.
    let target = 2 * world * pixel + low;
    let index = target / step;
    let rest = target % step;
    lemma_fundamental_div_mod(target, step);
    vstd::arithmetic::div_mod::lemma_mod_bound(target, step);
    assert(target == step * index + rest);
    assert(low <= target) by (nonlinear_arith)
        requires
            target == 2 * world * pixel + low,
            pixel >= 0,
            world > 0,
    ;
    vstd::arithmetic::div_mod::lemma_div_is_ordered(low, target, step);
    assert(first <= index);
    assert(target + 2 * world <= high) by (nonlinear_arith)
        requires
            target == 2 * world * pixel + low,
            low == 2 * size * scaled - extent * world,
            high == 2 * size * scaled + extent * world,
            pixel + 1 <= extent,
            world > 0,
    ;
    lemma_fundamental_div_mod(-high, step);
    vstd::arithmetic::div_mod::lemma_mod_bound(-high, step);
    let below = (-high) / step;
    assert(below < -index) by (nonlinear_arith)
        requires
            -high == step * below + (-high) % step,
            0 <= (-high) % step,
            target == step * index + rest,
            0 <= rest,
            target < high,
            step > 0,
    ;
    assert(index + 1 <= last);

    // Where the tile starts once its offset is cut to a whole pixel.
    let numerator = 2 * size * (index * world - scaled) + extent * world;
    assert(numerator == 2 * world * pixel - rest) by (nonlinear_arith)
        requires
            numerator == 2 * size * (index * world - scaled) + extent * world,
            target == step * index + rest,
            target == 2 * world * pixel + low,
            low == 2 * size * scaled - extent * world,
            step == 2 * size * world,
    ;
    let whole = rest / (2 * world);
    let part = rest % (2 * world);
    lemma_fundamental_div_mod(rest, 2 * world);
    lemma_mod_pos_bound(rest, 2 * world);
    assert(0 <= whole < size) by (nonlinear_arith)
        requires
            rest == (2 * world) * whole + part,
            0 <= part < 2 * world,
            0 <= rest < step,
            step == 2 * size * world,
            world > 0,
    ;
    if part == 0 {
        assert(numerator == (pixel - whole) * (2 * world)) by (nonlinear_arith)
            requires
                numerator == 2 * world * pixel - rest,
                rest == (2 * world) * whole + part,
                part == 0,
        ;
        lemma_exact_quotient(pixel - whole, 2 * world);
        assert(trunc_div(numerator, 2 * world) == pixel - whole);
        lemma_offset_of(tile_size, extent, zoom, center, index, pixel - whole);
        assert(covers_along(tile_offset(tile_size, extent, zoom, center, index), tile_size, pixel));
    } else {
        assert(numerator == (pixel - whole - 1) * (2 * world) + (2 * world - part)) by (nonlinear_arith)
            requires
                numerator == 2 * world * pixel - rest,
                rest == (2 * world) * whole + part,
        ;
        lemma_fundamental_div_mod_converse(
            numerator,
            2 * world,
            pixel - whole - 1,
            2 * world - part,
        );
        if numerator < 0 {
            assert(-numerator == (whole - pixel) * (2 * world) + part) by (nonlinear_arith)
                requires
                    numerator == (pixel - whole - 1) * (2 * world) + (2 * world - part),
            ;
            lemma_fundamental_div_mod_converse(-numerator, 2 * world, whole - pixel, part);
            assert(trunc_div(numerator, 2 * world) == pixel - whole);
            lemma_offset_of(tile_size, extent, zoom, center, index, pixel - whole);
            assert(covers_along(tile_offset(tile_size, extent, zoom, center, index), tile_size, pixel));
        } else if whole + 1 < size {
            assert(trunc_div(numerator, 2 * world) == pixel - whole - 1);
            lemma_offset_of(tile_size, extent, zoom, center, index, pixel - whole - 1);
            assert(covers_along(tile_offset(tile_size, extent, zoom, center, index), tile_size, pixel));
        } else {
            // The cut moved the tile one pixel short of the pixel: the next
            // tile starts on it.
            let next = 2 * size * ((index + 1) * world - scaled) + extent * world;
            assert(next == pixel * (2 * world) + (2 * world - part)) by (nonlinear_arith)
                requires
                    next == 2 * size * ((index + 1) * world - scaled) + extent * world,
                    numerator == 2 * size * (index * world - scaled) + extent * world,
                    numerator == (pixel - whole - 1) * (2 * world) + (2 * world - part),
                    whole + 1 == size,
            ;
            lemma_fundamental_div_mod_converse(next, 2 * world, pixel, 2 * world - part);
            assert(next >= 0) by (nonlinear_arith)
                requires
                    next == pixel * (2 * world) + (2 * world - part),
                    pixel >= 0,
                    0 < part < 2 * world,
            ;
            assert(trunc_div(next, 2 * world) == pixel);
            lemma_offset_of(tile_size, extent, zoom, center, index + 1, pixel);
            assert(covers_along(
                tile_offset(tile_size, extent, zoom, center, index + 1),
                tile_size,
                pixel,
            ));
        }
    }
}

/// A quotient lies between the bounds that its numerator lies between in
/// multiples of the divisor.
proof fn lemma_quotient_bounds(numerator: int, divisor: int, low: int, high: int)
    requires
        divisor > 0,
        low * divisor <= numerator <= high * divisor,
    ensures
        low <= numerator / divisor <= high,
{
    lemma_fundamental_div_mod(numerator, divisor);
    vstd::arithmetic::div_mod::lemma_mod_bound(numerator, divisor);
    let quotient = numerator / divisor;
    let rest = numerator % divisor;
    assert(low <= quotient <= high) by (nonlinear_arith)
        requires
            numerator == divisor * quotient + rest,
            0 <= rest < divisor,
            low * divisor <= numerator <= high * divisor,
    ;
}

/// A multiple of the divisor, cut towards zero, gives its factor.
proof fn lemma_exact_quotient(factor: int, divisor: int)
    requires
        divisor > 0,
    ensures
        trunc_div(factor * divisor, divisor) == factor,
{
    if factor >= 0 {
        assert(factor * divisor >= 0) by (nonlinear_arith)
            requires
                factor >= 0,
                divisor > 0,
        ;
        lemma_fundamental_div_mod_converse(factor * divisor, divisor, factor, 0);
    } else {
        assert(factor * divisor < 0) by (nonlinear_arith)
            requires
                factor < 0,
                divisor > 0,
        ;
        assert(-(factor * divisor) == (-factor) * divisor) by (nonlinear_arith);
        lemma_fundamental_div_mod_converse(-(factor * divisor), divisor, -factor, 0);
    }
}

/// The offset of a tile is its quotient where that fits an `i64`.
proof fn lemma_offset_of(tile_size: u32, extent: u32, zoom: u8, center: i64, index: int, quotient: int)
    requires
        trunc_div(
            2 * tile_size * (index * WORLD_UNITS - world_axis(zoom, center)) + extent * WORLD_UNITS,
            2 * WORLD_UNITS,
        ) == quotient,
        i64::MIN <= quotient <= i64::MAX,
    ensures
        tile_offset(tile_size, extent, zoom, center, index) == quotient,
{
}

/// Every pixel of an ordinary output lies under a cell of the tile grid:
/// the grid covers the whole viewport.
pub proof fn lemma_grid_covers_the_output(
    tile_size: u32,
    width: u32,
    height: u32,
    zoom: u8,
    center: Coord,
    column: int,
    row: int,
)
    requires
        tile_size > 0,
        zoom <= MAX_ZOOM,
        is_ordinary(width, center.x),
        is_ordinary(height, center.y),
        0 <= column < width,
        0 <= row < height,
    ensures
        exists|position: int|
            0 <= position < grid_of(tile_size, width, height, zoom, center).len() && covers_along(
                (#[trigger] grid_of(tile_size, width, height, zoom, center)[position]).x as int,
                tile_size,
                column,
            ) && covers_along(
                grid_of(tile_size, width, height, zoom, center)[position].y as int,
                tile_size,
                row,
            ),
{
    lemma_axis_is_covered(tile_size, width, zoom, center.x, column);
    lemma_axis_is_covered(tile_size, height, zoom, center.y, row);
    let first_column = first_tile(tile_size, width, zoom, center.x);
    let last_column = last_tile(tile_size, width, zoom, center.x);
    let first_row = first_tile(tile_size, height, zoom, center.y);
    let last_row = last_tile(tile_size, height, zoom, center.y);
    let across = choose|index: int|
        first_column <= index <= last_column && covers_along(
            #[trigger] tile_offset(tile_size, width, zoom, center.x, index),
            tile_size,
            column,
        );
    let down = choose|index: int|
        first_row <= index <= last_row && covers_along(
            #[trigger] tile_offset(tile_size, height, zoom, center.y, index),
            tile_size,
            row,
        );
    let columns = tile_count(first_column, last_column);
    let rows = tile_count(first_row, last_row);
    let position = (across - first_column) * rows + (down - first_row);
    assert(0 <= position < columns * rows) by (nonlinear_arith)
        requires
            position == (across - first_column) * rows + (down - first_row),
            0 <= across - first_column < columns,
            0 <= down - first_row < rows,
    ;
    lemma_fundamental_div_mod_converse(position, rows, across - first_column, down - first_row);
    let grid = grid_of(tile_size, width, height, zoom, center);
    assert(grid[position] == placement_of(tile_size, width, height, zoom, center, across, down));
    assert(covers_along(grid[position].x as int, tile_size, column));
    assert(covers_along(grid[position].y as int, tile_size, row));
}

} // verus!
