//! The projector: from positions on the map to pixels of a snapshot.
//!
//! A position is held as its image under the spherical Web-Mercator
//! projection at zoom 0, in fixed point: the world is a square whose side is
//! [`WORLD_UNITS`] units long, `x` grows eastwards from the antimeridian and
//! `y` grows southwards from the northern edge.  Scaling such a position to a
//! zoom level is a multiplication by a power of two, and every later step is
//! a quotient of integers, so the whole path from a position to a pixel is
//! exact.

use vstd::prelude::*;
use vstd::arithmetic::div_mod::lemma_fundamental_div_mod_converse;
use crate::numeric::clamp_i32;
use crate::numeric::grid_side;
pub use crate::numeric::MAX_ZOOM;
use crate::numeric::round_div;
use crate::numeric::round_div_wide;
use crate::numeric::saturate_i32;
use crate::numeric::tiles_per_side;
use crate::numeric::trunc_rem;
use crate::numeric::trunc_rem_wide;

verus! {

/// Number of fractional bits of a position: one tile at zoom 0 is
/// `2^UNIT_BITS` units wide.
pub const UNIT_BITS: u32 = 40;

/// Length of the side of the world at zoom 0, in units.
pub const WORLD_UNITS: i64 = 0x100_0000_0000;

/// A position on the map (see the module documentation for the units).
#[derive(Clone, Copy, Debug, PartialEq, Eq, Structural)]
pub struct Coord {
    pub x: i64,
    pub y: i64,
}

/// A position at some zoom level, in tiles: `2^UNIT_BITS` units make one
/// tile, so the integer part of `x / 2^UNIT_BITS` is a tile column.
#[derive(Clone, Copy, Debug, PartialEq, Eq, Structural)]
pub struct WorldPoint {
    pub x: i128,
    pub y: i128,
}

/// A pixel of a snapshot, counted from its top-left corner.
#[derive(Clone, Copy, Debug, PartialEq, Eq, Structural)]
pub struct PixelCoord {
    pub x: i32,
    pub y: i32,
}

/// One axis of a position scaled to `zoom`.
pub open spec fn world_axis(zoom: u8, value: i64) -> int {
    value * tiles_per_side(zoom)
}

/// One axis of the pixel of `point` in a snapshot centred on `center`: the
/// offset from the centre in tiles keeps only its fractional part, is scaled
/// by the tile size, moved by half the output extent and rounded to the
/// nearest pixel.
pub open spec fn pixel_axis(tile_size: u32, extent: u32, zoom: u8, center: i64, point: i64) -> int {
    let offset = trunc_rem(world_axis(zoom, point) - world_axis(zoom, center), WORLD_UNITS as int);
    clamp_i32(round_div(2 * offset * tile_size + extent * WORLD_UNITS, 2 * WORLD_UNITS))
}

/// One axis of the centre of a canvas `extent` pixels long: half the extent,
/// an odd extent rounding up.
pub open spec fn canvas_center_axis(extent: u32) -> int {
    clamp_i32((extent + 1) / 2)
}

/// The pixel of `point` in a snapshot of `width` by `height` pixels centred
/// on `center` at `zoom`.
pub open spec fn pixel_of(
    tile_size: u32,
    width: u32,
    height: u32,
    zoom: u8,
    center: Coord,
    point: Coord,
) -> PixelCoord {
    PixelCoord {
        x: pixel_axis(tile_size, width, zoom, center.x, point.x) as i32,
        y: pixel_axis(tile_size, height, zoom, center.y, point.y) as i32,
    }
}

/// The centre of a canvas of `width` by `height` pixels.
pub open spec fn canvas_center(width: u32, height: u32) -> PixelCoord {
    PixelCoord { x: canvas_center_axis(width) as i32, y: canvas_center_axis(height) as i32 }
}

/// Scales a position to `zoom`: both axes are multiplied by the number of
/// tiles along one side of the world at that level.
pub fn epsg_4326_to_epsg_3857(zoom: u8, point: Coord) -> (world: WorldPoint)
    requires
        zoom <= MAX_ZOOM,
    ensures
        world.x == world_axis(zoom, point.x),
        world.y == world_axis(zoom, point.y),
{
    let side = grid_side(zoom) as i128;
    let x = point.x as i128;
    let y = point.y as i128;
    assert(-0x8000_0000_0000_0000 * 0x4000_0000 <= x * side <= 0x8000_0000_0000_0000 * 0x4000_0000)
        by (nonlinear_arith)
        requires
            -0x8000_0000_0000_0000 <= x <= 0x8000_0000_0000_0000,
            1 <= side <= 0x4000_0000,
    ;
    assert(-0x8000_0000_0000_0000 * 0x4000_0000 <= y * side <= 0x8000_0000_0000_0000 * 0x4000_0000)
        by (nonlinear_arith)
        requires
            -0x8000_0000_0000_0000 <= y <= 0x8000_0000_0000_0000,
            1 <= side <= 0x4000_0000,
    ;
    WorldPoint { x: x * side, y: y * side }
}

/// One axis of [`epsg_4326_to_pixel`].
fn pixel_along(tile_size: u32, extent: u32, zoom: u8, center: i64, point: i64) -> (pixel: i32)
    requires
        zoom <= MAX_ZOOM,
    ensures
        pixel == pixel_axis(tile_size, extent, zoom, center, point),
{
    let side = grid_side(zoom) as i128;
    let difference = point as i128 - center as i128;
    assert(-0x1_0000_0000_0000_0000 * 0x4000_0000 <= difference * side <= 0x1_0000_0000_0000_0000
        * 0x4000_0000) by (nonlinear_arith)
        requires
            -0x1_0000_0000_0000_0000 <= difference <= 0x1_0000_0000_0000_0000,
            1 <= side <= 0x4000_0000,
    ;
    assert(difference * side == world_axis(zoom, point) - world_axis(zoom, center))
        by (nonlinear_arith)
        requires
            difference == point - center,
            side == tiles_per_side(zoom),
    ;
    let offset = trunc_rem_wide(difference * side, WORLD_UNITS as i128);
    let scale = tile_size as i128;
    assert(-0x100_0000_0000 * 0x1_0000_0000 <= offset * scale <= 0x100_0000_0000 * 0x1_0000_0000)
        by (nonlinear_arith)
        requires
            -0x100_0000_0000 <= offset <= 0x100_0000_0000,
            0 <= scale <= 0x1_0000_0000,
    ;
    assert(2 * offset * scale == 2 * (offset * scale)) by (nonlinear_arith);
    let numerator = 2 * (offset * scale) + (extent as i128) * (WORLD_UNITS as i128);
    let rounded = round_div_wide(numerator, 2 * (WORLD_UNITS as i128));
    saturate_i32(rounded)
}

/// Converts a position to the pixel that shows it in a snapshot of `width` by
/// `height` pixels centred on `center` at `zoom`.
pub fn epsg_4326_to_pixel(
    tile_size: u32,
    width: u32,
    height: u32,
    zoom: u8,
    center: Coord,
    point: Coord,
) -> (pixel: PixelCoord)
    requires
        zoom <= MAX_ZOOM,
    ensures
        pixel == pixel_of(tile_size, width, height, zoom, center, point),
{
    PixelCoord {
        x: pixel_along(tile_size, width, zoom, center.x, point.x),
        y: pixel_along(tile_size, height, zoom, center.y, point.y),
    }
}

/// Half of `extent * WORLD_UNITS`, rounded to the nearest integer in units of
/// `WORLD_UNITS`, is half of `extent` with an odd extent rounding up.
proof fn lemma_half_extent(extent: u32)
    ensures
        round_div(extent * WORLD_UNITS, 2 * WORLD_UNITS) == (extent + 1) / 2,
{
    let q = (extent + 1) / 2;
    let r = (extent + 1) % 2;
    let numerator = 2 * (extent * WORLD_UNITS) + 2 * WORLD_UNITS;
    let divisor = 2 * (2 * WORLD_UNITS);
    assert(numerator == q * divisor + r * (2 * WORLD_UNITS)) by (nonlinear_arith)
        requires
            extent + 1 == 2 * q + r,
            numerator == 2 * (extent * WORLD_UNITS) + 2 * WORLD_UNITS,
            divisor == 2 * (2 * WORLD_UNITS),
    ;
    assert(0 <= r * (2 * WORLD_UNITS) < divisor) by (nonlinear_arith)
        requires
            0 <= r < 2,
            divisor == 2 * (2 * WORLD_UNITS),
    ;
    lemma_fundamental_div_mod_converse(numerator, divisor, q, r * (2 * WORLD_UNITS));
}

/// A position projected in a snapshot that is centred on that same position
/// falls on the centre of the canvas, at every zoom level and for every tile
/// size.
pub proof fn lemma_center_projects_to_canvas_center(
    tile_size: u32,
    width: u32,
    height: u32,
    zoom: u8,
    point: Coord,
)
    ensures
        pixel_of(tile_size, width, height, zoom, point, point) == canvas_center(width, height),
{
    lemma_half_extent(width);
    lemma_half_extent(height);
    let offset = trunc_rem(0, WORLD_UNITS as int);
    assert(offset == 0);
    assert(2 * offset * tile_size == 0) by (nonlinear_arith)
        requires
            offset == 0,
    ;
}

} // verus!
