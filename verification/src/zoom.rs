//! The zoom selector: the zoom policy of a snapshot and the search for the
//! tightest level that still shows a whole bounding box.

use vstd::prelude::*;
use vstd::arithmetic::power2::pow2;
use crate::geometry::Rect;
use crate::numeric::grid_side;
use crate::projection::MAX_ZOOM;
use crate::projection::WORLD_UNITS;

verus! {

/// Highest level that the automatic policy tries unless told otherwise.
pub const DEFAULT_MAX_ZOOM: u8 = 17;

/// How the zoom level of a snapshot is decided.
#[derive(Clone, Copy, Debug, PartialEq, Eq, Structural)]
pub enum Zoom {
    /// Always this level.
    Constant(u8),
    /// The highest level, up to the given one, at which the geometries fit
    /// the output.
    Automatic(u8),
}

impl Zoom {
    /// The policy addresses only levels up to [`MAX_ZOOM`].
    pub open spec fn wf(self) -> bool {
        match self {
            Zoom::Constant(level) => level <= MAX_ZOOM,
            Zoom::Automatic(max_level) => max_level <= MAX_ZOOM,
        }
    }
}

impl Default for Zoom {
    fn default() -> (zoom: Zoom)
        ensures
            zoom == Zoom::Automatic(DEFAULT_MAX_ZOOM),
    {
        Zoom::Automatic(DEFAULT_MAX_ZOOM)
    }
}

/// Whether a span of `span` units, shown at `level` with tiles of `tile_size`
/// pixels, is at most `available` pixels long.
pub open spec fn span_fits(span: int, level: nat, tile_size: u32, available: u32) -> bool {
    span * pow2(level) * tile_size <= available * WORLD_UNITS
}

/// Whether `bounding_box`, shown at `level`, fits an output of `width` by
/// `height` pixels.
pub open spec fn level_fits(
    bounding_box: Rect,
    tile_size: u32,
    width: u32,
    height: u32,
    level: nat,
) -> bool {
    &&& span_fits(bounding_box.max.x - bounding_box.min.x, level, tile_size, width)
    &&& span_fits(bounding_box.max.y - bounding_box.min.y, level, tile_size, height)
}

/// Whether some level up to `max_zoom` fits.
pub open spec fn some_level_fits(
    bounding_box: Rect,
    tile_size: u32,
    width: u32,
    height: u32,
    max_zoom: u8,
) -> bool {
    exists|level: nat| level <= max_zoom && #[trigger] level_fits(bounding_box, tile_size, width, height, level)
}

/// Whether `zoom` is the level that the automatic policy selects: the
/// highest level up to `max_zoom` that fits, and level 1 where none does.
pub open spec fn is_selected_zoom(
    bounding_box: Rect,
    tile_size: u32,
    width: u32,
    height: u32,
    max_zoom: u8,
    zoom: u8,
) -> bool {
    if some_level_fits(bounding_box, tile_size, width, height, max_zoom) {
        &&& zoom <= max_zoom
        &&& level_fits(bounding_box, tile_size, width, height, zoom as nat)
        &&& forall|level: nat|
            zoom < level <= max_zoom ==> !#[trigger] level_fits(
                bounding_box,
                tile_size,
                width,
                height,
                level,
            )
    } else {
        zoom == 1
    }
}

/// Decides `span_fits` on machine integers.
fn span_fits_at(span: i128, level: u8, tile_size: u32, available: u32) -> (fits: bool)
    requires
        level <= MAX_ZOOM,
        -0x1_0000_0000_0000_0000 <= span <= 0x1_0000_0000_0000_0000,
    ensures
        fits == span_fits(span as int, level as nat, tile_size, available),
{
    let side = grid_side(level) as i128;
    let scale = tile_size as i128;
    assert(-0x1_0000_0000_0000_0000 * 0x4000_0000 <= span * side <= 0x1_0000_0000_0000_0000
        * 0x4000_0000) by (nonlinear_arith)
        requires
            -0x1_0000_0000_0000_0000 <= span <= 0x1_0000_0000_0000_0000,
            1 <= side <= 0x4000_0000,
    ;
    let scaled = span * side;
    assert(-0x4000_0000_0000_0000_0000_0000 * 0x1_0000_0000 <= scaled * scale
        <= 0x4000_0000_0000_0000_0000_0000 * 0x1_0000_0000) by (nonlinear_arith)
        requires
            -0x4000_0000_0000_0000_0000_0000 <= scaled <= 0x4000_0000_0000_0000_0000_0000,
            0 <= scale <= 0x1_0000_0000,
    ;
    let world = WORLD_UNITS as i128;
    assert(0 <= available * world <= 0x1_0000_0000 * 0x100_0000_0000) by (nonlinear_arith)
        requires
            0 <= available <= 0x1_0000_0000,
            world == 0x100_0000_0000,
    ;
    assert(span * pow2(level as nat) * tile_size == scaled * scale) by (nonlinear_arith)
        requires
            scaled == span * side,
            side == pow2(level as nat),
            scale == tile_size,
    ;
    scaled * scale <= (available as i128) * world
}

/// Decides `level_fits` on machine integers.
fn level_fits_at(bounding_box: &Rect, tile_size: u32, width: u32, height: u32, level: u8) -> (fits:
    bool)
    requires
        level <= MAX_ZOOM,
    ensures
        fits == level_fits(*bounding_box, tile_size, width, height, level as nat),
{
    let span_x = bounding_box.max.x as i128 - bounding_box.min.x as i128;
    let span_y = bounding_box.max.y as i128 - bounding_box.min.y as i128;
    span_fits_at(span_x, level, tile_size, width) && span_fits_at(span_y, level, tile_size, height)
}

/// Selects the zoom level for `bounding_box`: the levels are tried from
/// `max_zoom` down to 0 and the first that fits an output of `width` by
/// `height` pixels is taken; where none fits the level is 1.
pub fn select_zoom(bounding_box: &Rect, tile_size: u32, width: u32, height: u32, max_zoom: u8) -> (zoom:
    u8)
    requires
        max_zoom <= MAX_ZOOM,
    ensures
        is_selected_zoom(*bounding_box, tile_size, width, height, max_zoom, zoom),
        zoom <= MAX_ZOOM,
{
    let mut level = max_zoom;
    loop
        invariant
            level <= max_zoom <= MAX_ZOOM,
            forall|other: nat|
                level < other <= max_zoom ==> !#[trigger] level_fits(
                    *bounding_box,
                    tile_size,
                    width,
                    height,
                    other,
                ),
        decreases level,
    {
        if level_fits_at(bounding_box, tile_size, width, height, level) {
            return level;
        }
        if level == 0 {
            return 1;
        }
        level = level - 1;
    }
}

/// Widening the output never makes a fitting level stop fitting.
proof fn lemma_fit_is_monotonic(
    bounding_box: Rect,
    tile_size: u32,
    width: u32,
    height: u32,
    smaller_width: u32,
    smaller_height: u32,
    level: nat,
)
    requires
        smaller_width <= width,
        smaller_height <= height,
        level_fits(bounding_box, tile_size, smaller_width, smaller_height, level),
    ensures
        level_fits(bounding_box, tile_size, width, height, level),
{
    assert(smaller_width * WORLD_UNITS <= width * WORLD_UNITS) by (nonlinear_arith)
        requires
            smaller_width <= width,
    ;
    assert(smaller_height * WORLD_UNITS <= height * WORLD_UNITS) by (nonlinear_arith)
        requires
            smaller_height <= height,
    ;
}

/// A span that fits at a level fits at every lower level.
proof fn lemma_span_fits_below(span: int, level: nat, lower: nat, tile_size: u32, available: u32)
    requires
        0 <= span,
        lower <= level,
        span_fits(span, level, tile_size, available),
    ensures
        span_fits(span, lower, tile_size, available),
{
    if lower < level {
        vstd::arithmetic::power2::lemma_pow2_strictly_increases(lower, level);
    }
    assert(span * pow2(lower) * tile_size <= span * pow2(level) * tile_size) by (nonlinear_arith)
        requires
            0 <= span,
            pow2(lower) <= pow2(level),
            0 <= tile_size,
    ;
}

/// A bounding box that fits the output at a level fits it at every lower
/// level: zooming out never makes the geometries leave the output.
pub proof fn lemma_lower_levels_fit(
    bounding_box: Rect,
    tile_size: u32,
    width: u32,
    height: u32,
    level: nat,
    lower: nat,
)
    requires
        bounding_box.min.x <= bounding_box.max.x,
        bounding_box.min.y <= bounding_box.max.y,
        lower <= level,
        level_fits(bounding_box, tile_size, width, height, level),
    ensures
        level_fits(bounding_box, tile_size, width, height, lower),
{
    lemma_span_fits_below(
        bounding_box.max.x - bounding_box.min.x,
        level,
        lower,
        tile_size,
        width,
    );
    lemma_span_fits_below(
        bounding_box.max.y - bounding_box.min.y,
        level,
        lower,
        tile_size,
        height,
    );
}

/// Shrinking the output never raises the selected zoom level, as long as the
/// shrunk output is not one that no level fits while the larger output
/// selects level 0: there the fallback to level 1 is a raise.
pub proof fn lemma_selected_zoom_is_monotonic(
    bounding_box: Rect,
    tile_size: u32,
    max_zoom: u8,
    width: u32,
    height: u32,
    zoom: u8,
    smaller_width: u32,
    smaller_height: u32,
    smaller_zoom: u8,
)
    requires
        smaller_width <= width,
        smaller_height <= height,
        is_selected_zoom(bounding_box, tile_size, width, height, max_zoom, zoom),
        is_selected_zoom(bounding_box, tile_size, smaller_width, smaller_height, max_zoom, smaller_zoom),
        some_level_fits(bounding_box, tile_size, smaller_width, smaller_height, max_zoom) || zoom != 0,
    ensures
        smaller_zoom <= zoom,
{
    if some_level_fits(bounding_box, tile_size, smaller_width, smaller_height, max_zoom) {
        lemma_fit_is_monotonic(
            bounding_box,
            tile_size,
            width,
            height,
            smaller_width,
            smaller_height,
            smaller_zoom as nat,
        );
        assert(some_level_fits(bounding_box, tile_size, width, height, max_zoom));
    }
}

} // verus!
