//! Rasters: the decoded tiles, the mosaic they are pasted into and the
//! finished snapshot.  The pixels live in buffers of the `image` crate; what
//! this crate states about them is stated over their width, their height and
//! the pixel at each column and row.

use vstd::prelude::*;

verus! {

/// A pixel as four channels: red, green, blue and alpha.
pub type Rgba8 = (u8, u8, u8, u8);

/// A decoded image of any pixel format, as a tile source hands it out.
#[verifier::external_type_specification]
#[verifier::external_body]
pub struct ExDynamicImage(image::DynamicImage);

/// An RGBA raster: a pixel buffer of the `image` crate.
#[verifier::external_body]
pub struct Raster {
    buffer: image::RgbaImage,
}

/// The number of pixel columns of an image.
pub uninterp spec fn image_width(image: image::DynamicImage) -> nat;

/// The number of pixel rows of an image.
pub uninterp spec fn image_height(image: image::DynamicImage) -> nat;

/// The pixels of an image in the RGBA format with eight bits per channel,
/// each under its column and its row.
pub uninterp spec fn image_pixels(image: image::DynamicImage) -> Map<(int, int), Rgba8>;

/// The number of pixel columns of a raster.
pub uninterp spec fn raster_width(image: Raster) -> nat;

/// The number of pixel rows of a raster.
pub uninterp spec fn raster_height(image: Raster) -> nat;

/// The pixels of a raster, each under its column and its row, both counted
/// from the top-left corner.
pub uninterp spec fn raster_pixels(image: Raster) -> Map<(int, int), Rgba8>;

/// What the alpha compositing of the `image` crate makes of the pixel `over`
/// laid on the pixel `under`.
pub uninterp spec fn blended(under: Rgba8, over: Rgba8) -> Rgba8;

/// A fully transparent black pixel.
pub open spec fn transparent() -> Rgba8 {
    (0u8, 0u8, 0u8, 0u8)
}

/// Whether (`column`, `row`) is a pixel of a canvas of `width` by `height`
/// pixels.
pub open spec fn on_canvas(width: nat, height: nat, column: int, row: int) -> bool {
    0 <= column < width && 0 <= row < height
}

/// Whether the pixel (`column`, `row`) of a canvas lies under an image of
/// `width` by `height` pixels whose top-left corner is at (`x`, `y`).
pub open spec fn covers(width: nat, height: nat, x: int, y: int, column: int, row: int) -> bool {
    x <= column < x + width && y <= row < y + height
}

/// Whether a raster has the size and the pixels of an image.
pub open spec fn shows_image(raster: Raster, image: image::DynamicImage) -> bool {
    &&& raster_width(raster) == image_width(image)
    &&& raster_height(raster) == image_height(image)
    &&& forall|column: int, row: int|
        on_canvas(image_width(image), image_height(image), column, row) ==> #[trigger] raster_pixels(
            raster,
        )[(column, row)] == image_pixels(image)[(column, row)]
}

/// `image::ImageBuffer::new`: a buffer of `width` by `height` pixels, all of
/// them zero in every channel.  The call panics where four bytes per pixel
/// exceed what a vector can hold, which `requires` leaves out.
#[verifier::external_body]
pub(crate) fn blank_image(width: u32, height: u32) -> (image: Raster)
    requires
        4 * width * height <= isize::MAX,
    ensures
        raster_width(image) == width,
        raster_height(image) == height,
        forall|column: int, row: int|
            on_canvas(width as nat, height as nat, column, row) ==> #[trigger] raster_pixels(image)[(
                column,
                row,
            )] == transparent(),
{
    Raster { buffer: image::RgbaImage::new(width, height) }
}

/// `image::ImageBuffer::dimensions`: the width and the height of an image.
#[verifier::external_body]
pub(crate) fn raster_dimensions(image: &Raster) -> (dimensions: (u32, u32))
    ensures
        dimensions.0 == raster_width(*image),
        dimensions.1 == raster_height(*image),
{
    image.buffer.dimensions()
}

/// `image::DynamicImage::to_rgba8`: a copy of an image in the RGBA format
/// with eight bits per channel.  The copy has the size of the image, and
/// its pixels are what this crate calls the pixels of the image.
#[verifier::external_body]
pub(crate) fn to_rgba8(tile: &image::DynamicImage) -> (image: Raster)
    ensures
        raster_width(image) == image_width(*tile),
        raster_height(image) == image_height(*tile),
        forall|column: int, row: int|
            on_canvas(image_width(*tile), image_height(*tile), column, row)
                ==> #[trigger] raster_pixels(image)[(column, row)] == image_pixels(*tile)[(
                column,
                row,
            )],
{
    Raster { buffer: tile.to_rgba8() }
}

/// `image::imageops::replace`: copies `top` into `bottom` with its top-left
/// corner at (`x`, `y`).  `bottom` keeps its size; its pixels under `top`
/// become those of `top`, the others stay, and what of `top` falls outside
/// `bottom` is cut off.
#[verifier::external_body]
pub(crate) fn paste(bottom: &mut Raster, top: &Raster, x: i64, y: i64)
    ensures
        raster_width(*final(bottom)) == raster_width(*old(bottom)),
        raster_height(*final(bottom)) == raster_height(*old(bottom)),
        forall|column: int, row: int|
            on_canvas(raster_width(*old(bottom)), raster_height(*old(bottom)), column, row)
                ==> #[trigger] raster_pixels(*final(bottom))[(column, row)] == (if covers(
                raster_width(*top),
                raster_height(*top),
                x as int,
                y as int,
                column,
                row,
            ) {
                raster_pixels(*top)[(column - x, row - y)]
            } else {
                raster_pixels(*old(bottom))[(column, row)]
            }),
{
    image::imageops::replace(&mut bottom.buffer, &top.buffer, x, y)
}

/// `image::imageops::overlay`: composites `top` onto `bottom` with its
/// top-left corner at (`x`, `y`).  `bottom` keeps its size; each of its
/// pixels under `top` becomes what the crate's alpha blending makes of it
/// and the pixel of `top` above it, the others stay.  Of the blending itself
/// two cases are stated: a fully transparent pixel of `top` changes nothing
/// and a fully opaque one replaces what is under it.
#[verifier::external_body]
pub(crate) fn overlay(bottom: &mut Raster, top: &Raster, x: i64, y: i64)
    ensures
        raster_width(*final(bottom)) == raster_width(*old(bottom)),
        raster_height(*final(bottom)) == raster_height(*old(bottom)),
        forall|column: int, row: int|
            on_canvas(raster_width(*old(bottom)), raster_height(*old(bottom)), column, row)
                ==> #[trigger] raster_pixels(*final(bottom))[(column, row)] == (if covers(
                raster_width(*top),
                raster_height(*top),
                x as int,
                y as int,
                column,
                row,
            ) {
                blended(
                    raster_pixels(*old(bottom))[(column, row)],
                    raster_pixels(*top)[(column - x, row - y)],
                )
            } else {
                raster_pixels(*old(bottom))[(column, row)]
            }),
        forall|column: int, row: int|
            on_canvas(raster_width(*old(bottom)), raster_height(*old(bottom)), column, row) && covers(
                raster_width(*top),
                raster_height(*top),
                x as int,
                y as int,
                column,
                row,
            ) && raster_pixels(*top)[(column - x, row - y)].3 == 255
                ==> #[trigger] raster_pixels(*final(bottom))[(column, row)] == raster_pixels(*top)[(
                column - x,
                row - y,
            )],
        forall|column: int, row: int|
            on_canvas(raster_width(*old(bottom)), raster_height(*old(bottom)), column, row) && covers(
                raster_width(*top),
                raster_height(*top),
                x as int,
                y as int,
                column,
                row,
            ) && raster_pixels(*top)[(column - x, row - y)].3 == 0
                ==> #[trigger] raster_pixels(*final(bottom))[(column, row)] == raster_pixels(
                *old(bottom),
            )[(column, row)],
{
    image::imageops::overlay(&mut bottom.buffer, &top.buffer, x, y)
}

/// `image::ImageBuffer::get_pixel`: the pixel at (`column`, `row`).  The call
/// panics outside the raster, which `requires` leaves out.
#[verifier::external_body]
fn pixel_at(image: &Raster, column: u32, row: u32) -> (pixel: Rgba8)
    requires
        on_canvas(raster_width(*image), raster_height(*image), column as int, row as int),
    ensures
        pixel == raster_pixels(*image)[(column as int, row as int)],
{
    let channels = image.buffer.get_pixel(column, row).0;
    (channels[0], channels[1], channels[2], channels[3])
}

/// `Clone::clone` of `image::ImageBuffer`: a raster of the same size with the
/// same pixels.
#[verifier::external_body]
pub(crate) fn copy_of(image: &Raster) -> (copy: Raster)
    ensures
        raster_width(copy) == raster_width(*image),
        raster_height(copy) == raster_height(*image),
        forall|column: int, row: int|
            on_canvas(raster_width(*image), raster_height(*image), column, row)
                ==> #[trigger] raster_pixels(copy)[(column, row)] == raster_pixels(*image)[(
                column,
                row,
            )],
{
    Raster { buffer: image.buffer.clone() }
}

/// `image::DynamicImage::ImageRgba8`: the raster as an image of the `image`
/// crate, which has its size and its pixels.
#[verifier::external_body]
fn into_dynamic(image: Raster) -> (dynamic: image::DynamicImage)
    ensures
        image_width(dynamic) == raster_width(image),
        image_height(dynamic) == raster_height(image),
        forall|column: int, row: int|
            on_canvas(raster_width(image), raster_height(image), column, row)
                ==> #[trigger] image_pixels(dynamic)[(column, row)] == raster_pixels(image)[(
                column,
                row,
            )],
{
    image::DynamicImage::ImageRgba8(image.buffer)
}

/// Whether a raster of `width` by `height` pixels can be held in memory:
/// its four bytes per pixel must not exceed the longest possible vector.
pub open spec fn fits_memory(width: u32, height: u32) -> bool {
    4 * width * height <= isize::MAX
}

/// Decides [`fits_memory`].
pub fn can_allocate(width: u32, height: u32) -> (fits: bool)
    ensures
        fits == fits_memory(width, height),
{
    let columns = width as u128;
    let rows = height as u128;
    assert(0 <= columns * rows <= 0xffff_ffff * 0xffff_ffff) by (nonlinear_arith)
        requires
            0 <= columns <= 0xffff_ffff,
            0 <= rows <= 0xffff_ffff,
    ;
    let pixels = columns * rows;
    assert(4 * width * height == 4 * pixels) by (nonlinear_arith)
        requires
            pixels == width * height,
    ;
    4 * pixels <= isize::MAX as u128
}

impl Raster {
    /// A raster of `width` by `height` fully transparent pixels, or `None`
    /// where such a raster cannot be held in memory.
    pub fn new(width: u32, height: u32) -> (created: Option<Raster>)
        ensures
            created is Some <==> fits_memory(width, height),
            created matches Some(image) ==> {
                &&& raster_width(image) == width
                &&& raster_height(image) == height
                &&& forall|column: int, row: int|
                    on_canvas(width as nat, height as nat, column, row) ==> #[trigger] raster_pixels(
                        image,
                    )[(column, row)] == transparent()
            },
    {
        if can_allocate(width, height) {
            Some(blank_image(width, height))
        } else {
            None
        }
    }

    /// Decodes an image into a raster of its size that holds its pixels.
    pub fn from_image(image: &image::DynamicImage) -> (decoded: Raster)
        ensures
            shows_image(decoded, *image),
    {
        to_rgba8(image)
    }

    /// Hands the raster out as an image of the `image` crate, which has its
    /// size and its pixels.
    pub fn into_image(self) -> (image: image::DynamicImage)
        ensures
            image_width(image) == raster_width(self),
            image_height(image) == raster_height(self),
            forall|column: int, row: int|
                on_canvas(raster_width(self), raster_height(self), column, row)
                    ==> #[trigger] image_pixels(image)[(column, row)] == raster_pixels(self)[(
                    column,
                    row,
                )],
    {
        into_dynamic(self)
    }

    /// The number of pixel columns.
    pub fn width(&self) -> (width: u32)
        ensures
            width == raster_width(*self),
    {
        raster_dimensions(self).0
    }

    /// The number of pixel rows.
    pub fn height(&self) -> (height: u32)
        ensures
            height == raster_height(*self),
    {
        raster_dimensions(self).1
    }

    /// The pixel at (`column`, `row`), or `None` outside the raster.
    pub fn pixel(&self, column: u32, row: u32) -> (pixel: Option<Rgba8>)
        ensures
            pixel == if on_canvas(raster_width(*self), raster_height(*self), column as int, row as int) {
                Some(raster_pixels(*self)[(column as int, row as int)])
            } else {
                None
            },
    {
        let (width, height) = raster_dimensions(self);
        if column < width && row < height {
            Some(pixel_at(self, column, row))
        } else {
            None
        }
    }
}

/// A decoded tile and the canvas pixel at which its top-left corner is
/// pasted.
pub struct FetchedTile {
    pub image: Raster,
    pub x: i64,
    pub y: i64,
}

/// Whether the tile lies over the place (`column`, `row`).
pub open spec fn tile_covers(tile: FetchedTile, column: int, row: int) -> bool {
    covers(raster_width(tile.image), raster_height(tile.image), tile.x as int, tile.y as int, column, row)
}

/// The pixel of the tile that lies over (`column`, `row`).
pub open spec fn tile_pixel(tile: FetchedTile, column: int, row: int) -> Rgba8 {
    raster_pixels(tile.image)[(column - tile.x, row - tile.y)]
}

/// What a raster shows at (`column`, `row`) once `tiles` have been pasted
/// into it in their order: the pixel of the tile that was pasted last over
/// that place, and `under`, what the raster showed before, where no tile
/// lies.
pub open spec fn pasted_pixel(tiles: Seq<FetchedTile>, under: Rgba8, column: int, row: int) -> Rgba8
    decreases tiles.len(),
{
    if tiles.len() == 0 {
        under
    } else {
        if tile_covers(tiles.last(), column, row) {
            tile_pixel(tiles.last(), column, row)
        } else {
            pasted_pixel(tiles.drop_last(), under, column, row)
        }
    }
}

/// What the mosaic of `tiles` shows at (`column`, `row`): the pixel of the
/// tile that was pasted last over that place, and a transparent pixel where
/// no tile lies.
pub open spec fn mosaic_pixel(tiles: Seq<FetchedTile>, column: int, row: int) -> Rgba8 {
    pasted_pixel(tiles, transparent(), column, row)
}

/// Where exactly one tile lies over a place, the mosaic shows the pixel of
/// that tile there, wherever in the order of pasting the tile stands: tiles
/// that do not overlap can be pasted in any order.
pub proof fn lemma_only_cover_shows(
    tiles: Seq<FetchedTile>,
    under: Rgba8,
    column: int,
    row: int,
    position: int,
)
    requires
        0 <= position < tiles.len(),
        forall|other: int|
            0 <= other < tiles.len() ==> (tile_covers(#[trigger] tiles[other], column, row) <==> other
                == position),
    ensures
        pasted_pixel(tiles, under, column, row) == tile_pixel(tiles[position], column, row),
    decreases tiles.len(),
{
    if position < tiles.len() - 1 {
        let before = tiles.drop_last();
        assert forall|other: int| 0 <= other < before.len() implies (tile_covers(
            #[trigger] before[other],
            column,
            row,
        ) <==> other == position) by {
            assert(before[other] == tiles[other]);
        }
        assert(!tile_covers(tiles[tiles.len() - 1], column, row));
        lemma_only_cover_shows(before, under, column, row, position);
    } else {
        assert(tile_covers(tiles[position], column, row));
    }
}

/// Where some tile lies over a place, the mosaic shows there the pixel of a
/// tile that lies over it.
pub proof fn lemma_covered_shows_a_tile(
    tiles: Seq<FetchedTile>,
    under: Rgba8,
    column: int,
    row: int,
    position: int,
)
    requires
        0 <= position < tiles.len(),
        tile_covers(tiles[position], column, row),
    ensures
        exists|shown: int|
            0 <= shown < tiles.len() && tile_covers(#[trigger] tiles[shown], column, row)
                && pasted_pixel(tiles, under, column, row) == tile_pixel(tiles[shown], column, row),
    decreases tiles.len(),
{
    let last = tiles.len() - 1;
    if tile_covers(tiles[last], column, row) {
        assert(pasted_pixel(tiles, under, column, row) == tile_pixel(tiles[last], column, row));
    } else {
        let before = tiles.drop_last();
        assert(before[position] == tiles[position]);
        lemma_covered_shows_a_tile(before, under, column, row, position);
        let shown = choose|shown: int|
            0 <= shown < before.len() && tile_covers(#[trigger] before[shown], column, row)
                && pasted_pixel(before, under, column, row) == tile_pixel(before[shown], column, row);
        assert(before[shown] == tiles[shown]);
    }
}

/// Where no tile lies over a place, the raster shows there what it showed
/// before.
pub proof fn lemma_uncovered_stays(tiles: Seq<FetchedTile>, under: Rgba8, column: int, row: int)
    requires
        forall|other: int| 0 <= other < tiles.len() ==> !tile_covers(#[trigger] tiles[other], column, row),
    ensures
        pasted_pixel(tiles, under, column, row) == under,
    decreases tiles.len(),
{
    if tiles.len() > 0 {
        let before = tiles.drop_last();
        assert forall|other: int| 0 <= other < before.len() implies !tile_covers(
            #[trigger] before[other],
            column,
            row,
        ) by {
            assert(before[other] == tiles[other]);
        }
        assert(!tile_covers(tiles[tiles.len() - 1], column, row));
        lemma_uncovered_stays(before, under, column, row);
    }
}

/// Pastes `tiles` into `image`, in their order.  What of a tile falls
/// outside the raster is cut off.
pub fn paste_tiles(image: &mut Raster, tiles: &Vec<FetchedTile>)
    ensures
        raster_width(*final(image)) == raster_width(*old(image)),
        raster_height(*final(image)) == raster_height(*old(image)),
        forall|column: int, row: int|
            on_canvas(raster_width(*old(image)), raster_height(*old(image)), column, row)
                ==> #[trigger] raster_pixels(*final(image))[(column, row)] == pasted_pixel(
                tiles@,
                raster_pixels(*old(image))[(column, row)],
                column,
                row,
            ),
{
    let mut done: usize = 0;
    while done < tiles.len()
        invariant
            done <= tiles.len(),
            raster_width(*image) == raster_width(*old(image)),
            raster_height(*image) == raster_height(*old(image)),
            forall|column: int, row: int|
                on_canvas(raster_width(*old(image)), raster_height(*old(image)), column, row)
                    ==> #[trigger] raster_pixels(*image)[(column, row)] == pasted_pixel(
                    tiles@.take(done as int),
                    raster_pixels(*old(image))[(column, row)],
                    column,
                    row,
                ),
        decreases tiles.len() - done,
    {
        let tile = &tiles[done];
        paste(image, &tile.image, tile.x, tile.y);
        proof {
            let next = tiles@.take(done + 1);
            assert(next.drop_last() =~= tiles@.take(done as int));
            assert(next.last() == tiles@[done as int]);
        }
        done = done + 1;
    }
    proof {
        assert(tiles@.take(done as int) =~= tiles@);
    }
}

/// Pastes `tiles`, in their order, into a transparent canvas of `width` by
/// `height` pixels.
pub fn assemble_mosaic(width: u32, height: u32, tiles: &Vec<FetchedTile>) -> (mosaic: Raster)
    requires
        fits_memory(width, height),
    ensures
        raster_width(mosaic) == width,
        raster_height(mosaic) == height,
        forall|column: int, row: int|
            on_canvas(width as nat, height as nat, column, row) ==> #[trigger] raster_pixels(mosaic)[(
                column,
                row,
            )] == mosaic_pixel(tiles@, column, row),
{
    let mut mosaic = blank_image(width, height);
    paste_tiles(&mut mosaic, tiles);
    mosaic
}

/// Merges the overlay onto the mosaic by alpha compositing: every pixel of
/// the mosaic that lies under the overlay is blended with the overlay's
/// pixel above it.  The overlay's top-left corner is that of the mosaic.
pub fn composite(mosaic: Raster, overlay_layer: &Raster) -> (snapshot: Raster)
    ensures
        raster_width(snapshot) == raster_width(mosaic),
        raster_height(snapshot) == raster_height(mosaic),
        forall|column: int, row: int|
            on_canvas(raster_width(mosaic), raster_height(mosaic), column, row)
                ==> #[trigger] raster_pixels(snapshot)[(column, row)] == composited_pixel(
                mosaic,
                *overlay_layer,
                column,
                row,
            ),
{
    let mut snapshot = mosaic;
    overlay(&mut snapshot, overlay_layer, 0, 0);
    snapshot
}

/// What the snapshot shows at (`column`, `row`) once `overlay_layer` has
/// been composited onto `mosaic`: outside the overlay the mosaic, under a
/// fully transparent pixel of the overlay the mosaic, under a fully opaque
/// one that pixel, and else the blend of the two.
pub open spec fn composited_pixel(mosaic: Raster, overlay_layer: Raster, column: int, row: int) -> Rgba8 {
    let under = raster_pixels(mosaic)[(column, row)];
    let over = raster_pixels(overlay_layer)[(column, row)];
    if !on_canvas(raster_width(overlay_layer), raster_height(overlay_layer), column, row) {
        under
    } else if over.3 == 0 {
        under
    } else if over.3 == 255 {
        over
    } else {
        blended(under, over)
    }
}

} // verus!
