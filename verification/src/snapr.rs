//! The snapshot compositor: from the configuration of a snapshot and a tile
//! source to the mosaic of tiles, the overlay of drawables and the merged
//! image.

use vstd::prelude::*;
use crate::drawing::added;
use crate::drawing::canvas::Canvas;
use crate::drawing::canvas::CommandView;
use crate::drawing::Context;
use crate::drawing::draw_one;
use crate::drawing::Drawable;
use crate::drawing::geometry::all_are_drawable;
use crate::drawing::geometry::draw_sequence;
use crate::drawing::geometry::sequence_commands;
use crate::drawing::geometry::styled::all_styled_are_drawable;
use crate::drawing::geometry::styled::all_styled_are_plain;
use crate::drawing::geometry::styled::bounding_rect_of_styled;
use crate::drawing::geometry::styled::draw_styled_sequence;
use crate::drawing::geometry::styled::styled_coords;
use crate::drawing::geometry::styled::styled_sequence_ask;
use crate::drawing::geometry::styled::styled_sequence_commands;
use crate::drawing::geometry::styled::StyledGeometry;
use crate::drawing::may_draw;
use crate::error::SnaprError;
use crate::fetchers::answers_every_cell;
use crate::fetchers::fills_grid;
use crate::fetchers::first_missized;
use crate::fetchers::follows_matches;
use crate::fetchers::has_tile_size;
use crate::fetchers::lemma_full_batch_fills_grid;
use crate::fetchers::matches_of;
use crate::fetchers::TileFetcher;
use crate::fetchers::TileImage;
use crate::geometry::bounding_rect_of;
use crate::geometry::bounds_from;
use crate::geometry::geometries_coords;
use crate::geometry::Geometry;
use crate::geometry::Rect;
use crate::projection::Coord;
use crate::projection::MAX_ZOOM;
use crate::projection::WorldPoint;
use crate::raster::blank_image;
use crate::raster::composite;
use crate::raster::composited_pixel;
use crate::raster::FetchedTile;
use crate::raster::fits_memory;
use crate::raster::lemma_covered_shows_a_tile;
use crate::raster::mosaic_pixel;
use crate::raster::on_canvas;
use crate::raster::paste_tiles;
use crate::raster::pasted_pixel;
use crate::raster::Raster;
use crate::raster::raster_height;
use crate::raster::raster_pixels;
use crate::raster::raster_width;
use crate::raster::tile_covers;
use crate::raster::tile_pixel;
use crate::raster::transparent;
use crate::tiles::covers_along;
use crate::tiles::grid_of;
use crate::tiles::is_ordinary;
use crate::tiles::lemma_grid_covers_the_output;
use crate::tiles::tile_grid;
use crate::zoom::is_selected_zoom;
use crate::zoom::select_zoom;
use crate::zoom::Zoom;

verus! {

/// The configuration of a snapshot.
#[derive(Clone, Copy, Debug, PartialEq, Eq, Structural)]
pub struct SnapshotConfig {
    /// The length of the side of a tile in pixels.
    pub tile_size: u32,
    /// The width of the snapshot in pixels.
    pub width: u32,
    /// The height of the snapshot in pixels.
    pub height: u32,
    /// How the zoom level is decided.
    pub zoom: Zoom,
}

impl SnapshotConfig {
    /// The configuration that a snapshot has unless told otherwise: tiles of
    /// 256 pixels, an output of 800 by 600 pixels and an automatic zoom up
    /// to level 17.
    pub open spec fn standard() -> SnapshotConfig {
        SnapshotConfig { tile_size: 256, width: 800, height: 600, zoom: Zoom::Automatic(17) }
    }

    /// The tiles have a size and the zoom policy names levels that the tile
    /// grid can address.
    pub open spec fn wf(self) -> bool {
        self.tile_size > 0 && self.zoom.wf()
    }

    /// Decides [`SnapshotConfig::wf`].
    pub fn is_supported(&self) -> (supported: bool)
        ensures
            supported == self.wf(),
    {
        let level = match self.zoom {
            Zoom::Constant(level) => level,
            Zoom::Automatic(level) => level,
        };
        self.tile_size > 0 && level <= MAX_ZOOM
    }
}

impl Default for SnapshotConfig {
    fn default() -> (config: SnapshotConfig)
        ensures
            config == SnapshotConfig::standard(),
    {
        SnapshotConfig { tile_size: 256, width: 800, height: 600, zoom: Zoom::default() }
    }
}

/// Makes snapshots: holds the tile source and the configuration.
pub struct Snapr<'a> {
    /// Where the tiles of the mosaic come from.
    pub tile_fetcher: TileFetcher<'a>,
    /// The size of the tiles and of the output, and the zoom policy.
    pub config: SnapshotConfig,
}

/// Whether `after` is `before` with `tiles` pasted into it.
pub open spec fn shows_tiles(after: Raster, before: Raster, tiles: Seq<FetchedTile>) -> bool {
    &&& raster_width(after) == raster_width(before)
    &&& raster_height(after) == raster_height(before)
    &&& forall|column: int, row: int|
        on_canvas(raster_width(before), raster_height(before), column, row) ==> #[trigger] raster_pixels(
            after,
        )[(column, row)] == pasted_pixel(tiles, raster_pixels(before)[(column, row)], column, row)
}

/// Whether `mosaic` is a raster of `width` by `height` pixels that shows
/// `tiles` on a transparent ground.
pub open spec fn shows_mosaic(mosaic: Raster, width: u32, height: u32, tiles: Seq<FetchedTile>) -> bool {
    &&& raster_width(mosaic) == width
    &&& raster_height(mosaic) == height
    &&& forall|column: int, row: int|
        on_canvas(width as nat, height as nat, column, row) ==> #[trigger] raster_pixels(mosaic)[(
            column,
            row,
        )] == mosaic_pixel(tiles, column, row)
}

/// Whether every one of `tiles` has the tile size.
pub open spec fn all_have_tile_size(tiles: Seq<FetchedTile>, tile_size: u32) -> bool {
    forall|position: int|
        0 <= position < tiles.len() ==> has_tile_size((#[trigger] tiles[position]).image, tile_size)
}

/// Whether `filled` and the raster it left are what a fetch comes to when
/// the raster is filled: where the fetch gave tiles they are pasted, in
/// their order, and where it failed its error is handed on and the raster
/// is as it was.
pub open spec fn filled_from(
    before: Raster,
    after: Raster,
    fetched: Result<Vec<FetchedTile>, SnaprError>,
    filled: Result<(), SnaprError>,
) -> bool {
    match fetched {
        Ok(tiles) => filled is Ok && shows_tiles(after, before, tiles@),
        Err(error) => filled == Err::<(), SnaprError>(error) && after == before,
    }
}

/// Whether `snapshot` is what a fetch comes to when the snapshot is made
/// under `overlay_layer`: where the fetch gave tiles, a raster of `width`
/// by `height` pixels that shows at each place the overlay composited onto
/// the mosaic of the tiles, and where it failed, its error.
pub open spec fn snapshot_from(
    width: u32,
    height: u32,
    overlay_layer: Raster,
    fetched: Result<Vec<FetchedTile>, SnaprError>,
    snapshot: Result<Raster, SnaprError>,
) -> bool {
    match fetched {
        Ok(tiles) => {
            &&& snapshot matches Ok(merged)
            &&& raster_width(merged) == width
            &&& raster_height(merged) == height
            &&& exists|mosaic: Raster|
                {
                    &&& #[trigger] shows_mosaic(mosaic, width, height, tiles@)
                    &&& forall|column: int, row: int|
                        on_canvas(width as nat, height as nat, column, row) ==> #[trigger] raster_pixels(
                            merged,
                        )[(column, row)] == composited_pixel(mosaic, overlay_layer, column, row)
                }
        },
        Err(error) => snapshot == Err::<Raster, SnaprError>(error),
    }
}

/// Whether the drawable at `place` was drawn: there is an outcome for it.
pub open spec fn has_outcome(outcomes: Seq<Result<(), SnaprError>>, place: int) -> bool {
    0 <= place < outcomes.len()
}

/// Whether `overlay` is what the outcomes of drawables come to when `count`
/// of them are drawn one after the other onto a new canvas of `width` by
/// `height` pixels.  `canvases` are the canvas at the start and the canvas
/// that each drawable left, `outcomes` what each drawable returned; there
/// is an outcome for each drawable up to the first that failed and for none
/// after it.  The overlay is the error of the drawable that failed, or,
/// where none did, the canvas that the last one left.
pub open spec fn overlay_follows(
    width: u32,
    height: u32,
    count: int,
    canvases: Seq<Canvas>,
    outcomes: Seq<Result<(), SnaprError>>,
    overlay: Result<Canvas, SnaprError>,
) -> bool {
    &&& outcomes.len() <= count
    &&& canvases.len() == outcomes.len() + 1
    &&& canvases[0]@ == Seq::<CommandView>::empty()
    &&& canvases[0].spec_width() == width
    &&& canvases[0].spec_height() == height
    &&& forall|place: int| 0 <= place < outcomes.len() - 1 ==> (#[trigger] outcomes[place]) is Ok
    &&& if outcomes.len() == count && (count == 0 || outcomes.last() is Ok) {
        overlay == Ok::<Canvas, SnaprError>(canvases.last())
    } else {
        &&& outcomes.len() > 0
        &&& outcomes.last() matches Err(error)
        &&& overlay == Err::<Canvas, SnaprError>(error)
    }
}

/// The mosaic of an ordinary snapshot has no gaps: where the tiles fill the
/// grid, every pixel of the output shows a pixel of one of them.
pub proof fn lemma_mosaic_is_complete(
    tiles: Seq<FetchedTile>,
    tile_size: u32,
    width: u32,
    height: u32,
    zoom: u8,
    center: Coord,
    column: int,
    row: int,
)
    requires
        tile_size > 0,
        zoom <= MAX_ZOOM,
        is_ordinary(width, center.x),
        is_ordinary(height, center.y),
        on_canvas(width as nat, height as nat, column, row),
        fills_grid(tiles, grid_of(tile_size, width, height, zoom, center), tile_size),
    ensures
        exists|shown: int|
            0 <= shown < tiles.len() && tile_covers(#[trigger] tiles[shown], column, row)
                && mosaic_pixel(tiles, column, row) == tile_pixel(tiles[shown], column, row),
{
    lemma_grid_covers_the_output(tile_size, width, height, zoom, center, column, row);
    let grid = grid_of(tile_size, width, height, zoom, center);
    let position = choose|position: int|
        0 <= position < grid.len() && covers_along(
            (#[trigger] grid[position]).x as int,
            tile_size,
            column,
        ) && covers_along(grid[position].y as int, tile_size, row);
    assert(has_tile_size(tiles[position].image, tile_size));
    assert(tile_covers(tiles[position], column, row));
    lemma_covered_shows_a_tile(tiles, transparent(), column, row, position);
}

/// The mosaic of an ordinary snapshot has no gaps for a batch source
/// either, where the batch holds a tile of the tile size for every cell
/// that was asked for.
pub proof fn lemma_batch_mosaic_is_complete(
    returned: Seq<TileImage>,
    tiles: Seq<FetchedTile>,
    tile_size: u32,
    width: u32,
    height: u32,
    zoom: u8,
    center: Coord,
    column: int,
    row: int,
)
    requires
        tile_size > 0,
        zoom <= MAX_ZOOM,
        is_ordinary(width, center.x),
        is_ordinary(height, center.y),
        on_canvas(width as nat, height as nat, column, row),
        answers_every_cell(grid_of(tile_size, width, height, zoom, center), returned),
        first_missized(returned, tile_size, 0) == returned.len(),
        follows_matches(
            tiles,
            matches_of(grid_of(tile_size, width, height, zoom, center), returned),
            returned,
        ),
    ensures
        exists|shown: int|
            0 <= shown < tiles.len() && tile_covers(#[trigger] tiles[shown], column, row)
                && mosaic_pixel(tiles, column, row) == tile_pixel(tiles[shown], column, row),
{
    lemma_full_batch_fills_grid(
        grid_of(tile_size, width, height, zoom, center),
        returned,
        tile_size,
        tiles,
    );
    lemma_mosaic_is_complete(tiles, tile_size, width, height, zoom, center, column, row);
}

impl<'a> Snapr<'a> {
    /// Scales a position to `zoom`.
    pub fn epsg_4326_to_epsg_3857(zoom: u8, point: Coord) -> (world: WorldPoint)
        requires
            zoom <= MAX_ZOOM,
        ensures
            world.x == crate::projection::world_axis(zoom, point.x),
            world.y == crate::projection::world_axis(zoom, point.y),
    {
        crate::projection::epsg_4326_to_epsg_3857(zoom, point)
    }

    /// The zoom level of a snapshot of geometries whose bounding box is
    /// `bounding_box`.  A constant policy gives its level; the automatic
    /// policy selects the highest level at which the bounding box fits the
    /// output, and fails where there is no bounding box.
    pub fn zoom_from_geometries(&self, bounding_box: Option<&Rect>) -> (zoom: Result<u8, SnaprError>)
        requires
            self.config.zoom.wf(),
        ensures
            match (self.config.zoom, bounding_box) {
                (Zoom::Constant(level), _) => zoom matches Ok(selected) && selected == level,
                (Zoom::Automatic(_), None) => zoom matches Err(error) && error is BoundingBoxCalculation,
                (Zoom::Automatic(max_level), Some(bounds)) => zoom matches Ok(selected)
                    && is_selected_zoom(
                    *bounds,
                    self.config.tile_size,
                    self.config.width,
                    self.config.height,
                    max_level,
                    selected,
                ),
            },
            zoom matches Ok(selected) ==> selected <= MAX_ZOOM,
    {
        match self.config.zoom {
            Zoom::Constant(level) => Ok(level),
            Zoom::Automatic(max_level) => match bounding_box {
                Some(bounds) => Ok(
                    select_zoom(
                        bounds,
                        self.config.tile_size,
                        self.config.width,
                        self.config.height,
                        max_level,
                    ),
                ),
                None => Err(SnaprError::BoundingBoxCalculation),
            },
        }
    }

    /// The context of a snapshot of geometries whose centre is `center` and
    /// whose bounding box is `bounding_box`.  Geometries without a centre
    /// make no snapshot; neither do, under the automatic zoom policy,
    /// geometries without a bounding box.
    pub fn context(&self, center: Option<Coord>, bounding_box: Option<&Rect>) -> (context: Result<
        Context,
        SnaprError,
    >)
        requires
            self.config.zoom.wf(),
        ensures
            center is None ==> (context matches Err(error) && error is CentroidCalculation),
            center is Some && self.config.zoom is Automatic && bounding_box is None ==> (
            context matches Err(error) && error is BoundingBoxCalculation),
            center is Some && (self.config.zoom is Constant || bounding_box is Some) ==> context is Ok,
            context matches Ok(made) ==> {
                &&& made.wf()
                &&& made.tile_size == self.config.tile_size
                &&& made.width == self.config.width
                &&& made.height == self.config.height
                &&& made.center == center->0
                &&& made.index == 0
                &&& match self.config.zoom {
                    Zoom::Constant(level) => made.zoom == level,
                    Zoom::Automatic(max_level) => is_selected_zoom(
                        *bounding_box->0,
                        self.config.tile_size,
                        self.config.width,
                        self.config.height,
                        max_level,
                        made.zoom,
                    ),
                }
            },
    {
        let middle = match center {
            Some(middle) => middle,
            None => {
                return Err(SnaprError::CentroidCalculation);
            },
        };
        let zoom = match self.zoom_from_geometries(bounding_box) {
            Ok(zoom) => zoom,
            Err(error) => {
                return Err(error);
            },
        };
        Ok(
            Context {
                tile_size: self.config.tile_size,
                width: self.config.width,
                height: self.config.height,
                center: middle,
                zoom,
                index: 0,
            },
        )
    }

    /// Fills `image` with the tiles round `center` at `zoom`: the tile grid
    /// of the snapshot is laid out, its tiles are fetched from the tile
    /// source, each is held to the tile size, and all are pasted at their
    /// offsets.  Where the source fails or a tile has not the tile size,
    /// nothing is pasted.
    pub fn overlay_backing_tiles(&self, image: &mut Raster, center: Coord, zoom: u8) -> (filled: Result<
        (),
        SnaprError,
    >)
        requires
            self.config.tile_size > 0,
            zoom <= MAX_ZOOM,
        ensures
            exists|fetched: Result<Vec<FetchedTile>, SnaprError>|
                {
                    &&& #[trigger] self.tile_fetcher.fetched(
                        grid_of(
                            self.config.tile_size,
                            self.config.width,
                            self.config.height,
                            zoom,
                            center,
                        ),
                        zoom,
                        self.config.tile_size,
                        fetched,
                    )
                    &&& filled_from(*old(image), *final(image), fetched, filled)
                },
            filled is Ok ==> exists|tiles: Seq<FetchedTile>|
                {
                    &&& #[trigger] shows_tiles(*final(image), *old(image), tiles)
                    &&& all_have_tile_size(tiles, self.config.tile_size)
                    &&& self.tile_fetcher is Individual ==> fills_grid(
                        tiles,
                        grid_of(
                            self.config.tile_size,
                            self.config.width,
                            self.config.height,
                            zoom,
                            center,
                        ),
                        self.config.tile_size,
                    )
                },
            filled is Err ==> *final(image) == *old(image),
    {
        let grid = tile_grid(
            self.config.tile_size,
            self.config.width,
            self.config.height,
            zoom,
            center,
        );
        assert forall|position: int| 0 <= position < grid.len() implies (#[trigger] grid[position]).tile.zoom
            == zoom by {
            assert(grid[position] == crate::tiles::grid_cell(
                self.config.tile_size,
                self.config.width,
                self.config.height,
                zoom,
                center,
                position,
            ));
        }
        let fetched = self.tile_fetcher.fetch_grid(&grid, zoom, self.config.tile_size);
        let ghost outcome = fetched;
        let tiles = match fetched {
            Ok(tiles) => tiles,
            Err(error) => {
                proof {
                    assert(filled_from(*old(image), *image, outcome, Err(error)));
                }
                return Err(error);
            },
        };
        paste_tiles(image, &tiles);
        proof {
            assert(shows_tiles(*image, *old(image), tiles@));
            assert(filled_from(*old(image), *image, outcome, Ok(())));
        }
        Ok(())
    }

    /// Makes the snapshot of `context` under `overlay_layer`, the overlay as
    /// the drawing primitives rendered it: a transparent raster of the size
    /// of the output is filled with the tiles round the centre of the
    /// context, and the overlay is composited onto it.  No snapshot is made
    /// where the tiles fail.
    pub fn generate_snapshot(&self, context: &Context, overlay_layer: &Raster) -> (snapshot: Result<
        Raster,
        SnaprError,
    >)
        requires
            self.config.tile_size > 0,
            context.wf(),
            fits_memory(self.config.width, self.config.height),
        ensures
            exists|fetched: Result<Vec<FetchedTile>, SnaprError>|
                {
                    &&& #[trigger] self.tile_fetcher.fetched(
                        grid_of(
                            self.config.tile_size,
                            self.config.width,
                            self.config.height,
                            context.zoom,
                            context.center,
                        ),
                        context.zoom,
                        self.config.tile_size,
                        fetched,
                    )
                    &&& snapshot_from(
                        self.config.width,
                        self.config.height,
                        *overlay_layer,
                        fetched,
                        snapshot,
                    )
                },
            snapshot matches Ok(merged) ==> {
                &&& raster_width(merged) == self.config.width
                &&& raster_height(merged) == self.config.height
                &&& exists|tiles: Seq<FetchedTile>, mosaic: Raster|
                    {
                        &&& #[trigger] shows_mosaic(mosaic, self.config.width, self.config.height, tiles)
                        &&& all_have_tile_size(tiles, self.config.tile_size)
                        &&& self.tile_fetcher is Individual ==> fills_grid(
                            tiles,
                            grid_of(
                                self.config.tile_size,
                                self.config.width,
                                self.config.height,
                                context.zoom,
                                context.center,
                            ),
                            self.config.tile_size,
                        )
                        &&& forall|column: int, row: int|
                            on_canvas(
                                self.config.width as nat,
                                self.config.height as nat,
                                column,
                                row,
                            ) ==> #[trigger] raster_pixels(merged)[(column, row)] == composited_pixel(
                                mosaic,
                                *overlay_layer,
                                column,
                                row,
                            )
                    }
            },
    {
        let mut mosaic = blank_image(self.config.width, self.config.height);
        let ghost blank = mosaic;
        let filling = self.overlay_backing_tiles(&mut mosaic, context.center, context.zoom);
        let ghost fetched = choose|fetched: Result<Vec<FetchedTile>, SnaprError>|
            {
                &&& #[trigger] self.tile_fetcher.fetched(
                    grid_of(
                        self.config.tile_size,
                        self.config.width,
                        self.config.height,
                        context.zoom,
                        context.center,
                    ),
                    context.zoom,
                    self.config.tile_size,
                    fetched,
                )
                &&& filled_from(blank, mosaic, fetched, filling)
            };
        match filling {
            Ok(()) => {},
            Err(error) => {
                proof {
                    assert(snapshot_from(
                        self.config.width,
                        self.config.height,
                        *overlay_layer,
                        fetched,
                        Err(error),
                    ));
                }
                return Err(error);
            },
        }
        let ghost tiles = choose|tiles: Seq<FetchedTile>|
            {
                &&& #[trigger] shows_tiles(mosaic, blank, tiles)
                &&& all_have_tile_size(tiles, self.config.tile_size)
                &&& self.tile_fetcher is Individual ==> fills_grid(
                    tiles,
                    grid_of(
                        self.config.tile_size,
                        self.config.width,
                        self.config.height,
                        context.zoom,
                        context.center,
                    ),
                    self.config.tile_size,
                )
            };
        let ghost filled = mosaic;
        assert(shows_mosaic(filled, self.config.width, self.config.height, tiles));
        let merged = composite(mosaic, overlay_layer);
        proof {
            assert(shows_mosaic(filled, self.config.width, self.config.height, fetched.unwrap()@));
            assert(snapshot_from(
                self.config.width,
                self.config.height,
                *overlay_layer,
                fetched,
                Ok(merged),
            ));
        }
        Ok(merged)
    }

    /// Lays out the overlay of a snapshot of `geometries` round `center`:
    /// the zoom level is decided from their bounding box, and each geometry
    /// is drawn onto a new canvas of the size of the output in the style
    /// that its kind has unless told otherwise, in their order.
    ///
    /// Geometries without a centre make no snapshot; neither do, under the
    /// automatic zoom policy, geometries without a position between them;
    /// neither do geometries of which one makes no path.
    pub fn overlay_from_geometries(&self, geometries: &Vec<Geometry>, center: Option<Coord>) -> (overlay:
        Result<(Context, Canvas), SnaprError>)
        requires
            self.config.zoom.wf(),
        ensures
            center is None ==> (overlay matches Err(error) && error is CentroidCalculation),
            center is Some && self.config.zoom is Automatic && geometries_coords(geometries@).len() == 0
                ==> (overlay matches Err(error) && error is BoundingBoxCalculation),
            center is Some && (self.config.zoom is Constant || geometries_coords(geometries@).len() > 0)
                && !all_are_drawable(geometries@) ==> (overlay matches Err(error)
                && error is PathConstruction),
            center is Some && (self.config.zoom is Constant || geometries_coords(geometries@).len() > 0)
                && all_are_drawable(geometries@) ==> overlay is Ok,
            overlay matches Ok((context, canvas)) ==> {
                &&& context.wf()
                &&& context.tile_size == self.config.tile_size
                &&& context.width == self.config.width
                &&& context.height == self.config.height
                &&& context.center == center->0
                &&& context.index == 0
                &&& match self.config.zoom {
                    Zoom::Constant(level) => context.zoom == level,
                    Zoom::Automatic(max_level) => is_selected_zoom(
                        bounds_from(None, geometries_coords(geometries@))->0,
                        self.config.tile_size,
                        self.config.width,
                        self.config.height,
                        max_level,
                        context.zoom,
                    ),
                }
                &&& canvas@ == sequence_commands(geometries@, context)
                &&& canvas.spec_width() == self.config.width
                &&& canvas.spec_height() == self.config.height
            },
    {
        let bounds = bounding_rect_of(geometries);
        let context = match self.context(center, bounds.as_ref()) {
            Ok(context) => context,
            Err(error) => {
                return Err(error);
            },
        };
        let mut canvas = Canvas::new(self.config.width, self.config.height);
        match draw_sequence(&mut canvas, geometries, &context) {
            Ok(()) => {},
            Err(error) => {
                return Err(error);
            },
        }
        assert(canvas@ =~= sequence_commands(geometries@, context));
        Ok((context, canvas))
    }

    /// Lays out the overlay of a snapshot of styled geometries round
    /// `center`, as [`Snapr::overlay_from_geometries`] does of geometries:
    /// each is drawn in its own style, and where no style has an effect the
    /// overlay holds exactly what the styles ask for.
    pub fn overlay_from_styled_geometries(
        &self,
        geometries: &Vec<StyledGeometry<'_>>,
        center: Option<Coord>,
    ) -> (overlay: Result<(Context, Canvas), SnaprError>)
        requires
            self.config.zoom.wf(),
        ensures
            center is None ==> (overlay matches Err(error) && error is CentroidCalculation),
            center is Some && self.config.zoom is Automatic && styled_coords(geometries@).len() == 0
                ==> (overlay matches Err(error) && error is BoundingBoxCalculation),
            center is Some && (self.config.zoom is Constant || styled_coords(geometries@).len() > 0)
                && !all_styled_are_drawable(geometries@) ==> (overlay matches Err(error)
                && error is PathConstruction),
            center is Some && (self.config.zoom is Constant || styled_coords(geometries@).len() > 0)
                && all_styled_are_drawable(geometries@) ==> overlay is Ok,
            overlay matches Ok((context, canvas)) ==> {
                &&& context.wf()
                &&& context.tile_size == self.config.tile_size
                &&& context.width == self.config.width
                &&& context.height == self.config.height
                &&& context.center == center->0
                &&& context.index == 0
                &&& match self.config.zoom {
                    Zoom::Constant(level) => context.zoom == level,
                    Zoom::Automatic(max_level) => is_selected_zoom(
                        bounds_from(None, styled_coords(geometries@))->0,
                        self.config.tile_size,
                        self.config.width,
                        self.config.height,
                        max_level,
                        context.zoom,
                    ),
                }
                &&& styled_sequence_ask(geometries@, context, canvas@)
                &&& all_styled_are_plain(geometries@) ==> canvas@ == styled_sequence_commands(
                    geometries@,
                    context,
                )
                &&& canvas.spec_width() == self.config.width
                &&& canvas.spec_height() == self.config.height
            },
    {
        let bounds = bounding_rect_of_styled(geometries);
        let context = match self.context(center, bounds.as_ref()) {
            Ok(context) => context,
            Err(error) => {
                return Err(error);
            },
        };
        let mut canvas = Canvas::new(self.config.width, self.config.height);
        let ghost blank = canvas;
        match draw_styled_sequence(&mut canvas, geometries, &context) {
            Ok(()) => {},
            Err(error) => {
                return Err(error);
            },
        }
        proof {
            assert(added(canvas, blank) =~= canvas@);
            if all_styled_are_plain(geometries@) {
                assert(canvas@ =~= styled_sequence_commands(geometries@, context));
            }
        }
        Ok((context, canvas))
    }

    /// Draws `drawables` onto a new canvas of the size of the output, in
    /// their order, each told its place among them as its index, and stops
    /// at the first that fails.
    ///
    /// Whether a drawable fails and what it asks for is its own affair.  What
    /// is stated is how the overlay comes about from the outcomes of the
    /// drawables' own `draw`: there is one outcome for each drawable up to
    /// the first that failed, each drawable was handed the canvas that the
    /// one before it left and the context with its own place as index, and
    /// the overlay is the error of the one that failed, or the canvas that
    /// the last one left.
    pub fn draw_overlay(&self, drawables: &Vec<&dyn Drawable>, context: &Context) -> (overlay: Result<
        Canvas,
        SnaprError,
    >)
        requires
            context.wf(),
        ensures
            exists|canvases: Seq<Canvas>, outcomes: Seq<Result<(), SnaprError>>|
                {
                    &&& #[trigger] overlay_follows(
                        self.config.width,
                        self.config.height,
                        drawables.len() as int,
                        canvases,
                        outcomes,
                        overlay,
                    )
                    &&& forall|place: int|
                        #[trigger] has_outcome(outcomes, place) ==> exists|step: &mut Canvas|
                            *step == canvases[place] && *final(step) == canvases[place + 1]
                                && #[trigger] may_draw(
                                drawables[place],
                                step,
                                &context.at(place as usize),
                                outcomes[place],
                            )
                },
            overlay matches Ok(canvas) ==> canvas.spec_width() == self.config.width
                && canvas.spec_height() == self.config.height,
            drawables.len() == 0 ==> (overlay matches Ok(canvas) && canvas@
                == Seq::<CommandView>::empty()),
    {
        let mut canvas = Canvas::new(self.config.width, self.config.height);
        let mut done: usize = 0;
        let ghost mut canvases: Seq<Canvas> = seq![canvas];
        let ghost mut outcomes: Seq<Result<(), SnaprError>> = Seq::empty();
        while done < drawables.len()
            invariant
                context.wf(),
                done <= drawables.len(),
                canvas.spec_width() == self.config.width,
                canvas.spec_height() == self.config.height,
                drawables.len() == 0 ==> canvas@ == Seq::<CommandView>::empty(),
                outcomes.len() == done,
                canvases.len() == done + 1,
                canvases[0]@ == Seq::<CommandView>::empty(),
                canvases[0].spec_width() == self.config.width,
                canvases[0].spec_height() == self.config.height,
                canvases[done as int] == canvas,
                forall|place: int| 0 <= place < done ==> (#[trigger] outcomes[place]) is Ok,
                forall|place: int|
                    #[trigger] has_outcome(outcomes, place) ==> exists|step: &mut Canvas|
                        *step == canvases[place] && *final(step) == canvases[place + 1]
                            && #[trigger] may_draw(
                            drawables[place],
                            step,
                            &context.at(place as usize),
                            outcomes[place],
                        ),
            decreases drawables.len() - done,
        {
            let place = context.with_index(done);
            let ghost before = canvas;
            let drawn = draw_one(drawables[done], &mut canvas, &place);
            proof {
                let step = choose|step: &mut Canvas|
                    *step == before && *final(step) == canvas && #[trigger] may_draw(
                        drawables[done as int],
                        step,
                        &place,
                        drawn,
                    );
                let ghost earlier_canvases = canvases;
                let ghost earlier_outcomes = outcomes;
                canvases = canvases.push(canvas);
                outcomes = outcomes.push(drawn);
                assert forall|position: int| #[trigger]
                    has_outcome(outcomes, position) implies exists|step: &mut Canvas|
                    *step == canvases[position] && *final(step) == canvases[position + 1]
                        && #[trigger] may_draw(
                        drawables[position],
                        step,
                        &context.at(position as usize),
                        outcomes[position],
                    ) by {
                    if position < done {
                        assert(has_outcome(earlier_outcomes, position));
                        assert(earlier_outcomes[position] == outcomes[position]);
                        let earlier = choose|step: &mut Canvas|
                            *step == earlier_canvases[position] && *final(step) == earlier_canvases[position
                                + 1] && #[trigger] may_draw(
                                drawables[position],
                                step,
                                &context.at(position as usize),
                                earlier_outcomes[position],
                            );
                        assert(may_draw(
                            drawables[position],
                            earlier,
                            &context.at(position as usize),
                            outcomes[position],
                        ));
                    } else {
                        assert(may_draw(
                            drawables[position],
                            step,
                            &context.at(position as usize),
                            outcomes[position],
                        ));
                    }
                }
            }
            match drawn {
                Ok(()) => {},
                Err(error) => {
                    proof {
                        assert(overlay_follows(
                            self.config.width,
                            self.config.height,
                            drawables.len() as int,
                            canvases,
                            outcomes,
                            Err(error),
                        ));
                    }
                    return Err(error);
                },
            }
            done = done + 1;
        }
        proof {
            assert(overlay_follows(
                self.config.width,
                self.config.height,
                drawables.len() as int,
                canvases,
                outcomes,
                Ok(canvas),
            ));
        }
        Ok(canvas)
    }
}

} // verus!
