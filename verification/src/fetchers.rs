//! The tile fetch orchestrator: the shapes a tile source can have, and the
//! one path on which the tiles of either shape are requested, decoded,
//! measured and matched with the cells of the tile grid.

use vstd::prelude::*;
use crate::error::SnaprError;
use crate::raster::copy_of;
use crate::raster::FetchedTile;
use crate::raster::image_height;
use crate::raster::image_width;
use crate::raster::on_canvas;
use crate::raster::Raster;
use crate::raster::raster_height;
use crate::raster::raster_pixels;
use crate::raster::raster_width;
use crate::raster::shows_image;
use crate::raster::to_rgba8;
use crate::tiles::TileCoordinate;
use crate::tiles::TilePlacement;

verus! {

/// A tile source that is asked for one tile at a time.
pub trait IndividualTileFetcher {
    /// Fetches the tile in column `x` and row `y` of the grid of `zoom`.
    /// The indices always lie on that grid.
    fn fetch_tile(&self, x: i32, y: i32, zoom: u8) -> (tile: Result<image::DynamicImage, SnaprError>)
        requires
            (TileCoordinate { x, y, zoom }).in_range(),
    ;
}

/// A tile source that is asked for all the tiles of a snapshot at once.
pub trait BatchTileFetcher {
    /// Fetches the tiles whose columns and rows `coordinate_matrix` lists,
    /// all on the grid of `zoom`, and returns each with its column and row.
    fn fetch_tiles(&self, coordinate_matrix: &[(i32, i32)], zoom: u8) -> (tiles: Result<
        Vec<(i32, i32, image::DynamicImage)>,
        SnaprError,
    >)
        requires
            forall|position: int|
                0 <= position < coordinate_matrix@.len() ==> (TileCoordinate {
                    x: (#[trigger] coordinate_matrix@[position]).0,
                    y: coordinate_matrix@[position].1,
                    zoom,
                }).in_range(),
    ;
}

/// A tile source of either shape.
pub enum TileFetcher<'a> {
    /// See [`IndividualTileFetcher`].
    Individual(Box<dyn IndividualTileFetcher + 'a>),
    /// See [`BatchTileFetcher`].
    Batch(Box<dyn BatchTileFetcher + 'a>),
}

/// A tile as a batch source returned it, decoded: its column, its row and
/// its pixels.
pub struct TileImage {
    pub x: i32,
    pub y: i32,
    pub image: Raster,
}

/// Whether a raster is `tile_size` pixels long in both axes.
pub open spec fn has_tile_size(image: Raster, tile_size: u32) -> bool {
    raster_width(image) == tile_size && raster_height(image) == tile_size
}

/// The length that an [`SnaprError::IncorrectTileSize`] reports for a raster
/// that has not the tile size: its height where that differs, else its
/// width.
pub open spec fn received_size(image: Raster, tile_size: u32) -> nat {
    if raster_height(image) != tile_size {
        raster_height(image)
    } else {
        raster_width(image)
    }
}

/// Whether two rasters show the same picture: the same size and the same
/// pixel at every place.
pub open spec fn same_picture(first: Raster, second: Raster) -> bool {
    &&& raster_width(first) == raster_width(second)
    &&& raster_height(first) == raster_height(second)
    &&& forall|column: int, row: int|
        on_canvas(raster_width(first), raster_height(first), column, row) ==> #[trigger] raster_pixels(
            first,
        )[(column, row)] == raster_pixels(second)[(column, row)]
}

/// Accepts a decoded tile only if it is `tile_size` pixels long in both
/// axes.
pub fn check_tile_size(image: &Raster, tile_size: u32) -> (checked: Result<(), SnaprError>)
    ensures
        checked is Ok <==> has_tile_size(*image, tile_size),
        checked matches Err(error) ==> error == (SnaprError::IncorrectTileSize {
            expected: tile_size,
            received: received_size(*image, tile_size) as u32,
        }),
{
    let height = image.height();
    let width = image.width();
    if height != tile_size {
        return Err(SnaprError::IncorrectTileSize { expected: tile_size, received: height });
    }
    if width != tile_size {
        return Err(SnaprError::IncorrectTileSize { expected: tile_size, received: width });
    }
    Ok(())
}

/// Whether `tiles` holds, cell by cell and in the order of `grid`, one tile
/// of the tile size at the canvas offset of the cell.
pub open spec fn fills_grid(tiles: Seq<FetchedTile>, grid: Seq<TilePlacement>, tile_size: u32) -> bool {
    &&& tiles.len() == grid.len()
    &&& forall|position: int|
        0 <= position < tiles.len() ==> {
            &&& has_tile_size((#[trigger] tiles[position]).image, tile_size)
            &&& tiles[position].x == grid[position].x
            &&& tiles[position].y == grid[position].y
        }
}

/// Whether `answer` is what the source may give when it is asked for `tile`.
pub open spec fn may_fetch<F: IndividualTileFetcher + ?Sized>(
    fetcher: &F,
    tile: TileCoordinate,
    answer: Result<image::DynamicImage, SnaprError>,
) -> bool {
    call_ensures(F::fetch_tile, (fetcher, tile.x, tile.y, tile.zoom), answer)
}

/// Whether an answer of a source is an image of the tile size.
pub open spec fn is_accepted(answer: Result<image::DynamicImage, SnaprError>, tile_size: u32) -> bool {
    answer matches Ok(image) && image_width(image) == tile_size && image_height(image) == tile_size
}

/// The error that an answer which is not accepted ends the fetch with: the
/// error of the source as it came, and for an image that has not the tile
/// size [`SnaprError::IncorrectTileSize`] with the length that differs, the
/// height before the width.
pub open spec fn refusal(answer: Result<image::DynamicImage, SnaprError>, tile_size: u32) -> SnaprError {
    match answer {
        Err(error) => error,
        Ok(image) => SnaprError::IncorrectTileSize {
            expected: tile_size,
            received: (if image_height(image) != tile_size {
                image_height(image)
            } else {
                image_width(image)
            }) as u32,
        },
    }
}

/// Whether `fetched` is what the answers of a source come to when the cells
/// of `grid` are asked for one after the other.  The answers are those to
/// the first cells, as many as were asked for; all but the last were
/// accepted.  Where every cell was asked for and every answer accepted, the
/// fetch gives for each cell the decoded image of its answer at the offset
/// of the cell; else the last answer ends the fetch with its refusal.
pub open spec fn follows_answers(
    grid: Seq<TilePlacement>,
    tile_size: u32,
    answers: Seq<Result<image::DynamicImage, SnaprError>>,
    fetched: Result<Vec<FetchedTile>, SnaprError>,
) -> bool {
    &&& answers.len() <= grid.len()
    &&& forall|position: int|
        0 <= position < answers.len() - 1 ==> is_accepted(#[trigger] answers[position], tile_size)
    &&& if answers.len() == grid.len() && (answers.len() == 0 || is_accepted(answers.last(), tile_size)) {
        &&& fetched matches Ok(tiles)
        &&& tiles.len() == grid.len()
        &&& forall|position: int|
            0 <= position < tiles.len() ==> {
                &&& shows_image((#[trigger] tiles[position]).image, answers[position].unwrap())
                &&& tiles[position].x == grid[position].x
                &&& tiles[position].y == grid[position].y
            }
    } else {
        &&& answers.len() > 0
        &&& !is_accepted(answers.last(), tile_size)
        &&& fetched == Err::<Vec<FetchedTile>, SnaprError>(refusal(answers.last(), tile_size))
    }
}

/// Whether `answers` are answers that the source may give to the first
/// cells of `grid`, each to its own.
pub open spec fn answers_cells<F: IndividualTileFetcher + ?Sized>(
    fetcher: &F,
    grid: Seq<TilePlacement>,
    answers: Seq<Result<image::DynamicImage, SnaprError>>,
) -> bool {
    forall|position: int|
        0 <= position < answers.len() ==> may_fetch(fetcher, grid[position].tile, #[trigger] answers[position])
}

/// Whether `fetched` is what fetching the cells of `grid` one by one from
/// the source can come to: there are answers of the source to the cells
/// that `fetched` follows.
pub open spec fn fetched_each<F: IndividualTileFetcher + ?Sized>(
    fetcher: &F,
    grid: Seq<TilePlacement>,
    tile_size: u32,
    fetched: Result<Vec<FetchedTile>, SnaprError>,
) -> bool {
    exists|answers: Seq<Result<image::DynamicImage, SnaprError>>|
        answers_cells(fetcher, grid, answers) && #[trigger] follows_answers(
            grid,
            tile_size,
            answers,
            fetched,
        )
}

/// Requests the tile of every cell of `grid` from a source that serves one
/// tile at a time, cell after cell, and stops at the first tile that the
/// source fails to deliver or that has not the tile size.
pub fn fetch_each<F: IndividualTileFetcher + ?Sized>(
    fetcher: &F,
    grid: &Vec<TilePlacement>,
    tile_size: u32,
) -> (fetched: Result<Vec<FetchedTile>, SnaprError>)
    requires
        forall|position: int| 0 <= position < grid.len() ==> (#[trigger] grid[position]).tile.in_range(),
    ensures
        fetched_each(fetcher, grid@, tile_size, fetched),
        fetched matches Ok(tiles) ==> fills_grid(tiles@, grid@, tile_size),
        grid.len() == 0 ==> fetched is Ok,
{
    let mut tiles: Vec<FetchedTile> = Vec::new();
    let mut done: usize = 0;
    let ghost mut answers: Seq<Result<image::DynamicImage, SnaprError>> = Seq::empty();
    while done < grid.len()
        invariant
            done <= grid.len(),
            forall|position: int|
                0 <= position < grid.len() ==> (#[trigger] grid[position]).tile.in_range(),
            fills_grid(tiles@, grid@.take(done as int), tile_size),
            answers.len() == done,
            answers_cells(fetcher, grid@, answers),
            forall|position: int|
                0 <= position < done ==> is_accepted(#[trigger] answers[position], tile_size),
            forall|position: int|
                0 <= position < done ==> shows_image(
                    (#[trigger] tiles[position]).image,
                    answers[position].unwrap(),
                ),
        decreases grid.len() - done,
    {
        let cell = &grid[done];
        let answer = fetcher.fetch_tile(cell.tile.x, cell.tile.y, cell.tile.zoom);
        proof {
            answers = answers.push(answer);
            assert(answers_cells(fetcher, grid@, answers));
        }
        let tile = match answer {
            Ok(tile) => tile,
            Err(error) => {
                proof {
                    assert(follows_answers(grid@, tile_size, answers, Err(error)));
                }
                return Err(error);
            },
        };
        let image = to_rgba8(&tile);
        match check_tile_size(&image, tile_size) {
            Ok(()) => {},
            Err(error) => {
                proof {
                    assert(follows_answers(grid@, tile_size, answers, Err(error)));
                }
                return Err(error);
            },
        }
        tiles.push(FetchedTile { image, x: cell.x, y: cell.y });
        done = done + 1;
    }
    proof {
        assert(grid@.take(done as int) =~= grid@);
        assert(follows_answers(grid@, tile_size, answers, Ok(tiles)));
    }
    Ok(tiles)
}

/// The columns and rows of the cells of `grid`, in its order: what a batch
/// source is asked for.
pub fn coordinate_matrix(grid: &Vec<TilePlacement>) -> (matrix: Vec<(i32, i32)>)
    ensures
        matrix.len() == grid.len(),
        forall|position: int|
            0 <= position < grid.len() ==> #[trigger] matrix[position] == (
                grid[position].tile.x,
                grid[position].tile.y,
            ),
{
    let mut matrix: Vec<(i32, i32)> = Vec::new();
    let mut done: usize = 0;
    while done < grid.len()
        invariant
            done <= grid.len(),
            matrix.len() == done,
            forall|position: int|
                0 <= position < done ==> #[trigger] matrix[position] == (
                    grid[position].tile.x,
                    grid[position].tile.y,
                ),
        decreases grid.len() - done,
    {
        matrix.push((grid[done].tile.x, grid[done].tile.y));
        done = done + 1;
    }
    matrix
}

/// Decodes what a batch source returned, tile by tile.
pub fn decode_tiles(returned: Vec<(i32, i32, image::DynamicImage)>) -> (decoded: Vec<TileImage>)
    ensures
        decoded.len() == returned.len(),
        forall|position: int|
            0 <= position < decoded.len() ==> {
                &&& (#[trigger] decoded[position]).x == returned[position].0
                &&& decoded[position].y == returned[position].1
                &&& shows_image(decoded[position].image, returned[position].2)
            },
{
    let mut decoded: Vec<TileImage> = Vec::new();
    let mut done: usize = 0;
    while done < returned.len()
        invariant
            done <= returned.len(),
            decoded.len() == done,
            forall|position: int|
                0 <= position < done ==> {
                    &&& (#[trigger] decoded[position]).x == returned[position].0
                    &&& decoded[position].y == returned[position].1
                    &&& shows_image(decoded[position].image, returned[position].2)
                },
        decreases returned.len() - done,
    {
        let entry = &returned[done];
        decoded.push(TileImage { x: entry.0, y: entry.1, image: to_rgba8(&entry.2) });
        done = done + 1;
    }
    decoded
}

/// The position, from `start` on, of the first returned tile that has not
/// the tile size; the number of returned tiles where all have it.
pub open spec fn first_missized(returned: Seq<TileImage>, tile_size: u32, start: int) -> int
    decreases returned.len() - start,
{
    if start < 0 || start >= returned.len() {
        returned.len() as int
    } else if !has_tile_size(returned[start].image, tile_size) {
        start
    } else {
        first_missized(returned, tile_size, start + 1)
    }
}

/// The position, from `start` on, of the first returned tile of column `x`
/// and row `y`; the number of returned tiles where there is none.
pub open spec fn first_match(returned: Seq<TileImage>, x: i32, y: i32, start: int) -> int
    decreases returned.len() - start,
{
    if start < 0 || start >= returned.len() {
        returned.len() as int
    } else if returned[start].x == x && returned[start].y == y {
        start
    } else {
        first_match(returned, x, y, start + 1)
    }
}

/// Which returned tile goes where: for each cell of `grid`, in its order,
/// that some returned tile matches, the position of the first such tile and
/// the canvas offset of the cell.  A cell that no returned tile matches is
/// passed over.
pub open spec fn matches_of(grid: Seq<TilePlacement>, returned: Seq<TileImage>) -> Seq<(int, i64, i64)>
    decreases grid.len(),
{
    if grid.len() == 0 {
        Seq::empty()
    } else {
        let cell = grid.last();
        let found = first_match(returned, cell.tile.x, cell.tile.y, 0);
        let before = matches_of(grid.drop_last(), returned);
        if found < returned.len() {
            before.push((found, cell.x, cell.y))
        } else {
            before
        }
    }
}

/// Whether `tiles` is what `matches` describes: tile by tile the picture of
/// the returned tile at the canvas offset of the cell.
pub open spec fn follows_matches(
    tiles: Seq<FetchedTile>,
    matches: Seq<(int, i64, i64)>,
    returned: Seq<TileImage>,
) -> bool {
    &&& tiles.len() == matches.len()
    &&& forall|position: int|
        0 <= position < tiles.len() ==> {
            &&& same_picture((#[trigger] tiles[position]).image, returned[matches[position].0].image)
            &&& tiles[position].x == matches[position].1
            &&& tiles[position].y == matches[position].2
        }
}

/// Whether the returned tiles hold a tile for every cell of `grid`.
pub open spec fn answers_every_cell(grid: Seq<TilePlacement>, returned: Seq<TileImage>) -> bool {
    forall|position: int|
        0 <= position < grid.len() ==> first_match(
            returned,
            (#[trigger] grid[position]).tile.x,
            grid[position].tile.y,
            0,
        ) < returned.len()
}

/// Where the returned tiles hold a tile for every cell, every cell takes
/// one: the matches are as many as the cells and stand at their offsets.
pub proof fn lemma_matches_of_every_cell(grid: Seq<TilePlacement>, returned: Seq<TileImage>)
    requires
        answers_every_cell(grid, returned),
    ensures
        matches_of(grid, returned).len() == grid.len(),
        forall|position: int|
            0 <= position < grid.len() ==> #[trigger] matches_of(grid, returned)[position] == (
                first_match(returned, grid[position].tile.x, grid[position].tile.y, 0),
                grid[position].x,
                grid[position].y,
            ),
    decreases grid.len(),
{
    if grid.len() > 0 {
        let before = grid.drop_last();
        assert forall|position: int| 0 <= position < before.len() implies first_match(
            returned,
            (#[trigger] before[position]).tile.x,
            before[position].tile.y,
            0,
        ) < returned.len() by {
            assert(before[position] == grid[position]);
        }
        lemma_matches_of_every_cell(before, returned);
        assert(grid.last() == grid[grid.len() - 1]);
        assert forall|position: int| 0 <= position < grid.len() implies #[trigger] matches_of(
            grid,
            returned,
        )[position] == (
            first_match(returned, grid[position].tile.x, grid[position].tile.y, 0),
            grid[position].x,
            grid[position].y,
        ) by {
            if position < before.len() {
                assert(before[position] == grid[position]);
                assert(matches_of(grid, returned)[position] == matches_of(before, returned)[position]);
            }
        }
    }
}

/// The first tile of a column and a row, where there is one, stands among
/// the returned tiles.
proof fn lemma_first_match_in_range(returned: Seq<TileImage>, x: i32, y: i32, start: int)
    requires
        0 <= start,
    ensures
        start <= first_match(returned, x, y, start) || first_match(returned, x, y, start)
            == returned.len(),
        first_match(returned, x, y, start) <= returned.len(),
    decreases returned.len() - start,
{
    if start < returned.len() && !(returned[start].x == x && returned[start].y == y) {
        lemma_first_match_in_range(returned, x, y, start + 1);
    }
}

/// The tiles placed from a batch that holds a tile of the tile size for
/// every cell fill the grid, as the tiles of a source of single tiles do.
pub proof fn lemma_full_batch_fills_grid(
    grid: Seq<TilePlacement>,
    returned: Seq<TileImage>,
    tile_size: u32,
    tiles: Seq<FetchedTile>,
)
    requires
        answers_every_cell(grid, returned),
        first_missized(returned, tile_size, 0) == returned.len(),
        follows_matches(tiles, matches_of(grid, returned), returned),
    ensures
        fills_grid(tiles, grid, tile_size),
{
    lemma_matches_of_every_cell(grid, returned);
    assert forall|position: int| 0 <= position < tiles.len() implies {
        &&& has_tile_size((#[trigger] tiles[position]).image, tile_size)
        &&& tiles[position].x == grid[position].x
        &&& tiles[position].y == grid[position].y
    } by {
        let found = first_match(returned, grid[position].tile.x, grid[position].tile.y, 0);
        assert(matches_of(grid, returned)[position] == (found, grid[position].x, grid[position].y));
        lemma_first_match_in_range(returned, grid[position].tile.x, grid[position].tile.y, 0);
        lemma_all_sized(returned, tile_size, 0, found);
    }
}

/// Finds the first returned tile of column `x` and row `y`.
fn find_tile(returned: &Vec<TileImage>, x: i32, y: i32) -> (found: usize)
    ensures
        found == first_match(returned@, x, y, 0),
        found <= returned.len(),
        found < returned.len() ==> returned[found as int].x == x && returned[found as int].y == y,
{
    let mut position: usize = 0;
    while position < returned.len()
        invariant
            position <= returned.len(),
            first_match(returned@, x, y, 0) == first_match(returned@, x, y, position as int),
        decreases returned.len() - position,
    {
        if returned[position].x == x && returned[position].y == y {
            return position;
        }
        position = position + 1;
    }
    position
}

/// Finds the first returned tile that has not the tile size.
fn find_missized(returned: &Vec<TileImage>, tile_size: u32) -> (found: usize)
    ensures
        found == first_missized(returned@, tile_size, 0),
        found <= returned.len(),
        found < returned.len() ==> !has_tile_size(returned[found as int].image, tile_size),
{
    let mut position: usize = 0;
    while position < returned.len()
        invariant
            position <= returned.len(),
            first_missized(returned@, tile_size, 0) == first_missized(
                returned@,
                tile_size,
                position as int,
            ),
        decreases returned.len() - position,
    {
        if check_tile_size(&returned[position].image, tile_size).is_err() {
            return position;
        }
        position = position + 1;
    }
    position
}

/// Where no returned tile from `start` on is missized, each of them has the
/// tile size.
proof fn lemma_all_sized(returned: Seq<TileImage>, tile_size: u32, start: int, position: int)
    requires
        0 <= start <= position < returned.len(),
        first_missized(returned, tile_size, start) == returned.len(),
    ensures
        has_tile_size(returned[position].image, tile_size),
    decreases position - start,
{
    if start < position {
        lemma_all_sized(returned, tile_size, start + 1, position);
    }
}

/// Matches the tiles that a batch source returned with the cells of `grid`.
///
/// Every returned tile must have the tile size: the first that has not ends
/// the snapshot with [`SnaprError::IncorrectTileSize`].  Then each cell, in
/// the order of the grid, takes the first returned tile of its column and
/// row, so that a tile which the grid shows more than once is pasted in
/// each of its places; a cell without such a tile stays empty.
pub fn place_batch(grid: &Vec<TilePlacement>, returned: &Vec<TileImage>, tile_size: u32) -> (placed:
    Result<Vec<FetchedTile>, SnaprError>)
    ensures
        placed is Ok <==> first_missized(returned@, tile_size, 0) == returned.len(),
        placed matches Ok(tiles) ==> follows_matches(tiles@, matches_of(grid@, returned@), returned@),
        placed matches Ok(tiles) ==> forall|position: int|
            0 <= position < tiles.len() ==> has_tile_size((#[trigger] tiles[position]).image, tile_size),
        placed matches Err(error) ==> error == (SnaprError::IncorrectTileSize {
            expected: tile_size,
            received: received_size(
                returned[first_missized(returned@, tile_size, 0)].image,
                tile_size,
            ) as u32,
        }),
{
    let missized = find_missized(returned, tile_size);
    if missized < returned.len() {
        let image = &returned[missized].image;
        let received = if image.height() != tile_size {
            image.height()
        } else {
            image.width()
        };
        return Err(SnaprError::IncorrectTileSize { expected: tile_size, received });
    }
    let mut tiles: Vec<FetchedTile> = Vec::new();
    let mut done: usize = 0;
    while done < grid.len()
        invariant
            done <= grid.len(),
            follows_matches(tiles@, matches_of(grid@.take(done as int), returned@), returned@),
            first_missized(returned@, tile_size, 0) == returned.len(),
            forall|position: int|
                0 <= position < tiles.len() ==> has_tile_size(
                    (#[trigger] tiles[position]).image,
                    tile_size,
                ),
        decreases grid.len() - done,
    {
        let cell = &grid[done];
        let found = find_tile(returned, cell.tile.x, cell.tile.y);
        proof {
            let next = grid@.take(done + 1);
            assert(next.drop_last() =~= grid@.take(done as int));
            assert(next.last() == grid@[done as int]);
        }
        if found < returned.len() {
            proof {
                lemma_all_sized(returned@, tile_size, 0, found as int);
            }
            let image = copy_of(&returned[found].image);
            tiles.push(FetchedTile { image, x: cell.x, y: cell.y });
        }
        done = done + 1;
    }
    proof {
        assert(grid@.take(done as int) =~= grid@);
    }
    Ok(tiles)
}

/// How a task that fetched tiles on another thread ended.
pub enum TaskOutcome<T> {
    /// The task ran to its end, with tiles or with an error of the source.
    Finished(Result<T, SnaprError>),
    /// The task panicked.
    Panicked,
}

/// What a task contributes to the fetch: its tiles or its error where it
/// ran to its end, and [`SnaprError::AsynchronousTaskPanic`] where it
/// panicked, so that no tile goes missing unnoticed.
pub fn task_result<T>(outcome: TaskOutcome<T>) -> (result: Result<T, SnaprError>)
    ensures
        match outcome {
            TaskOutcome::Finished(finished) => result == finished,
            TaskOutcome::Panicked => result matches Err(error) && error is AsynchronousTaskPanic,
        },
{
    match outcome {
        TaskOutcome::Finished(finished) => finished,
        TaskOutcome::Panicked => Err(SnaprError::AsynchronousTaskPanic),
    }
}

/// Whether `answer` is what the source may give when it is asked for the
/// tiles of `coordinate_matrix` at `zoom`.
pub open spec fn may_fetch_all<F: BatchTileFetcher + ?Sized>(
    fetcher: &F,
    coordinate_matrix: &[(i32, i32)],
    zoom: u8,
    answer: Result<Vec<(i32, i32, image::DynamicImage)>, SnaprError>,
) -> bool {
    call_ensures(F::fetch_tiles, (fetcher, coordinate_matrix, zoom), answer)
}

/// Whether `coordinate_matrix` lists the column and the row of each cell of
/// `grid`, in its order.
pub open spec fn asks_for(coordinate_matrix: Seq<(i32, i32)>, grid: Seq<TilePlacement>) -> bool {
    &&& coordinate_matrix.len() == grid.len()
    &&& forall|position: int|
        0 <= position < grid.len() ==> #[trigger] coordinate_matrix[position] == (
            grid[position].tile.x,
            grid[position].tile.y,
        )
}

/// Whether `decoded` holds, tile by tile, the column, the row and the
/// decoded image of what a batch source returned.
pub open spec fn decodes(decoded: Seq<TileImage>, returned: Seq<(i32, i32, image::DynamicImage)>) -> bool {
    &&& decoded.len() == returned.len()
    &&& forall|position: int|
        0 <= position < decoded.len() ==> {
            &&& (#[trigger] decoded[position]).x == returned[position].0
            &&& decoded[position].y == returned[position].1
            &&& shows_image(decoded[position].image, returned[position].2)
        }
}

/// Whether `placed` is what matching the returned tiles with the cells of
/// `grid` comes to: the refusal of the first tile that has not the tile
/// size, and where all have it, for each cell that a returned tile matches
/// the picture of the first such tile at the offset of the cell.
pub open spec fn placed_as(
    grid: Seq<TilePlacement>,
    returned: Seq<TileImage>,
    tile_size: u32,
    placed: Result<Vec<FetchedTile>, SnaprError>,
) -> bool {
    &&& placed is Ok <==> first_missized(returned, tile_size, 0) == returned.len()
    &&& placed matches Ok(tiles) ==> follows_matches(tiles@, matches_of(grid, returned), returned)
    &&& placed matches Ok(tiles) ==> forall|position: int|
        0 <= position < tiles.len() ==> has_tile_size((#[trigger] tiles[position]).image, tile_size)
    &&& placed matches Err(error) ==> error == (SnaprError::IncorrectTileSize {
        expected: tile_size,
        received: received_size(
            returned[first_missized(returned, tile_size, 0)].image,
            tile_size,
        ) as u32,
    })
}

/// Whether `fetched` is what the answer of a batch source comes to: its
/// error as it came, or what matching its decoded tiles with the cells of
/// `grid` comes to.
pub open spec fn follows_batch(
    grid: Seq<TilePlacement>,
    tile_size: u32,
    answer: Result<Vec<(i32, i32, image::DynamicImage)>, SnaprError>,
    fetched: Result<Vec<FetchedTile>, SnaprError>,
) -> bool {
    match answer {
        Err(error) => fetched == Err::<Vec<FetchedTile>, SnaprError>(error),
        Ok(returned) => exists|decoded: Seq<TileImage>|
            decodes(decoded, returned@) && #[trigger] placed_as(grid, decoded, tile_size, fetched),
    }
}

/// Whether `fetched` is what fetching the cells of `grid` at once from the
/// source can come to: the source was asked for the column and the row of
/// each cell, and `fetched` follows an answer that it may give.
pub open spec fn fetched_batch<F: BatchTileFetcher + ?Sized>(
    fetcher: &F,
    grid: Seq<TilePlacement>,
    zoom: u8,
    tile_size: u32,
    fetched: Result<Vec<FetchedTile>, SnaprError>,
) -> bool {
    exists|coordinate_matrix: &[(i32, i32)], answer: Result<Vec<(i32, i32, image::DynamicImage)>, SnaprError>|
        asks_for(coordinate_matrix@, grid) && #[trigger] may_fetch_all(
            fetcher,
            coordinate_matrix,
            zoom,
            answer,
        ) && follows_batch(grid, tile_size, answer, fetched)
}

impl<'a> TileFetcher<'a> {
    /// The source that serves one tile at a time with `tile_fetcher`.
    pub fn individual(tile_fetcher: Box<dyn IndividualTileFetcher + 'a>) -> (fetcher: Self)
        ensures
            fetcher == TileFetcher::Individual(tile_fetcher),
    {
        TileFetcher::Individual(tile_fetcher)
    }

    /// The source that serves all the tiles of a snapshot at once with
    /// `tile_fetcher`.
    pub fn batch(tile_fetcher: Box<dyn BatchTileFetcher + 'a>) -> (fetcher: Self)
        ensures
            fetcher == TileFetcher::Batch(tile_fetcher),
    {
        TileFetcher::Batch(tile_fetcher)
    }

    /// Whether `fetched` is what fetching the cells of `grid` from the
    /// source can come to, by the shape of the source.
    pub open spec fn fetched(
        self,
        grid: Seq<TilePlacement>,
        zoom: u8,
        tile_size: u32,
        fetched: Result<Vec<FetchedTile>, SnaprError>,
    ) -> bool {
        match self {
            TileFetcher::Individual(fetcher) => fetched_each(&*fetcher, grid, tile_size, fetched),
            TileFetcher::Batch(fetcher) => fetched_batch(&*fetcher, grid, zoom, tile_size, fetched),
        }
    }

    /// Fetches the tiles of `grid`, whatever the shape of the source.  A
    /// source that serves single tiles is asked cell by cell; one that
    /// serves batches is asked once for the columns and rows of all cells,
    /// and what it returns is decoded and matched with the cells by
    /// [`place_batch`].  What comes back on success is ready to be pasted:
    /// every tile has the tile size and sits at the canvas offset of a cell.
    pub fn fetch_grid(&self, grid: &Vec<TilePlacement>, zoom: u8, tile_size: u32) -> (fetched: Result<
        Vec<FetchedTile>,
        SnaprError,
    >)
        requires
            forall|position: int|
                0 <= position < grid.len() ==> {
                    &&& (#[trigger] grid[position]).tile.in_range()
                    &&& grid[position].tile.zoom == zoom
                },
        ensures
            self.fetched(grid@, zoom, tile_size, fetched),
            self is Individual && grid.len() == 0 ==> fetched is Ok,
            fetched matches Ok(tiles) ==> {
                &&& self is Individual ==> fills_grid(tiles@, grid@, tile_size)
                &&& forall|position: int|
                    0 <= position < tiles.len() ==> has_tile_size(
                        (#[trigger] tiles[position]).image,
                        tile_size,
                    )
            },
    {
        match self {
            TileFetcher::Individual(fetcher) => fetch_each(&**fetcher, grid, tile_size),
            TileFetcher::Batch(fetcher) => {
                let matrix = coordinate_matrix(grid);
                let asked = matrix.as_slice();
                let answer = fetcher.fetch_tiles(asked, zoom);
                let ghost answered = answer;
                let returned = match answer {
                    Ok(returned) => returned,
                    Err(error) => {
                        proof {
                            assert(asks_for(asked@, grid@));
                            assert(may_fetch_all(&**fetcher, asked, zoom, answered));
                            assert(follows_batch(grid@, tile_size, answered, Err(error)));
                        }
                        return Err(error);
                    },
                };
                let decoded = decode_tiles(returned);
                let placed = place_batch(grid, &decoded, tile_size);
                proof {
                    assert(asks_for(asked@, grid@));
                    assert(may_fetch_all(&**fetcher, asked, zoom, answered));
                    assert(decodes(decoded@, returned@));
                    assert(placed_as(grid@, decoded@, tile_size, placed));
                    assert(follows_batch(grid@, tile_size, answered, placed));
                }
                placed
            },
        }
    }
}

} // verus!
