use image::DynamicImage;
use image::Rgba;
use image::RgbaImage;
use snapr::error::to_snapr_error;
use snapr::fetchers::check_tile_size;
use snapr::fetchers::coordinate_matrix;
use snapr::fetchers::decode_tiles;
use snapr::fetchers::fetch_each;
use snapr::fetchers::place_batch;
use snapr::fetchers::task_result;
use snapr::fetchers::TaskOutcome;
use snapr::fetchers::BatchTileFetcher;
use snapr::fetchers::IndividualTileFetcher;
use snapr::fetchers::TileImage;
use snapr::projection::Coord;
use snapr::projection::WORLD_UNITS;
use snapr::raster::Raster;
use snapr::tiles::tile_grid;
use snapr::tiles::TileCoordinate;
use snapr::tiles::TilePlacement;
use snapr::SnaprError;
use snapr::TileFetcher;

fn solid(width: u32, height: u32, color: [u8; 4]) -> DynamicImage {
    DynamicImage::ImageRgba8(RgbaImage::from_pixel(width, height, Rgba(color)))
}

struct Sized(u32, u32);

impl IndividualTileFetcher for Sized {
    fn fetch_tile(&self, x: i32, y: i32, _zoom: u8) -> Result<DynamicImage, SnaprError> {
        Ok(solid(self.0, self.1, [x as u8, y as u8, 0, 255]))
    }
}

struct Failing;

impl IndividualTileFetcher for Failing {
    fn fetch_tile(&self, _x: i32, _y: i32, _zoom: u8) -> Result<DynamicImage, SnaprError> {
        Err(to_snapr_error(anyhow::Error::msg("the tile server is down")))
    }
}

struct Echo(u32);

impl BatchTileFetcher for Echo {
    fn fetch_tiles(
        &self,
        coordinate_matrix: &[(i32, i32)],
        _zoom: u8,
    ) -> Result<Vec<(i32, i32, DynamicImage)>, SnaprError> {
        Ok(coordinate_matrix
            .iter()
            .map(|&(x, y)| (x, y, solid(self.0, self.0, [x as u8, y as u8, 1, 255])))
            .collect())
    }
}

fn cell(x: i32, y: i32, at: (i64, i64)) -> TilePlacement {
    TilePlacement { tile: TileCoordinate { x, y, zoom: 2 }, x: at.0, y: at.1 }
}

#[test]
fn a_tile_of_the_tile_size_is_accepted() {
    let tile = Raster::from_image(&solid(256, 256, [0, 0, 0, 255]));
    assert!(check_tile_size(&tile, 256).is_ok());
}

#[test]
fn a_tile_of_half_the_size_is_refused() {
    let tile = Raster::from_image(&solid(128, 128, [0, 0, 0, 255]));
    match check_tile_size(&tile, 256) {
        Err(SnaprError::IncorrectTileSize { expected, received }) => {
            assert_eq!((expected, received), (256, 128));
        }
        other => panic!("{:?}", other),
    }
}

#[test]
fn the_length_that_differs_is_reported() {
    let short = Raster::from_image(&solid(256, 100, [0, 0, 0, 255]));
    assert!(matches!(
        check_tile_size(&short, 256),
        Err(SnaprError::IncorrectTileSize { expected: 256, received: 100 })
    ));
    let narrow = Raster::from_image(&solid(90, 256, [0, 0, 0, 255]));
    assert!(matches!(
        check_tile_size(&narrow, 256),
        Err(SnaprError::IncorrectTileSize { expected: 256, received: 90 })
    ));
    let both = Raster::from_image(&solid(90, 100, [0, 0, 0, 255]));
    assert!(matches!(
        check_tile_size(&both, 256),
        Err(SnaprError::IncorrectTileSize { expected: 256, received: 100 })
    ));
}

#[test]
fn each_cell_gets_its_tile() {
    let grid = vec![cell(0, 0, (-112, -212)), cell(0, 1, (-112, 44)), cell(3, 2, (656, 300))];
    let tiles = fetch_each(&Sized(256, 256), &grid, 256).unwrap();
    assert_eq!(tiles.len(), 3);
    assert_eq!((tiles[0].x, tiles[0].y), (-112, -212));
    assert_eq!((tiles[2].x, tiles[2].y), (656, 300));
    assert_eq!(tiles[1].image.pixel(0, 0), Some((0, 1, 0, 255)));
    assert_eq!(tiles[2].image.pixel(255, 255), Some((3, 2, 0, 255)));
}

#[test]
fn a_missized_tile_ends_the_fetch() {
    let grid = vec![cell(0, 0, (0, 0)), cell(1, 0, (256, 0))];
    match fetch_each(&Sized(128, 128), &grid, 256) {
        Err(SnaprError::IncorrectTileSize { expected, received }) => {
            assert_eq!((expected, received), (256, 128));
        }
        other => panic!("{:?}", other.map(|tiles| tiles.len())),
    }
    let fetcher = TileFetcher::individual(Box::new(Sized(128, 128)));
    assert!(matches!(
        fetcher.fetch_grid(&grid, 2, 256),
        Err(SnaprError::IncorrectTileSize { expected: 256, received: 128 })
    ));
}

#[test]
fn an_error_of_the_source_is_handed_on() {
    let grid = vec![cell(0, 0, (0, 0))];
    match fetch_each(&Failing, &grid, 256) {
        Err(SnaprError::Unknown(error)) => assert_eq!(error.to_string(), "the tile server is down"),
        other => panic!("{:?}", other.map(|tiles| tiles.len())),
    }
}

#[test]
fn no_cells_no_tiles() {
    assert_eq!(fetch_each(&Failing, &Vec::new(), 256).unwrap().len(), 0);
}

#[test]
fn the_matrix_lists_the_wrapped_tiles() {
    let grid = tile_grid(256, 800, 600, 0, Coord { x: WORLD_UNITS / 2, y: WORLD_UNITS / 2 });
    let matrix = coordinate_matrix(&grid);
    assert_eq!(matrix.len(), 24);
    assert!(matrix.iter().all(|&coordinate| coordinate == (0, 0)));
    let grid = vec![cell(0, 0, (0, 0)), cell(3, 1, (5, 6))];
    assert_eq!(coordinate_matrix(&grid), vec![(0, 0), (3, 1)]);
}

#[test]
fn a_batch_is_matched_with_the_cells() {
    let grid = vec![
        cell(1, 1, (10, 20)),
        cell(2, 2, (30, 40)),
        cell(1, 1, (50, 60)),
        cell(3, 3, (70, 80)),
    ];
    let returned = vec![
        TileImage { x: 2, y: 2, image: Raster::from_image(&solid(4, 4, [2, 2, 2, 255])) },
        TileImage { x: 1, y: 1, image: Raster::from_image(&solid(4, 4, [1, 1, 1, 255])) },
        TileImage { x: 1, y: 1, image: Raster::from_image(&solid(4, 4, [9, 9, 9, 255])) },
        TileImage { x: 0, y: 0, image: Raster::from_image(&solid(4, 4, [0, 0, 0, 255])) },
    ];
    let tiles = place_batch(&grid, &returned, 4).unwrap();
    // The cell of tile (3, 3) stays empty; tile (1, 1) is pasted twice, and
    // it is the first of its two answers that is taken.
    assert_eq!(tiles.len(), 3);
    assert_eq!((tiles[0].x, tiles[0].y), (10, 20));
    assert_eq!(tiles[0].image.pixel(0, 0), Some((1, 1, 1, 255)));
    assert_eq!((tiles[1].x, tiles[1].y), (30, 40));
    assert_eq!(tiles[1].image.pixel(3, 3), Some((2, 2, 2, 255)));
    assert_eq!((tiles[2].x, tiles[2].y), (50, 60));
    assert_eq!(tiles[2].image.pixel(0, 0), Some((1, 1, 1, 255)));
}

#[test]
fn a_missized_tile_in_a_batch_ends_the_snapshot() {
    let grid = vec![cell(1, 1, (10, 20))];
    let returned = vec![
        TileImage { x: 1, y: 1, image: Raster::from_image(&solid(4, 4, [1, 1, 1, 255])) },
        TileImage { x: 7, y: 7, image: Raster::from_image(&solid(4, 3, [1, 1, 1, 255])) },
        TileImage { x: 8, y: 8, image: Raster::from_image(&solid(2, 2, [1, 1, 1, 255])) },
    ];
    assert!(matches!(
        place_batch(&grid, &returned, 4),
        Err(SnaprError::IncorrectTileSize { expected: 4, received: 3 })
    ));
}

#[test]
fn decoding_a_batch_keeps_the_indices() {
    let decoded = decode_tiles(vec![
        (3, 4, solid(2, 2, [1, 2, 3, 4])),
        (-1, 7, solid(1, 1, [5, 6, 7, 8])),
    ]);
    assert_eq!(decoded.len(), 2);
    assert_eq!((decoded[0].x, decoded[0].y), (3, 4));
    assert_eq!(decoded[0].image.pixel(1, 1), Some((1, 2, 3, 4)));
    assert_eq!((decoded[1].x, decoded[1].y), (-1, 7));
    assert_eq!(decoded[1].image.width(), 1);
}

#[test]
fn either_shape_fills_the_grid() {
    let grid = tile_grid(256, 800, 600, 2, Coord { x: WORLD_UNITS / 2, y: WORLD_UNITS / 2 });
    let single = TileFetcher::individual(Box::new(Sized(256, 256)));
    let batch = TileFetcher::batch(Box::new(Echo(256)));
    assert!(matches!(single, TileFetcher::Individual(_)));
    assert!(matches!(batch, TileFetcher::Batch(_)));
    let one_by_one = single.fetch_grid(&grid, 2, 256).unwrap();
    let at_once = batch.fetch_grid(&grid, 2, 256).unwrap();
    assert_eq!(one_by_one.len(), 25);
    assert_eq!(at_once.len(), 25);
    for position in 0..25 {
        assert_eq!(
            (one_by_one[position].x, one_by_one[position].y),
            (grid[position].x, grid[position].y)
        );
        assert_eq!(
            (at_once[position].x, at_once[position].y),
            (grid[position].x, grid[position].y)
        );
        let expected = (grid[position].tile.x as u8, grid[position].tile.y as u8);
        assert_eq!(one_by_one[position].image.pixel(0, 0), Some((expected.0, expected.1, 0, 255)));
        assert_eq!(at_once[position].image.pixel(0, 0), Some((expected.0, expected.1, 1, 255)));
    }
}

#[test]
fn a_batch_of_missized_tiles_is_refused() {
    let grid = tile_grid(256, 800, 600, 2, Coord { x: WORLD_UNITS / 2, y: WORLD_UNITS / 2 });
    let batch = TileFetcher::batch(Box::new(Echo(128)));
    assert!(matches!(
        batch.fetch_grid(&grid, 2, 256),
        Err(SnaprError::IncorrectTileSize { expected: 256, received: 128 })
    ));
}

#[test]
fn a_task_that_panicked_fails_the_fetch() {
    assert!(matches!(
        task_result::<Vec<(i32, i32, DynamicImage)>>(TaskOutcome::Panicked),
        Err(SnaprError::AsynchronousTaskPanic)
    ));
}

#[test]
fn a_task_that_finished_gives_what_it_has() {
    assert!(matches!(task_result(TaskOutcome::Finished(Ok(7))), Ok(7)));
    assert!(matches!(
        task_result::<u8>(TaskOutcome::Finished(Err(SnaprError::PathConstruction))),
        Err(SnaprError::PathConstruction)
    ));
}
