use image::DynamicImage;
use image::Rgba;
use image::RgbaImage;
use snapr::drawing::canvas::DrawCommand;
use snapr::drawing::canvas::Paint;
use snapr::drawing::canvas::Path;
use snapr::drawing::style::Color;
use snapr::drawing::style::Length;
use snapr::drawing::Drawable;
use snapr::fetchers::BatchTileFetcher;
use snapr::fetchers::IndividualTileFetcher;
use snapr::geometry::Geometry;
use snapr::geometry::LineString;
use snapr::geometry::Point;
use snapr::geometry::Rect;
use snapr::projection::Coord;
use snapr::projection::PixelCoord;
use snapr::projection::WORLD_UNITS;
use snapr::raster::Raster;
use snapr::Snapr;
use snapr::SnaprBuilder;
use snapr::SnaprError;
use snapr::TileFetcher;
use snapr::Zoom;

const HALF: i64 = WORLD_UNITS / 2;
const MARKER: [u8; 4] = [248, 248, 248, 255];

fn shade(x: i32, y: i32) -> (u8, u8, u8, u8) {
    (40 * x as u8 + 10, 40 * y as u8 + 10, 0, 255)
}

struct Solid(u32);

impl IndividualTileFetcher for Solid {
    fn fetch_tile(&self, x: i32, y: i32, zoom: u8) -> Result<DynamicImage, SnaprError> {
        assert!(x >= 0 && y >= 0 && x < (1 << zoom) && y < (1 << zoom));
        let (red, green, blue, alpha) = shade(x, y);
        Ok(DynamicImage::ImageRgba8(RgbaImage::from_pixel(
            self.0,
            self.0,
            Rgba([red, green, blue, alpha]),
        )))
    }
}

struct SolidBatch;

impl BatchTileFetcher for SolidBatch {
    fn fetch_tiles(
        &self,
        coordinate_matrix: &[(i32, i32)],
        zoom: u8,
    ) -> Result<Vec<(i32, i32, DynamicImage)>, SnaprError> {
        coordinate_matrix
            .iter()
            .map(|&(x, y)| Solid(256).fetch_tile(x, y, zoom).map(|tile| (x, y, tile)))
            .collect()
    }
}

fn forced(fetcher: TileFetcher<'static>) -> Snapr<'static> {
    SnaprBuilder::new().with_tile_fetcher(fetcher).with_zoom(Zoom::Constant(2)).build().unwrap()
}

fn origin() -> Coord {
    Coord { x: HALF, y: HALF }
}

#[test]
fn the_four_quadrants_round_the_centre_show_their_tiles() {
    for snapr in [forced(TileFetcher::individual(Box::new(Solid(256)))), forced(TileFetcher::batch(Box::new(SolidBatch)))] {
        let mut image = Raster::new(800, 600).unwrap();
        snapr.overlay_backing_tiles(&mut image, origin(), 2).unwrap();
        assert_eq!((image.width(), image.height()), (800, 600));
        // The centre of the canvas is the corner of four tiles.
        assert_eq!(image.pixel(399, 299), Some(shade(1, 1)));
        assert_eq!(image.pixel(400, 299), Some(shade(2, 1)));
        assert_eq!(image.pixel(399, 300), Some(shade(1, 2)));
        assert_eq!(image.pixel(400, 300), Some(shade(2, 2)));
        // The corners of the canvas.
        assert_eq!(image.pixel(0, 0), Some(shade(0, 0)));
        assert_eq!(image.pixel(799, 0), Some(shade(3, 0)));
        assert_eq!(image.pixel(0, 599), Some(shade(0, 3)));
        assert_eq!(image.pixel(799, 599), Some(shade(3, 3)));
        // The seams between the tiles.
        assert_eq!(image.pixel(143, 43), Some(shade(0, 0)));
        assert_eq!(image.pixel(144, 44), Some(shade(1, 1)));
        assert_eq!(image.pixel(655, 555), Some(shade(2, 2)));
        assert_eq!(image.pixel(656, 556), Some(shade(3, 3)));
    }
}

#[test]
fn a_point_at_the_origin_is_marked_at_the_centre() {
    let snapr = forced(TileFetcher::individual(Box::new(Solid(256))));
    let geometries = vec![Geometry::Point(Point(origin()))];
    let (context, canvas) = snapr.overlay_from_geometries(&geometries, Some(origin())).unwrap();
    assert_eq!(context.zoom, 2);
    assert_eq!(context.center, origin());
    assert_eq!((context.tile_size, context.width, context.height), (256, 800, 600));
    let center = PixelCoord { x: 400, y: 300 };
    assert_eq!(
        canvas.commands(),
        &vec![
            DrawCommand::FillPath {
                path: Path::Circle { center, radius: Length::pixels(4) },
                paint: Paint {
                    color: Color { red: 248, green: 248, blue: 248, alpha: 255 },
                    anti_alias: true
                },
            },
            DrawCommand::StrokePath {
                path: Path::Circle { center, radius: Length::pixels(4) },
                paint: Paint {
                    color: Color { red: 26, green: 26, blue: 26, alpha: 255 },
                    anti_alias: true
                },
                width: Length::pixels(1),
            },
        ]
    );

    // The mosaic under a layer that holds the marker.
    let mut layer = RgbaImage::new(800, 600);
    for row in 297..=303 {
        for column in 297..=403 {
            if column >= 397 {
                layer.put_pixel(column, row, Rgba(MARKER));
            }
        }
    }
    let layer = Raster::from_image(&DynamicImage::ImageRgba8(layer));
    let snapshot = snapr.generate_snapshot(&context, &layer).unwrap();
    assert_eq!((snapshot.width(), snapshot.height()), (800, 600));
    assert_eq!(snapshot.pixel(400, 300), Some((248, 248, 248, 255)));
    assert_eq!(snapshot.pixel(390, 290), Some(shade(1, 1)));
    assert_eq!(snapshot.pixel(410, 290), Some(shade(2, 1)));
    assert_eq!(snapshot.pixel(390, 310), Some(shade(1, 2)));
    assert_eq!(snapshot.pixel(410, 310), Some(shade(2, 2)));
}

#[test]
fn missized_tiles_make_no_snapshot() {
    let snapr = forced(TileFetcher::individual(Box::new(Solid(128))));
    let mut image = Raster::new(800, 600).unwrap();
    match snapr.overlay_backing_tiles(&mut image, origin(), 2) {
        Err(SnaprError::IncorrectTileSize { expected, received }) => {
            assert_eq!((expected, received), (256, 128));
        }
        other => panic!("{:?}", other),
    }
    // Nothing was pasted.
    for (column, row) in [(0, 0), (400, 300), (799, 599)] {
        assert_eq!(image.pixel(column, row), Some((0, 0, 0, 0)));
    }
}

#[test]
fn a_snapshot_has_the_size_of_the_output() {
    let snapr = SnaprBuilder::new()
        .with_tile_fetcher(TileFetcher::batch(Box::new(SolidBatch)))
        .with_width(300)
        .with_height(200)
        .with_zoom(Zoom::Constant(1))
        .build()
        .unwrap();
    let context = snapr.context(Some(origin()), None).unwrap();
    let layer = Raster::new(300, 200).unwrap();
    let snapshot = snapr.generate_snapshot(&context, &layer).unwrap();
    assert_eq!((snapshot.width(), snapshot.height()), (300, 200));
    // Nothing was drawn: the snapshot is the mosaic, whose centre is the
    // corner of the four tiles of zoom level 1.
    assert_eq!(snapshot.pixel(149, 99), Some(shade(0, 0)));
    assert_eq!(snapshot.pixel(150, 99), Some(shade(1, 0)));
    assert_eq!(snapshot.pixel(149, 100), Some(shade(0, 1)));
    assert_eq!(snapshot.pixel(150, 100), Some(shade(1, 1)));
}

#[test]
fn a_snapshot_fails_with_its_tiles() {
    let snapr = forced(TileFetcher::individual(Box::new(Solid(128))));
    let context = snapr.context(Some(origin()), None).unwrap();
    let layer = Raster::new(800, 600).unwrap();
    assert!(matches!(
        snapr.generate_snapshot(&context, &layer),
        Err(SnaprError::IncorrectTileSize { expected: 256, received: 128 })
    ));
}

#[test]
fn a_constant_policy_gives_its_level() {
    let snapr = forced(TileFetcher::individual(Box::new(Solid(256))));
    assert!(matches!(snapr.zoom_from_geometries(None), Ok(2)));
    let bounds = Rect { min: origin(), max: Coord { x: HALF + WORLD_UNITS / 1024, y: HALF } };
    assert!(matches!(snapr.zoom_from_geometries(Some(&bounds)), Ok(2)));
}

#[test]
fn the_automatic_policy_needs_a_bounding_box() {
    let snapr =
        SnaprBuilder::new().with_tile_fetcher(TileFetcher::individual(Box::new(Solid(256)))).build().unwrap();
    assert!(matches!(snapr.zoom_from_geometries(None), Err(SnaprError::BoundingBoxCalculation)));
    let bounds = Rect { min: origin(), max: Coord { x: HALF + WORLD_UNITS / 1024, y: HALF } };
    assert!(matches!(snapr.zoom_from_geometries(Some(&bounds)), Ok(11)));
    assert!(matches!(
        snapr.context(Some(origin()), None),
        Err(SnaprError::BoundingBoxCalculation)
    ));
    let context = snapr.context(Some(origin()), Some(&bounds)).unwrap();
    assert_eq!(context.zoom, 11);
    assert_eq!(context.index, 0);
}

#[test]
fn geometries_without_a_centre_make_no_snapshot() {
    let snapr = forced(TileFetcher::individual(Box::new(Solid(256))));
    assert!(matches!(snapr.context(None, None), Err(SnaprError::CentroidCalculation)));
    assert!(matches!(
        snapr.overlay_from_geometries(&Vec::new(), None),
        Err(SnaprError::CentroidCalculation)
    ));
}

#[test]
fn the_overlay_of_geometries_fails_as_its_parts_do() {
    let automatic =
        SnaprBuilder::new().with_tile_fetcher(TileFetcher::individual(Box::new(Solid(256)))).build().unwrap();
    assert!(matches!(
        automatic.overlay_from_geometries(&Vec::new(), Some(origin())),
        Err(SnaprError::BoundingBoxCalculation)
    ));
    let short = vec![Geometry::LineString(LineString(vec![origin()]))];
    assert!(matches!(
        automatic.overlay_from_geometries(&short, Some(origin())),
        Err(SnaprError::PathConstruction)
    ));
    let constant = forced(TileFetcher::individual(Box::new(Solid(256))));
    let (context, canvas) = constant.overlay_from_geometries(&Vec::new(), Some(origin())).unwrap();
    assert_eq!(context.zoom, 2);
    assert!(canvas.commands().is_empty());
}

#[test]
fn the_automatic_policy_zooms_in_on_the_geometries() {
    let snapr =
        SnaprBuilder::new().with_tile_fetcher(TileFetcher::individual(Box::new(Solid(256)))).build().unwrap();
    let geometries = vec![
        Geometry::Point(Point(origin())),
        Geometry::Point(Point(Coord { x: HALF + WORLD_UNITS / 1024, y: HALF })),
    ];
    let center = Coord { x: HALF + WORLD_UNITS / 8192, y: HALF };
    let (context, canvas) = snapr.overlay_from_geometries(&geometries, Some(center)).unwrap();
    assert_eq!(context.zoom, 11);
    assert_eq!(canvas.commands().len(), 4);
    // The centre lies 64 pixels east of the first point and 448 pixels, a
    // tile and three quarters, west of the second, of which offset only the
    // three quarters of a tile are kept.
    match (&canvas.commands()[0], &canvas.commands()[2]) {
        (
            DrawCommand::FillPath { path: Path::Circle { center: west, .. }, .. },
            DrawCommand::FillPath { path: Path::Circle { center: east, .. }, .. },
        ) => {
            assert_eq!((west.x, west.y), (400 - 64, 300));
            assert_eq!((east.x, east.y), (400 + 192, 300));
        }
        other => panic!("{:?}", other),
    }
}

#[test]
fn drawables_are_told_their_place() {
    struct Place;
    impl Drawable for Place {
        fn draw(
            &self,
            canvas: &mut snapr::drawing::canvas::Canvas,
            context: &snapr::drawing::Context,
        ) -> Result<(), SnaprError> {
            canvas.render_svg(snapr::drawing::svg::SpatialSvg {
                pixel: PixelCoord { x: 0, y: 0 },
                markup: context.index.to_string(),
            });
            Ok(())
        }
    }
    struct Broken;
    impl Drawable for Broken {
        fn draw(
            &self,
            _canvas: &mut snapr::drawing::canvas::Canvas,
            _context: &snapr::drawing::Context,
        ) -> Result<(), SnaprError> {
            Err(SnaprError::PathConstruction)
        }
    }
    let snapr = forced(TileFetcher::individual(Box::new(Solid(256))));
    let context = snapr.context(Some(origin()), None).unwrap();
    let point = Point(origin());
    let drawables: Vec<&dyn Drawable> = vec![&Place, &point, &Place];
    let canvas = snapr.draw_overlay(&drawables, &context).unwrap();
    assert_eq!((canvas.width(), canvas.height()), (800, 600));
    let places: Vec<&str> = canvas
        .commands()
        .iter()
        .filter_map(|command| match command {
            DrawCommand::RenderSvg { svg } => Some(svg.markup.as_str()),
            _ => None,
        })
        .collect();
    assert_eq!(places, vec!["0", "2"]);
    assert_eq!(canvas.commands().len(), 4);
    let drawables: Vec<&dyn Drawable> = vec![&Place, &Broken, &Place];
    assert!(matches!(snapr.draw_overlay(&drawables, &context), Err(SnaprError::PathConstruction)));
}

#[test]
fn nothing_to_draw_gives_the_empty_canvas() {
    let snapr = forced(TileFetcher::individual(Box::new(Solid(256))));
    let context = snapr.context(Some(origin()), None).unwrap();
    let canvas = snapr.draw_overlay(&Vec::new(), &context).unwrap();
    assert_eq!((canvas.width(), canvas.height()), (800, 600));
    assert!(canvas.commands().is_empty());
}

#[test]
fn no_drawable_is_drawn_after_one_has_failed() {
    struct Counted<'a>(&'a std::cell::Cell<usize>, bool, usize);
    impl Drawable for Counted<'_> {
        fn draw(
            &self,
            canvas: &mut snapr::drawing::canvas::Canvas,
            context: &snapr::drawing::Context,
        ) -> Result<(), SnaprError> {
            // Each is drawn in its turn, told its place, on the canvas that
            // the ones before it left.
            assert_eq!(context.index, self.2);
            assert_eq!(canvas.commands().len(), self.2);
            self.0.set(self.0.get() + 1);
            if self.1 {
                canvas.render_svg(snapr::drawing::svg::SpatialSvg {
                    pixel: PixelCoord { x: 0, y: 0 },
                    markup: String::new(),
                });
                Ok(())
            } else {
                Err(SnaprError::BoundingBoxCalculation)
            }
        }
    }
    let snapr = forced(TileFetcher::individual(Box::new(Solid(256))));
    let context = snapr.context(Some(origin()), None).unwrap();
    let calls = std::cell::Cell::new(0);
    let (first, second, third, fourth) = (
        Counted(&calls, true, 0),
        Counted(&calls, true, 1),
        Counted(&calls, false, 2),
        Counted(&calls, true, 3),
    );
    let drawables: Vec<&dyn Drawable> = vec![&first, &second, &third, &fourth];
    assert!(matches!(
        snapr.draw_overlay(&drawables, &context),
        Err(SnaprError::BoundingBoxCalculation)
    ));
    assert_eq!(calls.get(), 3);
    calls.set(0);
    let drawables: Vec<&dyn Drawable> = vec![&first, &second];
    assert_eq!(snapr.draw_overlay(&drawables, &context).unwrap().commands().len(), 2);
    assert_eq!(calls.get(), 2);
}
