use snapr::drawing::canvas::Canvas;
use snapr::drawing::canvas::DrawCommand;
use snapr::drawing::geometry::draw_sequence;
use snapr::drawing::geometry::line::LineOptions;
use snapr::drawing::geometry::line::LineStringStyle;
use snapr::drawing::geometry::line::LineStyle;
use snapr::drawing::geometry::point::PointOptions;
use snapr::drawing::geometry::point::PointStyle;
use snapr::drawing::geometry::polygon::PolygonStyle;
use snapr::drawing::geometry::styled::bounding_rect_of_styled;
use snapr::drawing::geometry::styled::draw_styled_sequence;
use snapr::drawing::geometry::styled::StyledGeometry;
use snapr::drawing::style::Color;
use snapr::drawing::style::ColorOptions;
use snapr::drawing::style::Length;
use snapr::drawing::svg::LabelOptions;
use snapr::drawing::Context;
use snapr::drawing::Drawable;
use snapr::drawing::Effect;
use snapr::drawing::EffectFn;
use snapr::drawing::Styleable;
use snapr::fetchers::IndividualTileFetcher;
use snapr::geometry::Geometry;
use snapr::geometry::GeometryCollection;
use snapr::geometry::Line;
use snapr::geometry::LineString;
use snapr::geometry::MultiLineString;
use snapr::geometry::MultiPoint;
use snapr::geometry::MultiPolygon;
use snapr::geometry::Point;
use snapr::geometry::Polygon;
use snapr::geometry::Rect;
use snapr::geometry::Triangle;
use snapr::projection::Coord;
use snapr::projection::WORLD_UNITS;
use snapr::SnaprBuilder;
use snapr::SnaprError;
use snapr::TileFetcher;
use snapr::Zoom;

const HALF: i64 = WORLD_UNITS / 2;
const STEP: i64 = WORLD_UNITS / 64;

fn context() -> Context {
    Context {
        tile_size: 256,
        width: 800,
        height: 600,
        center: Coord { x: HALF, y: HALF },
        zoom: 2,
        index: 0,
    }
}

fn at(east: i64, south: i64) -> Coord {
    Coord { x: HALF + east * STEP, y: HALF + south * STEP }
}

fn ring() -> LineString {
    LineString(vec![at(0, 0), at(2, 0), at(0, 2), at(0, 0)])
}

fn red() -> PointStyle<'static> {
    PointStyle {
        options: PointOptions {
            color_options: ColorOptions {
                foreground: Color::from_rgba8(255, 0, 0, 255),
                border: None,
                ..ColorOptions::default()
            },
            ..PointOptions::default()
        },
        effect: None,
    }
}

fn thin() -> LineStringStyle<'static> {
    LineStringStyle {
        options: LineOptions { width: Length::pixels(1), ..LineOptions::default() },
        point_style: red(),
        effect: None,
    }
}

struct Indexed;

impl EffectFn<Point, PointOptions> for Indexed {
    fn restyle(&self, style: &PointOptions, _point: &Point, context: &Context) -> PointOptions {
        PointOptions {
            color_options: style.color_options,
            representation: snapr::drawing::geometry::point::Representation::default(),
            label: Some(LabelOptions { text: context.index.to_string(), ..LabelOptions::default() }),
        }
    }
}

struct Blank;

impl IndividualTileFetcher for Blank {
    fn fetch_tile(&self, _x: i32, _y: i32, _zoom: u8) -> Result<image::DynamicImage, SnaprError> {
        Ok(image::DynamicImage::ImageRgba8(image::RgbaImage::new(256, 256)))
    }
}

fn commands(draw: impl FnOnce(&mut Canvas) -> Result<(), SnaprError>) -> Canvas {
    let mut canvas = Canvas::new(800, 600);
    draw(&mut canvas).unwrap();
    canvas
}

#[test]
fn a_styled_geometry_draws_as_its_kind_in_its_style() {
    let point = Point(at(1, 1));
    assert_eq!(
        commands(|canvas| StyledGeometry::Point(point, red()).draw(canvas, &context())),
        commands(|canvas| point.as_styled(red()).draw(canvas, &context()))
    );
    let line = Line { start: at(0, 0), end: at(1, 2) };
    let style = || LineStyle { point_style: red(), ..LineStyle::default() };
    assert_eq!(
        commands(|canvas| StyledGeometry::Line(line, style()).draw(canvas, &context())),
        commands(|canvas| line.as_styled(style()).draw(canvas, &context()))
    );
    assert_eq!(
        commands(|canvas| StyledGeometry::LineString(ring(), thin()).draw(canvas, &context())),
        commands(|canvas| ring().as_styled(thin()).draw(canvas, &context()))
    );
    let polygon = || Polygon { exterior: ring(), interiors: Vec::new() };
    let style = || PolygonStyle { line_style: thin(), point_style: red(), ..PolygonStyle::default() };
    assert_eq!(
        commands(|canvas| StyledGeometry::Polygon(polygon(), style()).draw(canvas, &context())),
        commands(|canvas| polygon().as_styled(style()).draw(canvas, &context()))
    );
    assert_eq!(
        commands(|canvas| {
            StyledGeometry::MultiPolygon(MultiPolygon(vec![polygon(), polygon()]), style())
                .draw(canvas, &context())
        }),
        commands(|canvas| {
            MultiPolygon(vec![polygon(), polygon()]).as_styled(style()).draw(canvas, &context())
        })
    );
    let rect = Rect { min: at(0, 0), max: at(2, 1) };
    assert_eq!(
        commands(|canvas| StyledGeometry::Rect(rect, style()).draw(canvas, &context())),
        commands(|canvas| rect.as_styled(style()).draw(canvas, &context()))
    );
    let triangle = Triangle(at(0, 0), at(2, 0), at(0, 2));
    assert_eq!(
        commands(|canvas| StyledGeometry::Triangle(triangle, style()).draw(canvas, &context())),
        commands(|canvas| triangle.as_styled(style()).draw(canvas, &context()))
    );
    let points = || MultiPoint(vec![Point(at(0, 0)), Point(at(1, 0))]);
    assert_eq!(
        commands(|canvas| StyledGeometry::MultiPoint(points(), red()).draw(canvas, &context())),
        commands(|canvas| points().as_styled(red()).draw(canvas, &context()))
    );
    let lines = || MultiLineString(vec![ring(), ring()]);
    assert_eq!(
        commands(|canvas| StyledGeometry::MultiLineString(lines(), thin()).draw(canvas, &context())),
        commands(|canvas| lines().as_styled(thin()).draw(canvas, &context()))
    );
}

#[test]
fn the_standard_styles_draw_as_the_plain_geometries() {
    let plain = vec![
        Geometry::Point(Point(at(0, 0))),
        Geometry::LineString(ring()),
        Geometry::GeometryCollection(GeometryCollection(vec![
            Geometry::Rect(Rect { min: at(0, 0), max: at(1, 1) }),
            Geometry::Line(Line { start: at(0, 0), end: at(1, 1) }),
        ])),
    ];
    let styled = vec![
        StyledGeometry::Point(Point(at(0, 0)), PointStyle::default()),
        StyledGeometry::LineString(ring(), LineStringStyle::default()),
        StyledGeometry::GeometryCollection(vec![
            StyledGeometry::Rect(Rect { min: at(0, 0), max: at(1, 1) }, PolygonStyle::default()),
            StyledGeometry::Line(Line { start: at(0, 0), end: at(1, 1) }, LineStyle::default()),
        ]),
    ];
    assert_eq!(
        commands(|canvas| draw_styled_sequence(canvas, &styled, &context())),
        commands(|canvas| draw_sequence(canvas, &plain, &context()))
    );
}

#[test]
fn each_member_of_a_collection_keeps_its_style() {
    let collection = StyledGeometry::GeometryCollection(vec![
        StyledGeometry::Point(Point(at(0, 0)), red()),
        StyledGeometry::Point(Point(at(1, 0)), PointStyle::default()),
    ]);
    let canvas = commands(|canvas| collection.draw(canvas, &context()));
    assert_eq!(canvas.commands().len(), 1 + 2);
    assert!(matches!(
        &canvas.commands()[0],
        DrawCommand::FillPath { paint, .. } if paint.color == Color::from_rgba8(255, 0, 0, 255)
    ));
    assert!(matches!(
        &canvas.commands()[1],
        DrawCommand::FillPath { paint, .. } if paint.color == Color::from_rgba8(248, 248, 248, 255)
    ));
    assert!(matches!(&canvas.commands()[2], DrawCommand::StrokePath { .. }));
}

#[test]
fn effects_see_the_place_of_each_geometry() {
    let numbered = || PointStyle { options: PointOptions::default(), effect: Some(Effect::new(Box::new(Indexed))) };
    let geometries = vec![
        StyledGeometry::Point(Point(at(0, 0)), numbered()),
        StyledGeometry::Point(Point(at(1, 0)), red()),
        StyledGeometry::GeometryCollection(vec![StyledGeometry::Point(Point(at(2, 0)), numbered())]),
    ];
    let canvas = commands(|canvas| draw_styled_sequence(canvas, &geometries, &context()));
    let labels: Vec<&str> = canvas
        .commands()
        .iter()
        .filter_map(|command| match command {
            DrawCommand::RenderSvg { svg } => Some(svg.markup.as_str()),
            _ => None,
        })
        .collect();
    assert_eq!(labels.len(), 2);
    assert!(labels[0].contains(">0</text>"));
    assert!(labels[1].contains(">2</text>"));
}

#[test]
fn a_styled_member_that_makes_no_path_fails_the_collection() {
    let geometries = vec![
        StyledGeometry::Point(Point(at(0, 0)), red()),
        StyledGeometry::GeometryCollection(vec![StyledGeometry::LineString(
            LineString(vec![at(0, 0)]),
            thin(),
        )]),
    ];
    let mut canvas = Canvas::new(800, 600);
    assert!(matches!(
        draw_styled_sequence(&mut canvas, &geometries, &context()),
        Err(SnaprError::PathConstruction)
    ));
    let polygon = StyledGeometry::Polygon(
        Polygon { exterior: LineString(Vec::new()), interiors: Vec::new() },
        PolygonStyle::default(),
    );
    assert!(matches!(polygon.draw(&mut canvas, &context()), Err(SnaprError::PathConstruction)));
}

#[test]
fn styled_geometries_are_bounded_by_their_positions() {
    assert_eq!(bounding_rect_of_styled(&Vec::new()), None);
    let geometries = vec![
        StyledGeometry::Point(Point(at(3, -1)), red()),
        StyledGeometry::GeometryCollection(vec![
            StyledGeometry::LineString(ring(), thin()),
            StyledGeometry::MultiPoint(MultiPoint(Vec::new()), red()),
        ]),
    ];
    assert_eq!(bounding_rect_of_styled(&geometries), Some(Rect { min: at(0, -1), max: at(3, 2) }));
}

#[test]
fn the_overlay_of_styled_geometries() {
    let snapr = SnaprBuilder::new().with_tile_fetcher(TileFetcher::individual(Box::new(Blank))).build().unwrap();
    let geometries = vec![
        StyledGeometry::Point(Point(Coord { x: HALF, y: HALF }), red()),
        StyledGeometry::Point(Point(Coord { x: HALF + WORLD_UNITS / 1024, y: HALF }), red()),
    ];
    let center = Coord { x: HALF + WORLD_UNITS / 8192, y: HALF };
    let (context, canvas) = snapr.overlay_from_styled_geometries(&geometries, Some(center)).unwrap();
    assert_eq!(context.zoom, 11);
    assert_eq!((canvas.width(), canvas.height()), (800, 600));
    assert_eq!(canvas.commands().len(), 2);
    assert!(matches!(
        snapr.overlay_from_styled_geometries(&geometries, None),
        Err(SnaprError::CentroidCalculation)
    ));
    assert!(matches!(
        snapr.overlay_from_styled_geometries(&Vec::new(), Some(center)),
        Err(SnaprError::BoundingBoxCalculation)
    ));
    let short = vec![StyledGeometry::LineString(LineString(vec![center]), thin())];
    assert!(matches!(
        snapr.overlay_from_styled_geometries(&short, Some(center)),
        Err(SnaprError::PathConstruction)
    ));
    let forced = SnaprBuilder::new()
        .with_tile_fetcher(TileFetcher::individual(Box::new(Blank)))
        .with_zoom(Zoom::Constant(3))
        .build()
        .unwrap();
    let (context, canvas) = forced.overlay_from_styled_geometries(&Vec::new(), Some(center)).unwrap();
    assert_eq!(context.zoom, 3);
    assert!(canvas.commands().is_empty());
}

#[test]
fn a_failing_styled_list_leaves_what_was_drawn_before_it_failed() {
    let geometries = vec![
        StyledGeometry::Point(Point(at(0, 0)), red()),
        StyledGeometry::GeometryCollection(vec![
            StyledGeometry::Point(Point(at(1, 0)), red()),
            StyledGeometry::LineString(LineString(vec![at(0, 0)]), thin()),
            StyledGeometry::Point(Point(at(2, 0)), red()),
        ]),
        StyledGeometry::Point(Point(at(3, 0)), red()),
    ];
    let mut canvas = Canvas::new(800, 600);
    assert!(matches!(
        draw_styled_sequence(&mut canvas, &geometries, &context()),
        Err(SnaprError::PathConstruction)
    ));
    let drawn = vec![
        StyledGeometry::Point(Point(at(0, 0)), red()),
        StyledGeometry::Point(Point(at(1, 0)), red()),
    ];
    assert_eq!(canvas, commands(|canvas| draw_styled_sequence(canvas, &drawn, &context())));
}
