use snapr::drawing::canvas::Canvas;
use snapr::drawing::canvas::DrawCommand;
use snapr::drawing::canvas::Paint;
use snapr::drawing::canvas::Path;
use snapr::drawing::geometry::draw_geometry;
use snapr::drawing::geometry::draw_sequence;
use snapr::drawing::geometry::line::draw_line_string;
use snapr::drawing::geometry::line::LineLook;
use snapr::drawing::geometry::line::project_all;
use snapr::drawing::geometry::line::LineOptions;
use snapr::drawing::geometry::line::LineStringStyle;
use snapr::drawing::geometry::line::LineStyle;
use snapr::drawing::geometry::point::draw_point;
use snapr::drawing::geometry::point::PointOptions;
use snapr::drawing::geometry::point::PointStyle;
use snapr::drawing::geometry::point::Representation;
use snapr::drawing::geometry::point::Shape;
use snapr::drawing::geometry::polygon::PolygonLook;
use snapr::drawing::geometry::polygon::PolygonOptions;
use snapr::drawing::geometry::polygon::PolygonStyle;
use snapr::drawing::style::Color;
use snapr::drawing::style::ColorOptions;
use snapr::drawing::style::Length;
use snapr::drawing::svg::LabelOptions;
use snapr::drawing::svg::SpatialSvg;
use snapr::drawing::svg::SvgOptions;
use snapr::drawing::Context;
use snapr::drawing::Drawable;
use snapr::drawing::Effect;
use snapr::drawing::EffectFn;
use snapr::drawing::Styleable;
use snapr::geometry::Geometry;
use snapr::geometry::GeometryCollection;
use snapr::geometry::Line;
use snapr::geometry::LineString;
use snapr::geometry::MultiLineString;
use snapr::geometry::MultiPoint;
use snapr::geometry::MultiPolygon;
use snapr::geometry::Point;
use snapr::geometry::Polygon;
use snapr::geometry::Rect;
use snapr::geometry::Triangle;
use snapr::projection::Coord;
use snapr::projection::PixelCoord;
use snapr::projection::WORLD_UNITS;
use snapr::SnaprError;

const HALF: i64 = WORLD_UNITS / 2;
// Sixteen pixels at zoom 2 with tiles of 256 pixels.
const STEP: i64 = WORLD_UNITS / 64;

const WHITE: Color = Color { red: 248, green: 248, blue: 248, alpha: 255 };
const GREY: Color = Color { red: 196, green: 196, blue: 196, alpha: 255 };
const DARK: Color = Color { red: 26, green: 26, blue: 26, alpha: 255 };
const FAINT: Color = Color { red: 248, green: 248, blue: 248, alpha: 64 };

fn context() -> Context {
    Context {
        tile_size: 256,
        width: 800,
        height: 600,
        center: Coord { x: HALF, y: HALF },
        zoom: 2,
        index: 0,
    }
}

fn at(east: i64, south: i64) -> Coord {
    Coord { x: HALF + east * STEP, y: HALF + south * STEP }
}

fn pixel(east: i32, south: i32) -> PixelCoord {
    PixelCoord { x: 400 + 16 * east, y: 300 + 16 * south }
}

fn paint(color: Color) -> Paint {
    Paint { color, anti_alias: true }
}

fn circle(center: PixelCoord) -> Path {
    Path::Circle { center, radius: Length::pixels(4) }
}

fn marker(center: PixelCoord) -> Vec<DrawCommand> {
    vec![
        DrawCommand::FillPath { path: circle(center), paint: paint(WHITE) },
        DrawCommand::StrokePath { path: circle(center), paint: paint(DARK), width: Length::pixels(1) },
    ]
}

fn strokes(points: Vec<PixelCoord>, closed: bool) -> Vec<DrawCommand> {
    vec![
        DrawCommand::StrokePath {
            path: Path::Polyline { points: points.clone(), closed },
            paint: paint(DARK),
            width: Length::pixels(4),
        },
        DrawCommand::StrokePath {
            path: Path::Polyline { points, closed },
            paint: paint(GREY),
            width: Length::pixels(3),
        },
    ]
}

fn drawn(drawable: &dyn Drawable) -> Vec<DrawCommand> {
    let mut canvas = Canvas::new(800, 600);
    drawable.draw(&mut canvas, &context()).unwrap();
    assert_eq!((canvas.width(), canvas.height()), (800, 600));
    canvas.commands().iter().map(copy).collect()
}

fn copy(command: &DrawCommand) -> DrawCommand {
    let path = |path: &Path| match path {
        Path::Circle { center, radius } => Path::Circle { center: *center, radius: *radius },
        Path::Polyline { points, closed } => Path::Polyline { points: points.clone(), closed: *closed },
    };
    match command {
        DrawCommand::FillPath { path: outline, paint } => {
            DrawCommand::FillPath { path: path(outline), paint: *paint }
        }
        DrawCommand::StrokePath { path: outline, paint, width } => {
            DrawCommand::StrokePath { path: path(outline), paint: *paint, width: *width }
        }
        DrawCommand::RenderSvg { svg } => DrawCommand::RenderSvg {
            svg: SpatialSvg { pixel: svg.pixel, markup: svg.markup.clone() },
        },
    }
}

fn triangle_ring() -> LineString {
    LineString(vec![at(0, 0), at(2, 0), at(0, 2), at(0, 0)])
}

struct Numbered;

impl EffectFn<Point, PointOptions> for Numbered {
    fn restyle(&self, style: &PointOptions, _point: &Point, context: &Context) -> PointOptions {
        PointOptions {
            color_options: style.color_options,
            representation: Representation::Shape(Shape::Circle { radius: Length::pixels(2) }),
            label: Some(LabelOptions { text: context.index.to_string(), ..LabelOptions::default() }),
        }
    }
}

struct Widened;

impl EffectFn<LineString, LineLook> for Widened {
    fn restyle(&self, style: &LineLook, line_string: &LineString, _context: &Context) -> LineLook {
        LineLook {
            options: LineOptions {
                color_options: ColorOptions { border: None, ..style.options.color_options },
                width: Length::pixels(line_string.0.len() as u16),
            },
            point_options: style.point_options.copy(),
        }
    }
}

fn bare(color_options: ColorOptions) -> PointOptions {
    PointOptions {
        color_options: ColorOptions { foreground: DARK, border: None, ..color_options },
        representation: Representation::Shape(Shape::Circle { radius: Length::pixels(2) }),
        label: None,
    }
}

fn dot(center: PixelCoord) -> DrawCommand {
    DrawCommand::FillPath { path: Path::Circle { center, radius: Length::pixels(2) }, paint: paint(DARK) }
}

struct DottedLine;

impl EffectFn<Line, LineLook> for DottedLine {
    fn restyle(&self, style: &LineLook, _line: &Line, _context: &Context) -> LineLook {
        LineLook { options: style.options, point_options: bare(style.point_options.color_options) }
    }
}

struct DottedPath;

impl EffectFn<LineString, LineLook> for DottedPath {
    fn restyle(&self, style: &LineLook, _line_string: &LineString, _context: &Context) -> LineLook {
        LineLook { options: style.options, point_options: bare(style.point_options.color_options) }
    }
}

struct DottedRing;

impl EffectFn<Polygon, PolygonLook> for DottedRing {
    fn restyle(&self, style: &PolygonLook, _polygon: &Polygon, _context: &Context) -> PolygonLook {
        PolygonLook {
            options: style.options,
            line_options: LineOptions {
                color_options: ColorOptions { border: None, ..style.line_options.color_options },
                width: Length::pixels(7),
            },
            point_options: bare(style.point_options.color_options),
        }
    }
}

struct Tinted;

impl EffectFn<Polygon, PolygonLook> for Tinted {
    fn restyle(&self, style: &PolygonLook, _polygon: &Polygon, context: &Context) -> PolygonLook {
        PolygonLook {
            options: PolygonOptions {
                color_options: ColorOptions {
                    foreground: Color::from_rgba8(context.zoom, 0, 0, 255),
                    ..style.options.color_options
                },
            },
            line_options: style.line_options,
            point_options: style.point_options.copy(),
        }
    }
}

#[test]
fn a_new_canvas_is_empty() {
    let canvas = Canvas::new(800, 600);
    assert_eq!(canvas.width(), 800);
    assert_eq!(canvas.height(), 600);
    assert!(canvas.commands().is_empty());
}

#[test]
fn operations_are_kept_in_their_order() {
    let mut canvas = Canvas::new(10, 10);
    canvas.fill_path(circle(pixel(0, 0)), paint(WHITE));
    canvas.stroke_path(circle(pixel(1, 0)), paint(DARK), Length::pixels(2));
    canvas.render_svg(SpatialSvg { pixel: pixel(2, 0), markup: "<svg/>".to_string() });
    assert_eq!(
        canvas.commands(),
        &vec![
            DrawCommand::FillPath { path: circle(pixel(0, 0)), paint: paint(WHITE) },
            DrawCommand::StrokePath {
                path: circle(pixel(1, 0)),
                paint: paint(DARK),
                width: Length::pixels(2)
            },
            DrawCommand::RenderSvg {
                svg: SpatialSvg { pixel: pixel(2, 0), markup: "<svg/>".to_string() }
            },
        ]
    );
}

#[test]
fn the_context_projects_and_counts() {
    let context = context();
    assert_eq!(context.epsg_4326_to_pixel(&at(0, 0)), pixel(0, 0));
    assert_eq!(context.epsg_4326_to_pixel(&at(3, -2)), pixel(3, -2));
    let seventh = context.with_index(7);
    assert_eq!(seventh, Context { index: 7, ..context });
    assert_eq!(seventh.epsg_4326_to_pixel(&at(3, -2)), pixel(3, -2));
}

#[test]
fn a_shape_gives_its_outline() {
    assert_eq!(
        Shape::Circle { radius: Length::pixels(9) }.to_path(3, -4).unwrap(),
        Path::Circle { center: PixelCoord { x: 3, y: -4 }, radius: Length::pixels(9) }
    );
    assert_eq!(Shape::default().to_path(0, 0).unwrap(), circle(PixelCoord { x: 0, y: 0 }));
}

#[test]
fn a_point_is_a_filled_circle_with_a_border() {
    assert_eq!(drawn(&Point(at(1, 1))), marker(pixel(1, 1)));
    assert_eq!(drawn(&Geometry::Point(Point(at(0, 0)))), marker(pixel(0, 0)));
}

#[test]
fn a_point_without_a_border_is_only_filled() {
    let options = PointOptions {
        color_options: ColorOptions { border: None, anti_alias: false, ..ColorOptions::default() },
        ..PointOptions::default()
    };
    let mut canvas = Canvas::new(800, 600);
    draw_point(&mut canvas, &Point(at(0, 0)), &options, &context()).unwrap();
    assert_eq!(
        canvas.commands(),
        &vec![DrawCommand::FillPath {
            path: circle(pixel(0, 0)),
            paint: Paint { color: WHITE, anti_alias: false }
        }]
    );
}

#[test]
fn a_label_is_rendered_after_the_marker() {
    let label = LabelOptions { text: "here".to_string(), ..LabelOptions::default() };
    let expected = label.try_as_svg(pixel(2, 0));
    let point = Point(at(2, 0));
    let style = PointStyle {
        options: PointOptions { label: Some(label), ..PointOptions::default() },
        effect: None,
    };
    let mut commands = marker(pixel(2, 0));
    commands.push(DrawCommand::RenderSvg { svg: expected });
    assert_eq!(drawn(&point.as_styled(style)), commands);
}

#[test]
fn a_point_shown_as_markup_asks_for_that_markup_alone() {
    let point = Point(at(0, 0));
    let style = PointStyle {
        options: PointOptions {
            representation: Representation::Svg(SvgOptions {
                offset: (5, -5),
                svg: "<svg><rect/></svg>".to_string(),
            }),
            label: Some(LabelOptions { text: "unseen".to_string(), ..LabelOptions::default() }),
            ..PointOptions::default()
        },
        effect: None,
    };
    assert_eq!(
        drawn(&point.as_styled(style)),
        vec![DrawCommand::RenderSvg {
            svg: SpatialSvg {
                pixel: PixelCoord { x: 395, y: 305 },
                markup: "<svg><rect/></svg>".to_string()
            }
        }]
    );
}

#[test]
fn an_effect_computes_the_options_of_each_point() {
    let point = Point(at(0, 0));
    let style = PointStyle { options: PointOptions::default(), effect: Some(Effect::new(Box::new(Numbered))) };
    let styled = point.as_styled(style);
    let mut canvas = Canvas::new(800, 600);
    styled.draw(&mut canvas, &context().with_index(5)).unwrap();
    let small = Path::Circle { center: pixel(0, 0), radius: Length::pixels(2) };
    let label = LabelOptions { text: "5".to_string(), ..LabelOptions::default() };
    assert_eq!(
        canvas.commands(),
        &vec![
            DrawCommand::FillPath { path: copy_path(&small), paint: paint(WHITE) },
            DrawCommand::StrokePath { path: small, paint: paint(DARK), width: Length::pixels(1) },
            DrawCommand::RenderSvg { svg: label.try_as_svg(pixel(0, 0)) },
        ]
    );
}

fn copy_path(path: &Path) -> Path {
    match path {
        Path::Circle { center, radius } => Path::Circle { center: *center, radius: *radius },
        Path::Polyline { points, closed } => Path::Polyline { points: points.clone(), closed: *closed },
    }
}

#[test]
fn an_effect_is_applied_by_hand() {
    let effect = Effect::new(Box::new(Numbered));
    let restyled = effect.apply(&PointOptions::default(), &Point(at(0, 0)), &context().with_index(3));
    assert_eq!(restyled.label.unwrap().text, "3");
}

#[test]
fn several_points_share_their_style() {
    let points = MultiPoint(vec![Point(at(0, 0)), Point(at(1, 0)), Point(at(0, 1))]);
    let mut expected = marker(pixel(0, 0));
    expected.extend(marker(pixel(1, 0)));
    expected.extend(marker(pixel(0, 1)));
    assert_eq!(drawn(&points), expected);
    assert_eq!(drawn(&points.as_styled(PointStyle::default())), expected);
    assert_eq!(drawn(&MultiPoint(Vec::new())), Vec::new());
}

#[test]
fn a_line_is_stroked_twice_and_ends_in_two_points() {
    let line = Line { start: at(0, 0), end: at(3, 4) };
    let mut expected = strokes(vec![pixel(0, 0), pixel(3, 4)], false);
    expected.extend(marker(pixel(0, 0)));
    expected.extend(marker(pixel(3, 4)));
    assert_eq!(drawn(&line), expected);
    assert_eq!(drawn(&line.as_styled(LineStyle::default())), expected);
    assert_eq!(drawn(&Geometry::Line(line)), expected);
}

#[test]
fn the_ends_of_a_line_are_numbered() {
    let line = Line { start: at(0, 0), end: at(1, 0) };
    let style = LineStyle {
        point_style: PointStyle { options: PointOptions::default(), effect: Some(Effect::new(Box::new(Numbered))) },
        ..LineStyle::default()
    };
    let commands = drawn(&line.as_styled(style));
    assert_eq!(commands.len(), 8);
    let texts: Vec<String> = commands
        .iter()
        .filter_map(|command| match command {
            DrawCommand::RenderSvg { svg } => Some(svg.markup.clone()),
            _ => None,
        })
        .collect();
    assert_eq!(texts.len(), 2);
    assert!(texts[0].contains(">0</text>"));
    assert!(texts[1].contains(">1</text>"));
}

#[test]
fn three_collinear_points_make_two_strokes_and_three_markers() {
    let line_string = LineString(vec![at(0, 0), at(1, 0), at(2, 0)]);
    let path = vec![pixel(0, 0), pixel(1, 0), pixel(2, 0)];
    assert_eq!(path, vec![
        PixelCoord { x: 400, y: 300 },
        PixelCoord { x: 416, y: 300 },
        PixelCoord { x: 432, y: 300 },
    ]);
    let commands = drawn(&line_string);
    assert_eq!(commands.len(), 8);
    assert_eq!(
        commands[0],
        DrawCommand::StrokePath {
            path: Path::Polyline { points: path.clone(), closed: false },
            paint: paint(DARK),
            width: Length { hundredths: 400 },
        }
    );
    assert_eq!(
        commands[1],
        DrawCommand::StrokePath {
            path: Path::Polyline { points: path.clone(), closed: false },
            paint: paint(GREY),
            width: Length { hundredths: 300 },
        }
    );
    for (position, center) in path.iter().enumerate() {
        assert_eq!(commands[2 + 2 * position..4 + 2 * position], marker(*center)[..]);
    }
    assert_eq!(drawn(&line_string.as_styled(LineStringStyle::default())), commands);
    assert_eq!(project_all(&line_string.0, &context()), path);
}

#[test]
fn a_line_string_without_a_border_is_stroked_once() {
    let line_string = LineString(vec![at(0, 0), at(1, 1)]);
    let options = LineOptions {
        color_options: ColorOptions { border: None, ..ColorOptions::default() },
        width: Length { hundredths: 150 },
    };
    let mut canvas = Canvas::new(800, 600);
    draw_line_string(&mut canvas, &line_string, &options, &PointOptions::default(), &None, &context()).unwrap();
    let mut expected = vec![DrawCommand::StrokePath {
        path: Path::Polyline { points: vec![pixel(0, 0), pixel(1, 1)], closed: false },
        paint: paint(WHITE),
        width: Length { hundredths: 150 },
    }];
    expected.extend(marker(pixel(0, 0)));
    expected.extend(marker(pixel(1, 1)));
    assert_eq!(canvas.commands(), &expected);
}

#[test]
fn a_line_string_of_one_point_makes_no_path() {
    for points in [Vec::new(), vec![at(0, 0)]] {
        let line_string = LineString(points);
        let mut canvas = Canvas::new(800, 600);
        canvas.fill_path(circle(pixel(9, 9)), paint(WHITE));
        let outcome = line_string.draw(&mut canvas, &context());
        assert!(matches!(outcome, Err(SnaprError::PathConstruction)));
        assert_eq!(canvas.commands().len(), 1);
        let styled = line_string.as_styled(LineStringStyle::default());
        assert!(matches!(styled.draw(&mut canvas, &context()), Err(SnaprError::PathConstruction)));
        assert_eq!(canvas.commands().len(), 1);
    }
}

#[test]
fn an_effect_computes_the_options_of_each_line_string() {
    let line_string = LineString(vec![at(0, 0), at(1, 0), at(2, 0), at(3, 0), at(4, 0)]);
    let style = LineStringStyle { effect: Some(Effect::new(Box::new(Widened))), ..LineStringStyle::default() };
    let commands = drawn(&line_string.as_styled(style));
    assert_eq!(commands.len(), 1 + 2 * 5);
    assert!(matches!(
        &commands[0],
        DrawCommand::StrokePath { width: Length { hundredths: 500 }, paint: Paint { color: GREY, .. }, .. }
    ));
}

#[test]
fn an_effect_on_a_line_restyles_its_end_points_too() {
    let line = Line { start: at(0, 0), end: at(3, 1) };
    let style = LineStyle { effect: Some(Effect::new(Box::new(DottedLine))), ..LineStyle::default() };
    let mut expected = strokes(vec![pixel(0, 0), pixel(3, 1)], false);
    expected.push(dot(pixel(0, 0)));
    expected.push(dot(pixel(3, 1)));
    assert_eq!(drawn(&line.as_styled(style)), expected);
}

#[test]
fn an_effect_on_a_line_string_restyles_its_vertices_too() {
    let line_string = LineString(vec![at(0, 0), at(1, 0), at(2, 2)]);
    let style = LineStringStyle { effect: Some(Effect::new(Box::new(DottedPath))), ..LineStringStyle::default() };
    let path = vec![pixel(0, 0), pixel(1, 0), pixel(2, 2)];
    let mut expected = strokes(path.clone(), false);
    expected.extend(path.into_iter().map(dot));
    assert_eq!(drawn(&line_string.as_styled(style)), expected);
}

#[test]
fn the_vertices_take_the_look_of_the_path_and_then_their_own_effect() {
    let line_string = LineString(vec![at(0, 0), at(1, 0)]);
    let style = LineStringStyle {
        point_style: PointStyle { options: PointOptions::default(), effect: Some(Effect::new(Box::new(Numbered))) },
        effect: Some(Effect::new(Box::new(DottedPath))),
        ..LineStringStyle::default()
    };
    let commands = drawn(&line_string.as_styled(style));
    // Each vertex: the circle that its own effect sets, in the colour that
    // the effect of the path gave, and the label of its index.
    assert_eq!(commands.len(), 2 + 2 * 2);
    assert_eq!(commands[2], dot(pixel(0, 0)));
    assert!(matches!(&commands[3], DrawCommand::RenderSvg { .. }));
    assert_eq!(commands[4], dot(pixel(1, 0)));
    assert!(matches!(&commands[5], DrawCommand::RenderSvg { .. }));
}

#[test]
fn an_effect_on_a_polygon_restyles_its_outline_and_its_vertices_too() {
    let polygon = Polygon { exterior: triangle_ring(), interiors: Vec::new() };
    let style = PolygonStyle { effect: Some(Effect::new(Box::new(DottedRing))), ..PolygonStyle::default() };
    let ring = vec![pixel(0, 0), pixel(2, 0), pixel(0, 2), pixel(0, 0)];
    let mut expected = vec![
        DrawCommand::FillPath { path: Path::Polyline { points: ring.clone(), closed: true }, paint: paint(FAINT) },
        DrawCommand::StrokePath {
            path: Path::Polyline { points: ring.clone(), closed: true },
            paint: paint(GREY),
            width: Length::pixels(7),
        },
    ];
    expected.extend(ring.into_iter().map(dot));
    assert_eq!(drawn(&polygon.as_styled(style)), expected);
}

#[test]
fn several_line_strings_are_drawn_in_their_order() {
    let first = LineString(vec![at(0, 0), at(1, 0)]);
    let second = LineString(vec![at(0, 1), at(1, 1), at(2, 1)]);
    let mut expected = drawn(&first);
    expected.extend(drawn(&second));
    let both = MultiLineString(vec![first, second]);
    assert_eq!(drawn(&both), expected);
    assert_eq!(drawn(&both.as_styled(LineStringStyle::default())), expected);
    assert_eq!(drawn(&MultiLineString(Vec::new())), Vec::new());
}

#[test]
fn one_short_line_string_fails_them_all() {
    let both = MultiLineString(vec![
        LineString(vec![at(0, 0), at(1, 0)]),
        LineString(vec![at(0, 1)]),
        LineString(vec![at(0, 2), at(1, 2)]),
    ]);
    let mut canvas = Canvas::new(800, 600);
    assert!(matches!(both.draw(&mut canvas, &context()), Err(SnaprError::PathConstruction)));
    assert!(matches!(
        Geometry::MultiLineString(both).draw(&mut canvas, &context()),
        Err(SnaprError::PathConstruction)
    ));
}

#[test]
fn a_polygon_is_filled_then_outlined_then_marked() {
    let polygon = Polygon { exterior: triangle_ring(), interiors: vec![LineString(vec![at(9, 9)])] };
    let ring = vec![pixel(0, 0), pixel(2, 0), pixel(0, 2), pixel(0, 0)];
    let mut expected = vec![DrawCommand::FillPath {
        path: Path::Polyline { points: ring.clone(), closed: true },
        paint: paint(FAINT),
    }];
    expected.extend(strokes(ring.clone(), true));
    for center in ring {
        expected.extend(marker(center));
    }
    assert_eq!(drawn(&polygon), expected);
    assert_eq!(drawn(&polygon.as_styled(PolygonStyle::default())), expected);
    assert_eq!(drawn(&Geometry::Polygon(polygon)), expected);
}

#[test]
fn a_polygon_without_a_ring_makes_no_path() {
    let polygon = Polygon { exterior: LineString(Vec::new()), interiors: Vec::new() };
    let mut canvas = Canvas::new(800, 600);
    assert!(matches!(polygon.draw(&mut canvas, &context()), Err(SnaprError::PathConstruction)));
    assert!(canvas.commands().is_empty());
    let many = MultiPolygon(vec![
        Polygon { exterior: triangle_ring(), interiors: Vec::new() },
        Polygon { exterior: LineString(Vec::new()), interiors: Vec::new() },
    ]);
    assert!(matches!(many.draw(&mut canvas, &context()), Err(SnaprError::PathConstruction)));
}

#[test]
fn the_fill_of_a_polygon_takes_its_effect_and_the_outline_keeps_its_style() {
    let polygon = Polygon { exterior: triangle_ring(), interiors: Vec::new() };
    let style = PolygonStyle {
        line_style: LineStringStyle { effect: Some(Effect::new(Box::new(Widened))), ..LineStringStyle::default() },
        effect: Some(Effect::new(Box::new(Tinted))),
        ..PolygonStyle::default()
    };
    let commands = drawn(&polygon.as_styled(style));
    assert_eq!(commands.len(), 3 + 2 * 4);
    assert!(matches!(
        &commands[0],
        DrawCommand::FillPath { paint: Paint { color: Color { red: 2, green: 0, blue: 0, alpha: 255 }, .. }, .. }
    ));
    // The effect of the outline's style is not applied: border and width
    // are the standard ones.
    assert!(matches!(&commands[1], DrawCommand::StrokePath { width: Length { hundredths: 400 }, .. }));
    assert!(matches!(&commands[2], DrawCommand::StrokePath { width: Length { hundredths: 300 }, .. }));
}

#[test]
fn several_polygons_are_drawn_in_their_order() {
    let first = Polygon { exterior: triangle_ring(), interiors: Vec::new() };
    let second = Polygon { exterior: LineString(vec![at(5, 5)]), interiors: Vec::new() };
    let mut expected = drawn(&first);
    expected.extend(drawn(&second));
    let both = MultiPolygon(vec![first, second]);
    assert_eq!(drawn(&both), expected);
    assert_eq!(drawn(&both.as_styled(PolygonStyle::default())), expected);
}

#[test]
fn a_rectangle_is_drawn_as_its_polygon() {
    let rect = Rect { min: at(-1, -2), max: at(3, 4) };
    let polygon = rect.to_polygon();
    assert_eq!(
        polygon.exterior,
        LineString(vec![at(-1, -2), at(3, -2), at(3, 4), at(-1, 4), at(-1, -2)])
    );
    assert!(polygon.interiors.is_empty());
    assert_eq!(drawn(&rect), drawn(&polygon));
    assert_eq!(drawn(&rect.as_styled(PolygonStyle::default())), drawn(&polygon));
    assert_eq!(drawn(&Geometry::Rect(rect)), drawn(&polygon));
}

#[test]
fn a_triangle_is_drawn_as_its_polygon() {
    let triangle = Triangle(at(0, 0), at(2, 0), at(0, 2));
    let polygon = triangle.to_polygon();
    assert_eq!(polygon.exterior, triangle_ring());
    assert!(polygon.interiors.is_empty());
    assert_eq!(drawn(&triangle), drawn(&polygon));
    assert_eq!(drawn(&triangle.as_styled(PolygonStyle::default())), drawn(&polygon));
    assert_eq!(drawn(&Geometry::Triangle(triangle)), drawn(&polygon));
}

fn assortment() -> Vec<Geometry> {
    vec![
        Geometry::Point(Point(at(0, 0))),
        Geometry::LineString(LineString(vec![at(0, 0), at(1, 0), at(2, 0)])),
        Geometry::Polygon(Polygon { exterior: triangle_ring(), interiors: Vec::new() }),
        Geometry::GeometryCollection(GeometryCollection(vec![
            Geometry::Line(Line { start: at(1, 1), end: at(2, 2) }),
            Geometry::MultiPoint(MultiPoint(vec![Point(at(3, 3)), Point(at(4, 4))])),
        ])),
        Geometry::Rect(Rect { min: at(0, 0), max: at(1, 1) }),
        Geometry::Triangle(Triangle(at(0, 0), at(1, 0), at(0, 1))),
        Geometry::MultiLineString(MultiLineString(vec![LineString(vec![at(5, 5), at(6, 6)])])),
        Geometry::MultiPolygon(MultiPolygon(vec![Polygon {
            exterior: triangle_ring(),
            interiors: Vec::new(),
        }])),
    ]
}

#[test]
fn a_collection_draws_as_its_members_one_after_the_other() {
    let mut one_by_one = Canvas::new(800, 600);
    draw_sequence(&mut one_by_one, &assortment(), &context()).unwrap();
    let mut by_hand = Canvas::new(800, 600);
    for (index, geometry) in assortment().iter().enumerate() {
        draw_geometry(&mut by_hand, geometry, &context().with_index(index)).unwrap();
    }
    let collection = GeometryCollection(assortment());
    let mut together = Canvas::new(800, 600);
    collection.draw(&mut together, &context()).unwrap();
    let mut wrapped = Canvas::new(800, 600);
    Geometry::GeometryCollection(GeometryCollection(assortment()))
        .draw(&mut wrapped, &context())
        .unwrap();
    assert!(!one_by_one.commands().is_empty());
    assert_eq!(one_by_one, by_hand);
    assert_eq!(one_by_one, together);
    assert_eq!(one_by_one, wrapped);
}

#[test]
fn later_geometries_are_drawn_after_earlier_ones() {
    let mut canvas = Canvas::new(800, 600);
    let geometries = vec![Geometry::Point(Point(at(1, 0))), Geometry::Point(Point(at(2, 0)))];
    draw_sequence(&mut canvas, &geometries, &context()).unwrap();
    let mut expected = marker(pixel(1, 0));
    expected.extend(marker(pixel(2, 0)));
    assert_eq!(canvas.commands(), &expected);
}

#[test]
fn a_member_that_makes_no_path_fails_the_collection() {
    let mut geometries = assortment();
    geometries.push(Geometry::GeometryCollection(GeometryCollection(vec![Geometry::LineString(
        LineString(vec![at(0, 0)]),
    )])));
    let mut canvas = Canvas::new(800, 600);
    assert!(matches!(
        draw_sequence(&mut canvas, &geometries, &context()),
        Err(SnaprError::PathConstruction)
    ));
    let mut canvas = Canvas::new(800, 600);
    assert!(matches!(
        GeometryCollection(geometries).draw(&mut canvas, &context()),
        Err(SnaprError::PathConstruction)
    ));
}

#[test]
fn drawing_adds_after_what_is_on_the_canvas() {
    let mut canvas = Canvas::new(800, 600);
    canvas.render_svg(SpatialSvg { pixel: pixel(0, 0), markup: "first".to_string() });
    Point(at(1, 1)).draw(&mut canvas, &context()).unwrap();
    assert_eq!(canvas.commands().len(), 3);
    assert_eq!(
        canvas.commands()[0],
        DrawCommand::RenderSvg { svg: SpatialSvg { pixel: pixel(0, 0), markup: "first".to_string() } }
    );
}

#[test]
fn a_failing_list_leaves_what_was_drawn_before_it_failed() {
    let both = MultiLineString(vec![
        LineString(vec![at(0, 0), at(1, 0)]),
        LineString(vec![at(0, 1)]),
        LineString(vec![at(0, 2), at(1, 2)]),
    ]);
    let mut canvas = Canvas::new(800, 600);
    assert!(matches!(both.draw(&mut canvas, &context()), Err(SnaprError::PathConstruction)));
    assert_eq!(canvas.commands(), &drawn(&LineString(vec![at(0, 0), at(1, 0)])));

    let many = MultiPolygon(vec![
        Polygon { exterior: triangle_ring(), interiors: Vec::new() },
        Polygon { exterior: LineString(Vec::new()), interiors: Vec::new() },
        Polygon { exterior: triangle_ring(), interiors: Vec::new() },
    ]);
    let mut canvas = Canvas::new(800, 600);
    assert!(matches!(many.draw(&mut canvas, &context()), Err(SnaprError::PathConstruction)));
    assert_eq!(
        canvas.commands(),
        &drawn(&Polygon { exterior: triangle_ring(), interiors: Vec::new() })
    );
}

#[test]
fn a_failing_collection_leaves_its_members_up_to_the_failure() {
    let members = || {
        vec![
            Geometry::Point(Point(at(1, 0))),
            Geometry::GeometryCollection(GeometryCollection(vec![
                Geometry::Point(Point(at(2, 0))),
                Geometry::LineString(LineString(vec![at(0, 0)])),
                Geometry::Point(Point(at(3, 0))),
            ])),
            Geometry::Point(Point(at(4, 0))),
        ]
    };
    let mut expected = marker(pixel(1, 0));
    expected.extend(marker(pixel(2, 0)));

    let mut one_by_one = Canvas::new(800, 600);
    assert!(matches!(
        draw_sequence(&mut one_by_one, &members(), &context()),
        Err(SnaprError::PathConstruction)
    ));
    assert_eq!(one_by_one.commands(), &expected);

    let mut together = Canvas::new(800, 600);
    assert!(matches!(
        GeometryCollection(members()).draw(&mut together, &context()),
        Err(SnaprError::PathConstruction)
    ));
    assert_eq!(together, one_by_one);

    let mut wrapped = Canvas::new(800, 600);
    assert!(matches!(
        draw_geometry(&mut wrapped, &Geometry::GeometryCollection(GeometryCollection(members())), &context()),
        Err(SnaprError::PathConstruction)
    ));
    assert_eq!(wrapped, one_by_one);
}

#[test]
fn strokes_and_fill_do_not_hang_on_the_style_of_the_vertices() {
    let polygon = Polygon { exterior: triangle_ring(), interiors: Vec::new() };
    let numbered = || PointStyle {
        options: PointOptions::default(),
        effect: Some(Effect::new(Box::new(Numbered))),
    };
    let plain = drawn(&polygon);
    let styled = drawn(&polygon.as_styled(PolygonStyle { point_style: numbered(), ..PolygonStyle::default() }));
    assert_eq!(styled[..3], plain[..3]);
    // Three operations for each of the four vertices: the marker and its
    // label, which says the place of the vertex in the ring.
    assert_eq!(styled.len(), 3 + 3 * 4);
    for place in 0..4 {
        match &styled[3 + 3 * place + 2] {
            DrawCommand::RenderSvg { svg } => {
                assert!(svg.markup.contains(&format!(">{}</text>", place)));
            }
            other => panic!("{:?}", other),
        }
    }
    let line_string = LineString(vec![at(0, 0), at(1, 0)]);
    let plain = drawn(&line_string);
    let styled = drawn(
        &line_string.as_styled(LineStringStyle { point_style: numbered(), ..LineStringStyle::default() }),
    );
    assert_eq!(styled[..2], plain[..2]);
    assert_eq!(styled.len(), 2 + 3 * 2);
}
