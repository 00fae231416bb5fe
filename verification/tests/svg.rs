use snapr::drawing::canvas::Canvas;
use snapr::drawing::canvas::DrawCommand;
use snapr::drawing::style::Color;
use snapr::drawing::style::ColorOptions;
use snapr::drawing::style::Length;
use snapr::drawing::svg::move_back;
use snapr::drawing::svg::LabelOptions;
use snapr::drawing::svg::SpatialSvg;
use snapr::drawing::svg::SvgOptions;
use snapr::drawing::Context;
use snapr::drawing::Drawable;
use snapr::projection::Coord;
use snapr::projection::PixelCoord;

#[test]
fn the_standard_label() {
    let label = LabelOptions::default();
    assert_eq!(label.color_options, ColorOptions::default());
    assert_eq!(label.font_family, "Arial");
    assert_eq!(label.font_size, Length::pixels(16));
    assert_eq!(label.offset, (0, 12));
    assert_eq!(label.text, "");
}

#[test]
fn the_standard_marker_is_empty() {
    let marker = SvgOptions::default();
    assert_eq!(marker.offset, (0, 0));
    assert_eq!(marker.svg, "");
}

#[test]
fn a_label_becomes_a_text_element() {
    let label = LabelOptions { text: "A".to_string(), ..LabelOptions::default() };
    let svg = label.try_as_svg(PixelCoord { x: 400, y: 300 });
    assert_eq!(svg.pixel, PixelCoord { x: 400, y: 288 });
    assert_eq!(
        svg.markup,
        "\n            <svg xmlns=\"http://www.w3.org/2000/svg\">\n                <text style=\"fill: #f8f8f8ff; font-family: 'Arial'; font-size: 16px; paint-order: stroke; stroke: #1a1a1aff; stroke-width: 1px;\">A</text>\n            </svg>\n            "
    );
}

#[test]
fn a_label_without_a_border_has_no_outline() {
    let label = LabelOptions {
        color_options: ColorOptions {
            foreground: Color::from_rgba8(1, 2, 3, 4),
            background: None,
            anti_alias: false,
            border: None,
        },
        font_family: "Noto Sans".to_string(),
        font_size: Length { hundredths: 1250 },
        offset: (-3, 4),
        text: "Gare du Nord".to_string(),
    };
    let svg = label.try_as_svg(PixelCoord { x: 10, y: 20 });
    assert_eq!(svg.pixel, PixelCoord { x: 13, y: 16 });
    assert_eq!(
        svg.markup,
        "\n            <svg xmlns=\"http://www.w3.org/2000/svg\">\n                <text style=\"fill: #01020304; font-family: 'Noto Sans'; font-size: 12.5px; paint-order: stroke; stroke: #1a1a1aff; stroke-width: 0px;\">Gare du Nord</text>\n            </svg>\n            "
    );
}

#[test]
fn a_marker_keeps_its_markup() {
    let marker = SvgOptions { offset: (8, -8), svg: "<svg><circle r=\"3\"/></svg>".to_string() };
    let svg = marker.try_as_svg(PixelCoord { x: 100, y: 50 });
    assert_eq!(svg.pixel, PixelCoord { x: 92, y: 58 });
    assert_eq!(svg.markup, "<svg><circle r=\"3\"/></svg>");
}

#[test]
fn moving_back_stays_within_range() {
    assert_eq!(move_back(PixelCoord { x: 5, y: 5 }, (2, 7)), PixelCoord { x: 3, y: -2 });
    assert_eq!(
        move_back(PixelCoord { x: i32::MIN, y: i32::MAX }, (1, -1)),
        PixelCoord { x: i32::MIN, y: i32::MAX }
    );
    assert_eq!(
        move_back(PixelCoord { x: 0, y: -1 }, (i32::MIN, i32::MAX)),
        PixelCoord { x: i32::MAX, y: i32::MIN }
    );
}

#[test]
fn a_fragment_draws_itself() {
    let context =
        Context { tile_size: 256, width: 10, height: 10, center: Coord { x: 0, y: 0 }, zoom: 0, index: 0 };
    let fragment = SpatialSvg { pixel: PixelCoord { x: 3, y: 4 }, markup: "<svg/>".to_string() };
    let mut canvas = Canvas::new(10, 10);
    fragment.draw(&mut canvas, &context).unwrap();
    fragment.draw(&mut canvas, &context).unwrap();
    assert_eq!(
        canvas.commands(),
        &vec![
            DrawCommand::RenderSvg {
                svg: SpatialSvg { pixel: PixelCoord { x: 3, y: 4 }, markup: "<svg/>".to_string() }
            },
            DrawCommand::RenderSvg {
                svg: SpatialSvg { pixel: PixelCoord { x: 3, y: 4 }, markup: "<svg/>".to_string() }
            },
        ]
    );
}
