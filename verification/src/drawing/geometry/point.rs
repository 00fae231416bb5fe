//! Points: their markers, their labels and the routine that draws them.

use vstd::prelude::*;
use crate::drawing::added;
use crate::drawing::canvas::Canvas;
use crate::drawing::canvas::CommandView;
use crate::drawing::canvas::Paint;
use crate::drawing::canvas::Path;
use crate::drawing::canvas::PathView;
use crate::drawing::Context;
use crate::drawing::Drawable;
use crate::drawing::drawn_onto;
use crate::drawing::Effect;
use crate::drawing::joined;
use crate::drawing::lemma_added;
use crate::drawing::lemma_added_in_turn;
use crate::drawing::lemma_joined_push;
use crate::drawing::style::ColorOptions;
use crate::drawing::style::Length;
use crate::drawing::Styleable;
use crate::drawing::Styled;
use crate::drawing::svg::LabelOptions;
use crate::drawing::svg::moved_back;
use crate::drawing::svg::SvgOptions;
use crate::error::SnaprError;
use crate::geometry::MultiPoint;
use crate::geometry::Point;
use crate::projection::PixelCoord;

verus! {

/// A shape that marks a point.
#[derive(Clone, Copy, Debug, PartialEq, Eq, Structural)]
pub enum Shape {
    Circle { radius: Length },
}

impl Shape {
    /// The marker that points have unless told otherwise: a circle of four
    /// pixels' radius.
    pub open spec fn standard() -> Shape {
        Shape::Circle { radius: Length { hundredths: 400 } }
    }

    /// The outline of the shape round `center`.
    pub open spec fn path(self, center: PixelCoord) -> PathView {
        match self {
            Shape::Circle { radius } => PathView::Circle { center, radius },
        }
    }

    /// The outline of the shape round the pixel (`x`, `y`).
    pub fn to_path(&self, x: i32, y: i32) -> (path: Result<Path, SnaprError>)
        ensures
            path matches Ok(outline) && outline@ == self.path(PixelCoord { x, y }),
    {
        match self {
            Shape::Circle { radius } => Ok(
                Path::Circle { center: PixelCoord { x, y }, radius: *radius },
            ),
        }
    }
}

impl Default for Shape {
    fn default() -> (shape: Shape)
        ensures
            shape == Shape::standard(),
    {
        Shape::Circle { radius: Length::pixels(4) }
    }
}

/// How a point is shown.
#[derive(Debug, PartialEq, Eq)]
pub enum Representation {
    /// As a filled shape with a border.
    Shape(Shape),
    /// As a fragment of SVG markup.
    Svg(SvgOptions),
}

impl Default for Representation {
    fn default() -> (representation: Representation)
        ensures
            representation == Representation::Shape(Shape::standard()),
    {
        Representation::Shape(Shape::default())
    }
}

/// The options of the style of a point.
#[derive(Debug, PartialEq, Eq)]
pub struct PointOptions {
    pub color_options: ColorOptions,
    pub representation: Representation,
    pub label: Option<LabelOptions>,
}

impl PointOptions {
    /// The options that points have unless told otherwise.
    pub open spec fn standard() -> PointOptions {
        PointOptions {
            color_options: ColorOptions::standard(),
            representation: Representation::Shape(Shape::standard()),
            label: None,
        }
    }

    /// `self` overridden by `later`: the colour options are merged, the
    /// representation is that of `later`, and the label is that of `later`
    /// where it has one, else that of `self`.
    pub open spec fn merged(self, later: PointOptions) -> PointOptions {
        PointOptions {
            color_options: self.color_options.merged(later.color_options),
            representation: later.representation,
            label: if later.label is Some {
                later.label
            } else {
                self.label
            },
        }
    }

    /// Merges two sets of options, the later one winning.
    pub fn merge(self, later: PointOptions) -> (merged: PointOptions)
        ensures
            merged == self.merged(later),
    {
        PointOptions {
            color_options: self.color_options.merge(later.color_options),
            representation: later.representation,
            label: match later.label {
                Some(label) => Some(label),
                None => self.label,
            },
        }
    }
}

/// A second marker of the same offset and markup.
fn copy_of_marker(marker: &SvgOptions) -> (copy: SvgOptions)
    ensures
        copy == *marker,
{
    SvgOptions { offset: marker.offset, svg: marker.svg.clone() }
}

/// A second label of the same text and look.
fn copy_of_label(label: &LabelOptions) -> (copy: LabelOptions)
    ensures
        copy == *label,
{
    LabelOptions {
        color_options: label.color_options,
        font_family: label.font_family.clone(),
        font_size: label.font_size,
        offset: label.offset,
        text: label.text.clone(),
    }
}

impl PointOptions {
    /// A second set of the same options.
    pub fn copy(&self) -> (copy: PointOptions)
        ensures
            copy == *self,
    {
        PointOptions {
            color_options: self.color_options,
            representation: match &self.representation {
                Representation::Shape(shape) => Representation::Shape(*shape),
                Representation::Svg(marker) => Representation::Svg(copy_of_marker(marker)),
            },
            label: match &self.label {
                Some(label) => Some(copy_of_label(label)),
                None => None,
            },
        }
    }
}

impl Default for PointOptions {
    fn default() -> (options: PointOptions)
        ensures
            options == PointOptions::standard(),
    {
        PointOptions {
            color_options: ColorOptions::default(),
            representation: Representation::default(),
            label: None,
        }
    }
}

/// Merging point options is associative.
pub proof fn lemma_point_merge_is_associative(
    first: PointOptions,
    second: PointOptions,
    third: PointOptions,
)
    ensures
        first.merged(second).merged(third) == first.merged(second.merged(third)),
{
}

/// The style of a point: its options and, where one is set, the effect that
/// computes the options anew for each point drawn.
pub struct PointStyle<'a> {
    pub options: PointOptions,
    pub effect: Option<Effect<'a, Point, PointOptions>>,
}

impl<'a> Default for PointStyle<'a> {
    fn default() -> (style: PointStyle<'a>)
        ensures
            style.options == PointOptions::standard(),
            style.effect is None,
    {
        PointStyle { options: PointOptions::default(), effect: None }
    }
}

/// The paint of fills: the foreground.
pub open spec fn fill_paint(options: ColorOptions) -> Paint {
    Paint { color: options.foreground, anti_alias: options.anti_alias }
}

/// The paint of borders: the background.
pub open spec fn border_paint(options: ColorOptions) -> Paint {
    Paint { color: options.border_color(), anti_alias: options.anti_alias }
}

/// The paint of fills: the foreground.
pub fn paint_of_fill(options: &ColorOptions) -> (paint: Paint)
    ensures
        paint == fill_paint(*options),
{
    Paint { color: options.foreground, anti_alias: options.anti_alias }
}

/// The paint of borders: the background.
pub fn paint_of_border(options: &ColorOptions) -> (paint: Paint)
    ensures
        paint == border_paint(*options),
{
    Paint { color: options.background_or_default(), anti_alias: options.anti_alias }
}

/// What drawing a shape marker asks for: the shape filled with the
/// foreground, then, where there is a border, the shape stroked with the
/// background as wide as the border, then, where there is a label, the
/// label.
pub open spec fn marker_commands(shape: Shape, options: PointOptions, pixel: PixelCoord) -> Seq<
    CommandView,
> {
    let fill = seq![
        CommandView::FillPath { path: shape.path(pixel), paint: fill_paint(options.color_options) },
    ];
    let border = match options.color_options.border {
        Some(width) => seq![
            CommandView::StrokePath {
                path: shape.path(pixel),
                paint: border_paint(options.color_options),
                width,
            },
        ],
        None => Seq::empty(),
    };
    let label = match options.label {
        Some(label) => seq![
            CommandView::RenderSvg { pixel: moved_back(pixel, label.offset), markup: label.markup() },
        ],
        None => Seq::empty(),
    };
    fill + border + label
}

/// What drawing a point asks for.  A point that is shown as markup asks for
/// that markup alone, centred on its pixel moved back by the offset; a point
/// that is shown as a shape asks for what [`marker_commands`] lists.
pub open spec fn point_commands(point: Point, options: PointOptions, context: Context) -> Seq<
    CommandView,
> {
    let pixel = context.pixel(point.0);
    match options.representation {
        Representation::Svg(svg) => seq![
            CommandView::RenderSvg { pixel: moved_back(pixel, svg.offset), markup: svg.svg@ },
        ],
        Representation::Shape(shape) => marker_commands(shape, options, pixel),
    }
}

/// What drawing several points with the same options asks for: what each
/// asks for, in their order.
pub open spec fn points_commands(points: Seq<Point>, options: PointOptions, context: Context) -> Seq<
    CommandView,
>
    decreases points.len(),
{
    if points.len() == 0 {
        Seq::empty()
    } else {
        points_commands(points.drop_last(), options, context) + point_commands(
            points.last(),
            options,
            context,
        )
    }
}

/// Draws a point with the given options.
pub fn draw_point(canvas: &mut Canvas, point: &Point, options: &PointOptions, context: &Context) -> (drawn:
    Result<(), SnaprError>)
    requires
        context.wf(),
    ensures
        drawn is Ok,
        final(canvas)@ == old(canvas)@ + point_commands(*point, *options, *context),
        drawn_onto(*final(canvas), *old(canvas)),
{
    let pixel = context.epsg_4326_to_pixel(&point.0);
    match &options.representation {
        Representation::Svg(svg) => {
            canvas.render_svg(svg.try_as_svg(pixel));
            assert(canvas@ =~= old(canvas)@ + point_commands(*point, *options, *context));
        },
        Representation::Shape(shape) => {
            let fill = match shape.to_path(pixel.x, pixel.y) {
                Ok(path) => path,
                Err(error) => {
                    return Err(error);
                },
            };
            canvas.fill_path(fill, paint_of_fill(&options.color_options));
            if let Some(border) = options.color_options.border {
                let outline = match shape.to_path(pixel.x, pixel.y) {
                    Ok(path) => path,
                    Err(error) => {
                        return Err(error);
                    },
                };
                canvas.stroke_path(outline, paint_of_border(&options.color_options), border);
            }
            if let Some(label) = &options.label {
                canvas.render_svg(label.try_as_svg(pixel));
            }
            assert(canvas@ =~= old(canvas)@ + point_commands(*point, *options, *context));
        },
    }
    Ok(())
}

/// Whether `options` are options that `point` is drawn with in `style`:
/// the options of the style, or, where the style has an effect, options
/// that the effect may give for them, for the point and for the context.
pub open spec fn point_options_for(
    style: PointStyle<'_>,
    point: Point,
    context: Context,
    options: PointOptions,
) -> bool {
    match style.effect {
        Some(effect) => effect.may_give(&style.options, &point, &context, options),
        None => options == style.options,
    }
}

/// Whether `commands` is what drawing `point` in `style` asks for: what the
/// point asks for with options that it is drawn with in that style.
pub open spec fn point_asks(
    point: Point,
    style: PointStyle<'_>,
    context: Context,
    commands: Seq<CommandView>,
) -> bool {
    exists|options: PointOptions| #[trigger]
        point_options_for(style, point, context, options) && commands == point_commands(
            point,
            options,
            context,
        )
}

/// Whether `parts` holds, for each of `points` in their order, what drawing
/// that point in `style` asks for.
pub open spec fn points_parts(
    points: Seq<Point>,
    style: PointStyle<'_>,
    context: Context,
    parts: Seq<Seq<CommandView>>,
) -> bool {
    &&& parts.len() == points.len()
    &&& forall|position: int|
        0 <= position < points.len() ==> point_asks(
            points[position],
            style,
            context,
            #[trigger] parts[position],
        )
}

/// Whether `commands` is what drawing `points` in `style` asks for: what
/// each point asks for, in their order, each with options of its own where
/// the style has an effect.
pub open spec fn points_ask(
    points: Seq<Point>,
    style: PointStyle<'_>,
    context: Context,
    commands: Seq<CommandView>,
) -> bool {
    exists|parts: Seq<Seq<CommandView>>| #[trigger]
        points_parts(points, style, context, parts) && commands == joined(parts)
}

/// Draws a point with the given options under the given effect.  Where
/// there is an effect, the options that it computes for this point are the
/// ones drawn.
pub fn draw_point_in(
    canvas: &mut Canvas,
    point: &Point,
    options: &PointOptions,
    effect: &Option<Effect<'_, Point, PointOptions>>,
    context: &Context,
) -> (drawn: Result<(), SnaprError>)
    requires
        context.wf(),
    ensures
        drawn is Ok,
        point_asks(
            *point,
            PointStyle { options: *options, effect: *effect },
            *context,
            added(*final(canvas), *old(canvas)),
        ),
        effect is None ==> final(canvas)@ == old(canvas)@ + point_commands(*point, *options, *context),
        drawn_onto(*final(canvas), *old(canvas)),
{
    let ghost style = PointStyle { options: *options, effect: *effect };
    match effect {
        Some(function) => {
            let restyled = function.apply(options, point, context);
            let drawn = draw_point(canvas, point, &restyled, context);
            proof {
                lemma_added(*canvas, *old(canvas), point_commands(*point, restyled, *context));
                assert(point_options_for(style, *point, *context, restyled));
            }
            drawn
        },
        None => {
            let drawn = draw_point(canvas, point, options, context);
            proof {
                lemma_added(*canvas, *old(canvas), point_commands(*point, *options, *context));
                assert(point_options_for(style, *point, *context, *options));
            }
            drawn
        },
    }
}

/// Draws a point in the given style.  Where the style has an effect, the
/// options that the effect computes for this point are the ones drawn.
pub fn draw_styled_point(canvas: &mut Canvas, point: &Point, style: &PointStyle<'_>, context: &Context) -> (drawn:
    Result<(), SnaprError>)
    requires
        context.wf(),
    ensures
        drawn is Ok,
        point_asks(*point, *style, *context, added(*final(canvas), *old(canvas))),
        style.effect is None ==> final(canvas)@ == old(canvas)@ + point_commands(
            *point,
            style.options,
            *context,
        ),
        drawn_onto(*final(canvas), *old(canvas)),
{
    assert(*style == (PointStyle { options: style.options, effect: style.effect }));
    draw_point_in(canvas, point, &style.options, &style.effect, context)
}

/// Draws several points in the same style, in their order.
pub fn draw_points(canvas: &mut Canvas, points: &Vec<Point>, style: &PointStyle<'_>, context: &Context) -> (drawn:
    Result<(), SnaprError>)
    requires
        context.wf(),
    ensures
        drawn is Ok,
        points_ask(points@, *style, *context, added(*final(canvas), *old(canvas))),
        style.effect is None ==> final(canvas)@ == old(canvas)@ + points_commands(
            points@,
            style.options,
            *context,
        ),
        drawn_onto(*final(canvas), *old(canvas)),
{
    let mut done: usize = 0;
    let ghost mut parts: Seq<Seq<CommandView>> = Seq::empty();
    proof {
        lemma_added(*canvas, *old(canvas), Seq::empty());
    }
    while done < points.len()
        invariant
            context.wf(),
            done <= points.len(),
            points_parts(points@.take(done as int), *style, *context, parts),
            added(*canvas, *old(canvas)) == joined(parts),
            style.effect is None ==> canvas@ == old(canvas)@ + points_commands(
                points@.take(done as int),
                style.options,
                *context,
            ),
            drawn_onto(*canvas, *old(canvas)),
        decreases points.len() - done,
    {
        let ghost before = *canvas;
        let _ = draw_styled_point(canvas, &points[done], style, context);
        proof {
            let next = points@.take(done + 1);
            assert(next.drop_last() =~= points@.take(done as int));
            assert(next.last() == points@[done as int]);
            if style.effect is None {
                assert(canvas@ =~= old(canvas)@ + points_commands(next, style.options, *context));
            }
            lemma_added_in_turn(*canvas, before, *old(canvas));
            lemma_joined_push(parts, added(*canvas, before));
            parts = parts.push(added(*canvas, before));
            assert(points_parts(next, *style, *context, parts));
        }
        done = done + 1;
    }
    proof {
        assert(points@.take(done as int) =~= points@);
    }
    Ok(())
}

impl<'b> Styleable<PointStyle<'b>> for Point {

}

impl<'a, 'b> Drawable for Styled<'a, Point, PointStyle<'b>> {
    fn draw(&self, canvas: &mut Canvas, context: &Context) -> (drawn: Result<(), SnaprError>)
        ensures
            drawn is Ok,
            point_asks(*self.inner, self.style, *context, added(*final(canvas), *old(canvas))),
            self.style.effect is None ==> final(canvas)@ == old(canvas)@ + point_commands(
                *self.inner,
                self.style.options,
                *context,
            ),
    {
        draw_styled_point(canvas, self.inner, &self.style, context)
    }
}

impl Drawable for Point {
    fn draw(&self, canvas: &mut Canvas, context: &Context) -> (drawn: Result<(), SnaprError>)
        ensures
            drawn is Ok,
            final(canvas)@ == old(canvas)@ + point_commands(*self, PointOptions::standard(), *context),
    {
        let style = PointStyle::default();
        draw_styled_point(canvas, self, &style, context)
    }
}

impl<'b> Styleable<PointStyle<'b>> for MultiPoint {

}

impl<'a, 'b> Drawable for Styled<'a, MultiPoint, PointStyle<'b>> {
    fn draw(&self, canvas: &mut Canvas, context: &Context) -> (drawn: Result<(), SnaprError>)
        ensures
            drawn is Ok,
            points_ask(self.inner.0@, self.style, *context, added(*final(canvas), *old(canvas))),
            self.style.effect is None ==> final(canvas)@ == old(canvas)@ + points_commands(
                self.inner.0@,
                self.style.options,
                *context,
            ),
    {
        draw_points(canvas, &self.inner.0, &self.style, context)
    }
}

impl Drawable for MultiPoint {
    fn draw(&self, canvas: &mut Canvas, context: &Context) -> (drawn: Result<(), SnaprError>)
        ensures
            drawn is Ok,
            final(canvas)@ == old(canvas)@ + points_commands(
                self.0@,
                PointOptions::standard(),
                *context,
            ),
    {
        let style = PointStyle::default();
        draw_points(canvas, &self.0, &style, context)
    }
}

} // verus!
