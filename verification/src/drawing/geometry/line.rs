//! Lines and line strings: their styles and the routines that draw them.

use vstd::prelude::*;
use crate::drawing::added;
use crate::drawing::attempted;
use crate::drawing::canvas::Canvas;
use crate::drawing::canvas::CommandView;
use crate::drawing::canvas::Paint;
use crate::drawing::canvas::Path;
use crate::drawing::canvas::PathView;
use crate::drawing::Context;
use crate::drawing::Drawable;
use crate::drawing::drawn_onto;
use crate::drawing::Effect;
use crate::drawing::fully_drawn;
use crate::drawing::geometry::point::border_paint;
use crate::drawing::geometry::point::draw_point_in;
use crate::drawing::geometry::point::fill_paint;
use crate::drawing::geometry::point::paint_of_border;
use crate::drawing::geometry::point::paint_of_fill;
use crate::drawing::geometry::point::point_asks;
use crate::drawing::geometry::point::point_commands;
use crate::drawing::geometry::point::PointOptions;
use crate::drawing::geometry::point::PointStyle;
use crate::drawing::joined;
use crate::drawing::lemma_added;
use crate::drawing::lemma_added_in_turn;
use crate::drawing::lemma_attempted_all;
use crate::drawing::lemma_attempted_stops;
use crate::drawing::lemma_joined_push;
use crate::drawing::style::Color;
use crate::drawing::style::ColorOptions;
use crate::drawing::style::Length;
use crate::drawing::Styleable;
use crate::drawing::Styled;
use crate::error::SnaprError;
use crate::geometry::Line;
use crate::geometry::LineString;
use crate::geometry::MultiLineString;
use crate::geometry::Point;
use crate::projection::Coord;
use crate::projection::PixelCoord;

verus! {

/// The options of the style of a line or a line string.
#[derive(Clone, Copy, Debug, PartialEq, Eq, Structural)]
pub struct LineOptions {
    pub color_options: ColorOptions,
    /// The width of the inner stroke.
    pub width: Length,
}

impl LineOptions {
    /// The options that lines have unless told otherwise: a grey stroke
    /// three pixels wide on a border four pixels wide.
    pub open spec fn standard() -> LineOptions {
        LineOptions {
            color_options: ColorOptions {
                foreground: Color { red: 196, green: 196, blue: 196, alpha: 255 },
                border: Some(Length { hundredths: 400 }),
                ..ColorOptions::standard()
            },
            width: Length { hundredths: 300 },
        }
    }

    /// `self` overridden by `later`: the colour options are merged and the
    /// width is that of `later`.
    pub open spec fn merged(self, later: LineOptions) -> LineOptions {
        LineOptions {
            color_options: self.color_options.merged(later.color_options),
            width: later.width,
        }
    }

    /// Merges two sets of options, the later one winning.
    pub fn merge(self, later: LineOptions) -> (merged: LineOptions)
        ensures
            merged == self.merged(later),
    {
        LineOptions {
            color_options: self.color_options.merge(later.color_options),
            width: later.width,
        }
    }
}

impl Default for LineOptions {
    fn default() -> (options: LineOptions)
        ensures
            options == LineOptions::standard(),
    {
        let standard = ColorOptions::default();
        LineOptions {
            color_options: ColorOptions {
                foreground: Color::from_rgba8(196, 196, 196, 255),
                background: standard.background,
                anti_alias: standard.anti_alias,
                border: Some(Length::pixels(4)),
            },
            width: Length::pixels(3),
        }
    }
}

/// Merging line options is associative.
pub proof fn lemma_line_merge_is_associative(first: LineOptions, second: LineOptions, third: LineOptions)
    ensures
        first.merged(second).merged(third) == first.merged(second.merged(third)),
{
}

/// The style of a line: its options, the style of its two end points and,
/// where one is set, the effect that computes the look anew for each line
/// drawn.  The end points are drawn with the point options of that look,
/// under the effect of the point style.
pub struct LineStyle<'a> {
    pub options: LineOptions,
    pub point_style: PointStyle<'a>,
    pub effect: Option<Effect<'a, Line, LineLook>>,
}

/// The style of a line string: its options, the style of its vertices and,
/// where one is set, the effect that computes the look anew for each line
/// string drawn.  The vertices are drawn with the point options of that
/// look, under the effect of the point style.
pub struct LineStringStyle<'a> {
    pub options: LineOptions,
    pub point_style: PointStyle<'a>,
    pub effect: Option<Effect<'a, LineString, LineLook>>,
}

/// The whole look of a line or a line string: its own options and those of
/// its points.  This is what an effect on a line or a line string is given
/// and what it gives back.
#[derive(Debug, PartialEq, Eq)]
pub struct LineLook {
    pub options: LineOptions,
    pub point_options: PointOptions,
}

impl<'a> LineStyle<'a> {
    /// The look that the style sets, before any effect.
    pub open spec fn look(self) -> LineLook {
        LineLook { options: self.options, point_options: self.point_style.options }
    }

    /// Neither the line nor its end points have an effect.
    pub open spec fn is_plain(self) -> bool {
        self.effect is None && self.point_style.effect is None
    }
}

impl<'a> LineStringStyle<'a> {
    /// The look that the style sets, before any effect.
    pub open spec fn look(self) -> LineLook {
        LineLook { options: self.options, point_options: self.point_style.options }
    }

    /// Neither the line string nor its vertices have an effect.
    pub open spec fn is_plain(self) -> bool {
        self.effect is None && self.point_style.effect is None
    }
}

impl<'a> Default for LineStyle<'a> {
    fn default() -> (style: LineStyle<'a>)
        ensures
            style.options == LineOptions::standard(),
            style.point_style.options == PointOptions::standard(),
            style.is_plain(),
    {
        LineStyle { options: LineOptions::default(), point_style: PointStyle::default(), effect: None }
    }
}

impl<'a> Default for LineStringStyle<'a> {
    fn default() -> (style: LineStringStyle<'a>)
        ensures
            style.options == LineOptions::standard(),
            style.point_style.options == PointOptions::standard(),
            style.is_plain(),
    {
        LineStringStyle {
            options: LineOptions::default(),
            point_style: PointStyle::default(),
            effect: None,
        }
    }
}

/// The pixels that show `coords`, in their order.
pub open spec fn projected(coords: Seq<Coord>, context: Context) -> Seq<PixelCoord> {
    Seq::new(coords.len(), |position: int| context.pixel(coords[position]))
}

/// What stroking an outline asks for: where there is a border, a stroke in
/// the background as wide as the border, and on top of it a stroke in the
/// foreground as wide as the line.
pub open spec fn stroke_commands(path: PathView, options: LineOptions) -> Seq<CommandView> {
    let border = match options.color_options.border {
        Some(width) => seq![
            CommandView::StrokePath { path, paint: border_paint(options.color_options), width },
        ],
        None => Seq::empty(),
    };
    border + seq![
        CommandView::StrokePath {
            path,
            paint: fill_paint(options.color_options),
            width: options.width,
        },
    ]
}

/// What drawing the vertices of a path asks for: what each asks for as a
/// point, in their order, each told its place in the path as its index.
pub open spec fn vertices_commands(coords: Seq<Coord>, options: PointOptions, context: Context) -> Seq<
    CommandView,
>
    decreases coords.len(),
{
    if coords.len() == 0 {
        Seq::empty()
    } else {
        vertices_commands(coords.drop_last(), options, context) + point_commands(
            Point(coords.last()),
            options,
            context.at((coords.len() - 1) as usize),
        )
    }
}

/// What drawing a line asks for: the strokes of the segment between its two
/// pixels, then its start as the point of index 0 and its end as the point
/// of index 1.
pub open spec fn line_commands(
    line: Line,
    options: LineOptions,
    point_options: PointOptions,
    context: Context,
) -> Seq<CommandView> {
    stroke_commands(
        PathView::Polyline {
            points: seq![context.pixel(line.start), context.pixel(line.end)],
            closed: false,
        },
        options,
    ) + point_commands(Point(line.start), point_options, context.at(0)) + point_commands(
        Point(line.end),
        point_options,
        context.at(1),
    )
}

/// What drawing a line string asks for: the strokes of the path through its
/// pixels, then its vertices.
pub open spec fn line_string_commands(
    coords: Seq<Coord>,
    options: LineOptions,
    point_options: PointOptions,
    context: Context,
) -> Seq<CommandView> {
    stroke_commands(PathView::Polyline { points: projected(coords, context), closed: false }, options)
        + vertices_commands(coords, point_options, context)
}

/// What drawing several line strings with the same options asks for: what
/// each asks for, in their order.
pub open spec fn line_strings_commands(
    line_strings: Seq<LineString>,
    options: LineOptions,
    point_options: PointOptions,
    context: Context,
) -> Seq<CommandView>
    decreases line_strings.len(),
{
    if line_strings.len() == 0 {
        Seq::empty()
    } else {
        line_strings_commands(line_strings.drop_last(), options, point_options, context)
            + line_string_commands(line_strings.last().0@, options, point_options, context)
    }
}

/// Whether each of the line strings has the two points that a path needs.
pub open spec fn all_drawable(line_strings: Seq<LineString>) -> bool {
    forall|position: int|
        0 <= position < line_strings.len() ==> (#[trigger] line_strings[position]).0@.len() >= 2
}

/// Projects positions to pixels, in their order.
pub fn project_all(coords: &Vec<Coord>, context: &Context) -> (pixels: Vec<PixelCoord>)
    requires
        context.wf(),
    ensures
        pixels@ == projected(coords@, *context),
{
    let mut pixels: Vec<PixelCoord> = Vec::new();
    let mut done: usize = 0;
    while done < coords.len()
        invariant
            context.wf(),
            done <= coords.len(),
            pixels.len() == done,
            forall|position: int|
                0 <= position < done ==> #[trigger] pixels[position] == context.pixel(coords[position]),
        decreases coords.len() - done,
    {
        pixels.push(context.epsg_4326_to_pixel(&coords[done]));
        done = done + 1;
    }
    assert(pixels@ =~= projected(coords@, *context));
    pixels
}

/// A second list of the same pixels.
fn copy_pixels(pixels: &Vec<PixelCoord>) -> (copy: Vec<PixelCoord>)
    ensures
        copy@ == pixels@,
{
    let mut copy: Vec<PixelCoord> = Vec::new();
    let mut done: usize = 0;
    while done < pixels.len()
        invariant
            done <= pixels.len(),
            copy.len() == done,
            forall|position: int| 0 <= position < done ==> #[trigger] copy[position] == pixels[position],
        decreases pixels.len() - done,
    {
        copy.push(pixels[done]);
        done = done + 1;
    }
    assert(copy@ =~= pixels@);
    copy
}

/// Strokes the outline through `pixels`: the border first, where there is
/// one, then the line itself.
pub fn stroke_outline(canvas: &mut Canvas, pixels: Vec<PixelCoord>, closed: bool, options: &LineOptions)
    ensures
        final(canvas)@ == old(canvas)@ + stroke_commands(
            PathView::Polyline { points: pixels@, closed },
            *options,
        ),
        drawn_onto(*final(canvas), *old(canvas)),
{
    if let Some(border) = options.color_options.border {
        canvas.stroke_path(
            Path::Polyline { points: copy_pixels(&pixels), closed },
            paint_of_border(&options.color_options),
            border,
        );
    }
    canvas.stroke_path(
        Path::Polyline { points: pixels, closed },
        paint_of_fill(&options.color_options),
        options.width,
    );
    assert(canvas@ =~= old(canvas)@ + stroke_commands(
        PathView::Polyline { points: pixels@, closed },
        *options,
    ));
}

/// Whether `parts` holds, for each vertex of a path in their order, what
/// drawing that vertex as a point in `style` asks for when it is told its
/// place in the path as its index.
pub open spec fn vertices_parts(
    coords: Seq<Coord>,
    style: PointStyle<'_>,
    context: Context,
    parts: Seq<Seq<CommandView>>,
) -> bool {
    &&& parts.len() == coords.len()
    &&& forall|position: int|
        0 <= position < coords.len() ==> point_asks(
            Point(coords[position]),
            style,
            context.at(position as usize),
            #[trigger] parts[position],
        )
}

/// Whether `commands` is what drawing the vertices of a path in `style`
/// asks for: what each vertex asks for as a point, in their order, each
/// told its place in the path as its index and each with options of its
/// own where the style has an effect.
pub open spec fn vertices_ask(
    coords: Seq<Coord>,
    style: PointStyle<'_>,
    context: Context,
    commands: Seq<CommandView>,
) -> bool {
    exists|parts: Seq<Seq<CommandView>>| #[trigger]
        vertices_parts(coords, style, context, parts) && commands == joined(parts)
}

/// The path of a line: the segment between its two pixels.
pub open spec fn line_path(line: Line, context: Context) -> PathView {
    PathView::Polyline { points: seq![context.pixel(line.start), context.pixel(line.end)], closed: false }
}

/// Whether `commands` is what drawing a line with `options` asks for,
/// whatever the style of its end points: the strokes of its segment, then
/// what its start asks for as the point of index 0 and what its end asks
/// for as the point of index 1, both in `point_style`.
pub open spec fn line_draws(
    line: Line,
    options: LineOptions,
    point_style: PointStyle<'_>,
    context: Context,
    commands: Seq<CommandView>,
) -> bool {
    exists|first: Seq<CommandView>, second: Seq<CommandView>|
        #![trigger point_asks(Point(line.start), point_style, context.at(0), first), point_asks(Point(line.end), point_style, context.at(1), second)]
        point_asks(Point(line.start), point_style, context.at(0), first) && point_asks(
            Point(line.end),
            point_style,
            context.at(1),
            second,
        ) && commands == stroke_commands(line_path(line, context), options) + first + second
}

/// Whether `look` is a look that `line` is drawn with in `style`: the look
/// that the style sets, or one that its effect may give for it.
pub open spec fn line_look_for(style: LineStyle<'_>, line: Line, context: Context, look: LineLook) -> bool {
    match style.effect {
        Some(effect) => effect.may_give(&style.look(), &line, &context, look),
        None => look == style.look(),
    }
}

/// Whether `commands` is what drawing `line` in `style` asks for: what it
/// asks for with the options of a look that it is drawn with in that style,
/// its end points drawn with the point options of that look under the
/// effect of the point style.
pub open spec fn line_asks(line: Line, style: LineStyle<'_>, context: Context, commands: Seq<CommandView>) -> bool {
    exists|look: LineLook| #[trigger]
        line_look_for(style, line, context, look) && line_draws(
            line,
            look.options,
            PointStyle { options: look.point_options, effect: style.point_style.effect },
            context,
            commands,
        )
}

/// Whether `commands` is what drawing a line string with `options` asks
/// for, whatever the style of its vertices: the strokes of the path through
/// its pixels, then what its vertices ask for in `point_style`.
pub open spec fn line_string_draws(
    coords: Seq<Coord>,
    options: LineOptions,
    point_style: PointStyle<'_>,
    context: Context,
    commands: Seq<CommandView>,
) -> bool {
    exists|vertices: Seq<CommandView>| #[trigger]
        vertices_ask(coords, point_style, context, vertices) && commands == stroke_commands(
            PathView::Polyline { points: projected(coords, context), closed: false },
            options,
        ) + vertices
}

/// Whether `look` is a look that `line_string` is drawn with in `style`:
/// the look that the style sets, or one that its effect may give for it.
pub open spec fn line_string_look_for(
    style: LineStringStyle<'_>,
    line_string: LineString,
    context: Context,
    look: LineLook,
) -> bool {
    match style.effect {
        Some(effect) => effect.may_give(&style.look(), &line_string, &context, look),
        None => look == style.look(),
    }
}

/// Whether `commands` is what drawing `line_string` in `style` adds to the
/// canvas: nothing where it makes no path, and else what it asks for with
/// the options of a look that it is drawn with in that style, its vertices
/// drawn with the point options of that look under the effect of the point
/// style.
pub open spec fn line_string_asks(
    line_string: LineString,
    style: LineStringStyle<'_>,
    context: Context,
    commands: Seq<CommandView>,
) -> bool {
    if line_string.0@.len() < 2 {
        commands == Seq::<CommandView>::empty()
    } else {
        exists|look: LineLook| #[trigger]
            line_string_look_for(style, line_string, context, look) && line_string_draws(
                line_string.0@,
                look.options,
                PointStyle { options: look.point_options, effect: style.point_style.effect },
                context,
                commands,
            )
    }
}

/// Which of the line strings make a path.
pub open spec fn line_strings_drawable(line_strings: Seq<LineString>) -> Seq<bool> {
    Seq::new(line_strings.len(), |position: int| line_strings[position].0@.len() >= 2)
}

/// Whether `parts` holds, for each of the line strings that are drawn or
/// tried, what drawing it in `style` adds to the canvas.
pub open spec fn line_strings_parts(
    line_strings: Seq<LineString>,
    style: LineStringStyle<'_>,
    context: Context,
    parts: Seq<Seq<CommandView>>,
) -> bool {
    &&& parts.len() == attempted(line_strings_drawable(line_strings))
    &&& forall|position: int|
        0 <= position < parts.len() ==> line_string_asks(
            line_strings[position],
            style,
            context,
            #[trigger] parts[position],
        )
}

/// Whether `commands` is what drawing `line_strings` in `style` adds to the
/// canvas: what each adds, in their order, up to the first that makes no
/// path.
pub open spec fn line_strings_ask(
    line_strings: Seq<LineString>,
    style: LineStringStyle<'_>,
    context: Context,
    commands: Seq<CommandView>,
) -> bool {
    exists|parts: Seq<Seq<CommandView>>| #[trigger]
        line_strings_parts(line_strings, style, context, parts) && commands == joined(parts)
}

/// Draws the vertices of a path as points, each told its place in the path
/// as its index.
pub fn draw_vertices(
    canvas: &mut Canvas,
    coords: &Vec<Coord>,
    options: &PointOptions,
    effect: &Option<Effect<'_, Point, PointOptions>>,
    context: &Context,
)
    requires
        context.wf(),
    ensures
        vertices_ask(
            coords@,
            PointStyle { options: *options, effect: *effect },
            *context,
            added(*final(canvas), *old(canvas)),
        ),
        effect is None ==> final(canvas)@ == old(canvas)@ + vertices_commands(coords@, *options, *context),
        drawn_onto(*final(canvas), *old(canvas)),
{
    let ghost style = PointStyle { options: *options, effect: *effect };
    let mut done: usize = 0;
    let ghost mut parts: Seq<Seq<CommandView>> = Seq::empty();
    proof {
        lemma_added(*canvas, *old(canvas), Seq::empty());
    }
    while done < coords.len()
        invariant
            context.wf(),
            done <= coords.len(),
            style == (PointStyle { options: *options, effect: *effect }),
            vertices_parts(coords@.take(done as int), style, *context, parts),
            added(*canvas, *old(canvas)) == joined(parts),
            style.effect is None ==> canvas@ == old(canvas)@ + vertices_commands(
                coords@.take(done as int),
                style.options,
                *context,
            ),
            drawn_onto(*canvas, *old(canvas)),
        decreases coords.len() - done,
    {
        let vertex = Point(coords[done]);
        let place = context.with_index(done);
        let ghost before = *canvas;
        let _ = draw_point_in(canvas, &vertex, options, effect, &place);
        proof {
            let next = coords@.take(done + 1);
            assert(next.drop_last() =~= coords@.take(done as int));
            assert(next.last() == coords@[done as int]);
            if style.effect is None {
                assert(canvas@ =~= old(canvas)@ + vertices_commands(next, style.options, *context));
            }
            lemma_added_in_turn(*canvas, before, *old(canvas));
            lemma_joined_push(parts, added(*canvas, before));
            parts = parts.push(added(*canvas, before));
            assert(vertices_parts(next, style, *context, parts));
        }
        done = done + 1;
    }
    proof {
        assert(coords@.take(done as int) =~= coords@);
    }
}

/// Draws a line with the given options; its end points are drawn in
/// `point_style`.
pub fn draw_line(
    canvas: &mut Canvas,
    line: &Line,
    options: &LineOptions,
    point_options: &PointOptions,
    point_effect: &Option<Effect<'_, Point, PointOptions>>,
    context: &Context,
) -> (drawn: Result<(), SnaprError>)
    requires
        context.wf(),
    ensures
        drawn is Ok,
        line_draws(
            *line,
            *options,
            PointStyle { options: *point_options, effect: *point_effect },
            *context,
            added(*final(canvas), *old(canvas)),
        ),
        point_effect is None ==> final(canvas)@ == old(canvas)@ + line_commands(
            *line,
            *options,
            *point_options,
            *context,
        ),
        drawn_onto(*final(canvas), *old(canvas)),
{
    let ghost point_style = PointStyle { options: *point_options, effect: *point_effect };
    let mut pixels: Vec<PixelCoord> = Vec::new();
    pixels.push(context.epsg_4326_to_pixel(&line.start));
    pixels.push(context.epsg_4326_to_pixel(&line.end));
    assert(pixels@ =~= seq![context.pixel(line.start), context.pixel(line.end)]);
    stroke_outline(canvas, pixels, false, options);
    let ghost stroked = *canvas;
    let _ = draw_point_in(canvas, &Point(line.start), point_options, point_effect, &context.with_index(0));
    let ghost started = *canvas;
    let _ = draw_point_in(canvas, &Point(line.end), point_options, point_effect, &context.with_index(1));
    proof {
        if point_effect is None {
            assert(canvas@ =~= old(canvas)@ + line_commands(*line, *options, *point_options, *context));
        }
        lemma_added(stroked, *old(canvas), stroke_commands(line_path(*line, *context), *options));
        lemma_added_in_turn(started, stroked, *old(canvas));
        lemma_added_in_turn(*canvas, started, *old(canvas));
        assert(point_asks(Point(line.start), point_style, context.at(0), added(started, stroked)));
        assert(point_asks(Point(line.end), point_style, context.at(1), added(*canvas, started)));
    }
    Ok(())
}

/// Draws a line string with the given options; its vertices are drawn in
/// `point_style`.  A line string of fewer than two points makes no path:
/// nothing is drawn of it and the snapshot fails.
pub fn draw_line_string(
    canvas: &mut Canvas,
    line_string: &LineString,
    options: &LineOptions,
    point_options: &PointOptions,
    point_effect: &Option<Effect<'_, Point, PointOptions>>,
    context: &Context,
) -> (drawn: Result<(), SnaprError>)
    requires
        context.wf(),
    ensures
        drawn is Err <==> line_string.0@.len() < 2,
        drawn matches Err(error) ==> error is PathConstruction && final(canvas)@ == old(canvas)@,
        drawn is Ok ==> line_string_draws(
            line_string.0@,
            *options,
            PointStyle { options: *point_options, effect: *point_effect },
            *context,
            added(*final(canvas), *old(canvas)),
        ),
        drawn is Ok && point_effect is None ==> final(canvas)@ == old(canvas)@ + line_string_commands(
            line_string.0@,
            *options,
            *point_options,
            *context,
        ),
        drawn_onto(*final(canvas), *old(canvas)),
{
    let ghost point_style = PointStyle { options: *point_options, effect: *point_effect };
    if line_string.0.len() < 2 {
        return Err(SnaprError::PathConstruction);
    }
    let pixels = project_all(&line_string.0, context);
    stroke_outline(canvas, pixels, false, options);
    let ghost stroked = *canvas;
    draw_vertices(canvas, &line_string.0, point_options, point_effect, context);
    proof {
        if point_effect is None {
            assert(canvas@ =~= old(canvas)@ + line_string_commands(
                line_string.0@,
                *options,
                *point_options,
                *context,
            ));
        }
        lemma_added(
            stroked,
            *old(canvas),
            stroke_commands(
                PathView::Polyline { points: projected(line_string.0@, *context), closed: false },
                *options,
            ),
        );
        lemma_added_in_turn(*canvas, stroked, *old(canvas));
        assert(vertices_ask(line_string.0@, point_style, *context, added(*canvas, stroked)));
    }
    Ok(())
}

/// Draws a line in the given style.  Where the style has an effect, the
/// look that the effect computes for this line is the one drawn: its line
/// options, and its point options for the end points.
pub fn draw_styled_line(canvas: &mut Canvas, line: &Line, style: &LineStyle<'_>, context: &Context) -> (drawn:
    Result<(), SnaprError>)
    requires
        context.wf(),
    ensures
        drawn is Ok,
        line_asks(*line, *style, *context, added(*final(canvas), *old(canvas))),
        style.is_plain() ==> final(canvas)@ == old(canvas)@ + line_commands(
            *line,
            style.options,
            style.point_style.options,
            *context,
        ),
        drawn_onto(*final(canvas), *old(canvas)),
{
    match &style.effect {
        Some(effect) => {
            let set = LineLook { options: style.options, point_options: style.point_style.options.copy() };
            let look = effect.apply(&set, line, context);
            let drawn = draw_line(
                canvas,
                line,
                &look.options,
                &look.point_options,
                &style.point_style.effect,
                context,
            );
            proof {
                assert(line_look_for(*style, *line, *context, look));
            }
            drawn
        },
        None => {
            let drawn = draw_line(
                canvas,
                line,
                &style.options,
                &style.point_style.options,
                &style.point_style.effect,
                context,
            );
            proof {
                assert(line_look_for(*style, *line, *context, style.look()));
            }
            drawn
        },
    }
}

/// Draws a line string in the given style.  Where the style has an effect,
/// the look that the effect computes for this line string is the one drawn:
/// its line options, and its point options for the vertices.
pub fn draw_styled_line_string(
    canvas: &mut Canvas,
    line_string: &LineString,
    style: &LineStringStyle<'_>,
    context: &Context,
) -> (drawn: Result<(), SnaprError>)
    requires
        context.wf(),
    ensures
        drawn is Err <==> line_string.0@.len() < 2,
        drawn matches Err(error) ==> error is PathConstruction && final(canvas)@ == old(canvas)@,
        line_string_asks(*line_string, *style, *context, added(*final(canvas), *old(canvas))),
        drawn is Ok && style.is_plain() ==> final(canvas)@ == old(canvas)@ + line_string_commands(
            line_string.0@,
            style.options,
            style.point_style.options,
            *context,
        ),
        drawn_onto(*final(canvas), *old(canvas)),
{
    match &style.effect {
        Some(effect) => {
            let set = LineLook { options: style.options, point_options: style.point_style.options.copy() };
            let look = effect.apply(&set, line_string, context);
            let drawn = draw_line_string(
                canvas,
                line_string,
                &look.options,
                &look.point_options,
                &style.point_style.effect,
                context,
            );
            proof {
                assert(line_string_look_for(*style, *line_string, *context, look));
                if drawn is Err {
                    lemma_added(*canvas, *old(canvas), Seq::empty());
                }
            }
            drawn
        },
        None => {
            let drawn = draw_line_string(
                canvas,
                line_string,
                &style.options,
                &style.point_style.options,
                &style.point_style.effect,
                context,
            );
            proof {
                assert(line_string_look_for(*style, *line_string, *context, style.look()));
                if drawn is Err {
                    lemma_added(*canvas, *old(canvas), Seq::empty());
                }
            }
            drawn
        },
    }
}

/// Draws several line strings in the same style, in their order, and stops
/// at the first that makes no path.
pub fn draw_line_strings(
    canvas: &mut Canvas,
    line_strings: &Vec<LineString>,
    style: &LineStringStyle<'_>,
    context: &Context,
) -> (drawn: Result<(), SnaprError>)
    requires
        context.wf(),
    ensures
        drawn is Ok <==> all_drawable(line_strings@),
        drawn matches Err(error) ==> error is PathConstruction,
        line_strings_ask(line_strings@, *style, *context, added(*final(canvas), *old(canvas))),
        drawn is Ok && style.is_plain() ==> final(canvas)@ == old(canvas)@ + line_strings_commands(
            line_strings@,
            style.options,
            style.point_style.options,
            *context,
        ),
        style.is_plain() ==> final(canvas)@ == old(canvas)@ + line_strings_commands(
            line_strings@.take(fully_drawn(line_strings_drawable(line_strings@))),
            style.options,
            style.point_style.options,
            *context,
        ),
        drawn_onto(*final(canvas), *old(canvas)),
{
    let mut done: usize = 0;
    let ghost mut parts: Seq<Seq<CommandView>> = Seq::empty();
    let ghost drawable = line_strings_drawable(line_strings@);
    proof {
        lemma_added(*canvas, *old(canvas), Seq::empty());
    }
    while done < line_strings.len()
        invariant
            context.wf(),
            done <= line_strings.len(),
            drawable == line_strings_drawable(line_strings@),
            all_drawable(line_strings@.take(done as int)),
            parts.len() == done,
            forall|position: int|
                0 <= position < done ==> line_string_asks(
                    line_strings@[position],
                    *style,
                    *context,
                    #[trigger] parts[position],
                ),
            added(*canvas, *old(canvas)) == joined(parts),
            style.is_plain() ==> canvas@ == old(canvas)@ + line_strings_commands(
                line_strings@.take(done as int),
                style.options,
                style.point_style.options,
                *context,
            ),
            drawn_onto(*canvas, *old(canvas)),
        decreases line_strings.len() - done,
    {
        let ghost before = *canvas;
        let drawn = draw_styled_line_string(canvas, &line_strings[done], style, context);
        proof {
            lemma_added_in_turn(*canvas, before, *old(canvas));
            lemma_joined_push(parts, added(*canvas, before));
            parts = parts.push(added(*canvas, before));
            assert forall|position: int| 0 <= position < done implies drawable[position] by {
                assert(line_strings@.take(done as int)[position] == line_strings@[position]);
            }
        }
        match drawn {
            Ok(()) => {},
            Err(error) => {
                proof {
                    assert(line_strings@[done as int].0@.len() < 2);
                    lemma_attempted_stops(drawable, done as int);
                    assert(line_strings_parts(line_strings@, *style, *context, parts));
                    assert(fully_drawn(drawable) == done);
                }
                return Err(error);
            },
        }
        proof {
            let next = line_strings@.take(done + 1);
            assert(next.drop_last() =~= line_strings@.take(done as int));
            assert(next.last() == line_strings@[done as int]);
            assert forall|position: int| 0 <= position < next.len() implies (#[trigger] next[position]).0@.len()
                >= 2 by {
                if position < done {
                    assert(next[position] == line_strings@.take(done as int)[position]);
                }
            }
            if style.is_plain() {
                assert(canvas@ =~= old(canvas)@ + line_strings_commands(
                    next,
                    style.options,
                    style.point_style.options,
                    *context,
                ));
            }
        }
        done = done + 1;
    }
    proof {
        assert(line_strings@.take(done as int) =~= line_strings@);
        assert forall|position: int| 0 <= position < done implies drawable[position] by {
            assert(line_strings@.take(done as int)[position] == line_strings@[position]);
        }
        lemma_attempted_all(drawable, done as int);
        assert(drawable.take(done as int) =~= drawable);
        assert(line_strings_parts(line_strings@, *style, *context, parts));
        assert(fully_drawn(drawable) == done);
    }
    Ok(())
}

/// The fill of the marker that a point has in the standard style: a circle
/// of four pixels' radius in the standard foreground.
pub open spec fn standard_marker_fill(pixel: PixelCoord) -> CommandView {
    CommandView::FillPath {
        path: PathView::Circle { center: pixel, radius: Length { hundredths: 400 } },
        paint: Paint { color: Color { red: 248, green: 248, blue: 248, alpha: 255 }, anti_alias: true },
    }
}

/// The border of the marker that a point has in the standard style: the
/// same circle stroked one pixel wide in the standard background.
pub open spec fn standard_marker_border(pixel: PixelCoord) -> CommandView {
    CommandView::StrokePath {
        path: PathView::Circle { center: pixel, radius: Length { hundredths: 400 } },
        paint: Paint { color: Color { red: 26, green: 26, blue: 26, alpha: 255 }, anti_alias: true },
        width: Length { hundredths: 100 },
    }
}

/// In the standard style the vertices of a path ask for two operations
/// each: the fill of the marker on the pixel of the vertex, then its
/// border.
pub proof fn lemma_standard_vertices(coords: Seq<Coord>, context: Context)
    ensures
        vertices_commands(coords, PointOptions::standard(), context).len() == 2 * coords.len(),
        forall|position: int|
            0 <= position < coords.len() ==> {
                &&& #[trigger] vertices_commands(coords, PointOptions::standard(), context)[2
                    * position] == standard_marker_fill(context.pixel(coords[position]))
                &&& vertices_commands(coords, PointOptions::standard(), context)[2 * position + 1]
                    == standard_marker_border(context.pixel(coords[position]))
            },
    decreases coords.len(),
{
    if coords.len() > 0 {
        let before = coords.drop_last();
        lemma_standard_vertices(before, context);
        let last = point_commands(
            Point(coords.last()),
            PointOptions::standard(),
            context.at((coords.len() - 1) as usize),
        );
        assert(last =~= seq![
            standard_marker_fill(context.pixel(coords.last())),
            standard_marker_border(context.pixel(coords.last())),
        ]);
        let all = vertices_commands(coords, PointOptions::standard(), context);
        assert(all == vertices_commands(before, PointOptions::standard(), context) + last);
        assert forall|position: int| 0 <= position < coords.len() implies {
            &&& #[trigger] all[2 * position] == standard_marker_fill(context.pixel(coords[position]))
            &&& all[2 * position + 1] == standard_marker_border(context.pixel(coords[position]))
        } by {
            if position < before.len() {
                assert(before[position] == coords[position]);
                assert(vertices_commands(before, PointOptions::standard(), context)[2 * position]
                    == standard_marker_fill(context.pixel(before[position])));
            }
        }
    }
}

/// A line string drawn in the standard style asks for two strokes along
/// the one path through its pixels, the first in the background and four
/// pixels wide, the second in the foreground and three pixels wide, and
/// then for the marker of each vertex, in their order.
pub proof fn lemma_standard_line_string(coords: Seq<Coord>, context: Context)
    ensures
        ({
            let commands = line_string_commands(
                coords,
                LineOptions::standard(),
                PointOptions::standard(),
                context,
            );
            let path = PathView::Polyline { points: projected(coords, context), closed: false };
            &&& commands.len() == 2 + 2 * coords.len()
            &&& commands[0] == (CommandView::StrokePath {
                path,
                paint: Paint {
                    color: Color { red: 26, green: 26, blue: 26, alpha: 255 },
                    anti_alias: true,
                },
                width: Length { hundredths: 400 },
            })
            &&& commands[1] == (CommandView::StrokePath {
                path,
                paint: Paint {
                    color: Color { red: 196, green: 196, blue: 196, alpha: 255 },
                    anti_alias: true,
                },
                width: Length { hundredths: 300 },
            })
            &&& forall|position: int|
                0 <= position < coords.len() ==> {
                    &&& #[trigger] commands[2 + 2 * position] == standard_marker_fill(
                        context.pixel(coords[position]),
                    )
                    &&& commands[2 + 2 * position + 1] == standard_marker_border(
                        context.pixel(coords[position]),
                    )
                }
        }),
{
    lemma_standard_vertices(coords, context);
    let path = PathView::Polyline { points: projected(coords, context), closed: false };
    let strokes = stroke_commands(path, LineOptions::standard());
    let vertices = vertices_commands(coords, PointOptions::standard(), context);
    assert(strokes.len() == 2);
    let commands = line_string_commands(
        coords,
        LineOptions::standard(),
        PointOptions::standard(),
        context,
    );
    assert(commands == strokes + vertices);
    assert forall|position: int| 0 <= position < coords.len() implies {
        &&& #[trigger] commands[2 + 2 * position] == standard_marker_fill(
            context.pixel(coords[position]),
        )
        &&& commands[2 + 2 * position + 1] == standard_marker_border(context.pixel(coords[position]))
    } by {
        assert(commands[2 + 2 * position] == vertices[2 * position]);
        assert(commands[2 + 2 * position + 1] == vertices[2 * position + 1]);
    }
}

impl<'b> Styleable<LineStyle<'b>> for Line {

}

impl<'a, 'b> Drawable for Styled<'a, Line, LineStyle<'b>> {
    fn draw(&self, canvas: &mut Canvas, context: &Context) -> (drawn: Result<(), SnaprError>)
        ensures
            drawn is Ok,
            line_asks(*self.inner, self.style, *context, added(*final(canvas), *old(canvas))),
            self.style.is_plain() ==> final(canvas)@ == old(canvas)@ + line_commands(
                *self.inner,
                self.style.options,
                self.style.point_style.options,
                *context,
            ),
    {
        draw_styled_line(canvas, self.inner, &self.style, context)
    }
}

impl Drawable for Line {
    fn draw(&self, canvas: &mut Canvas, context: &Context) -> (drawn: Result<(), SnaprError>)
        ensures
            drawn is Ok,
            final(canvas)@ == old(canvas)@ + line_commands(
                *self,
                LineOptions::standard(),
                PointOptions::standard(),
                *context,
            ),
    {
        let style = LineStyle::default();
        draw_styled_line(canvas, self, &style, context)
    }
}

impl<'b> Styleable<LineStringStyle<'b>> for LineString {

}

impl<'a, 'b> Drawable for Styled<'a, LineString, LineStringStyle<'b>> {
    fn draw(&self, canvas: &mut Canvas, context: &Context) -> (drawn: Result<(), SnaprError>)
        ensures
            drawn is Err <==> self.inner.0@.len() < 2,
            line_string_asks(*self.inner, self.style, *context, added(*final(canvas), *old(canvas))),
            drawn matches Err(error) ==> error is PathConstruction && final(canvas)@ == old(canvas)@,
            drawn is Ok && self.style.is_plain() ==> final(canvas)@ == old(canvas)@
                + line_string_commands(
                self.inner.0@,
                self.style.options,
                self.style.point_style.options,
                *context,
            ),
    {
        draw_styled_line_string(canvas, self.inner, &self.style, context)
    }
}

impl Drawable for LineString {
    fn draw(&self, canvas: &mut Canvas, context: &Context) -> (drawn: Result<(), SnaprError>)
        ensures
            drawn is Err <==> self.0@.len() < 2,
            drawn matches Err(error) ==> error is PathConstruction && final(canvas)@ == old(canvas)@,
            drawn is Ok ==> final(canvas)@ == old(canvas)@ + line_string_commands(
                self.0@,
                LineOptions::standard(),
                PointOptions::standard(),
                *context,
            ),
    {
        let style = LineStringStyle::default();
        draw_styled_line_string(canvas, self, &style, context)
    }
}

impl<'b> Styleable<LineStringStyle<'b>> for MultiLineString {

}

impl<'a, 'b> Drawable for Styled<'a, MultiLineString, LineStringStyle<'b>> {
    fn draw(&self, canvas: &mut Canvas, context: &Context) -> (drawn: Result<(), SnaprError>)
        ensures
            drawn is Ok <==> all_drawable(self.inner.0@),
            line_strings_ask(self.inner.0@, self.style, *context, added(*final(canvas), *old(canvas))),
            drawn matches Err(error) ==> error is PathConstruction,
            drawn is Ok && self.style.is_plain() ==> final(canvas)@ == old(canvas)@
                + line_strings_commands(
                self.inner.0@,
                self.style.options,
                self.style.point_style.options,
                *context,
            ),
    {
        draw_line_strings(canvas, &self.inner.0, &self.style, context)
    }
}

impl Drawable for MultiLineString {
    fn draw(&self, canvas: &mut Canvas, context: &Context) -> (drawn: Result<(), SnaprError>)
        ensures
            drawn is Ok <==> all_drawable(self.0@),
            final(canvas)@ == old(canvas)@ + line_strings_commands(
                self.0@.take(fully_drawn(line_strings_drawable(self.0@))),
                LineOptions::standard(),
                PointOptions::standard(),
                *context,
            ),
            drawn matches Err(error) ==> error is PathConstruction,
            drawn is Ok ==> final(canvas)@ == old(canvas)@ + line_strings_commands(
                self.0@,
                LineOptions::standard(),
                PointOptions::standard(),
                *context,
            ),
    {
        let style = LineStringStyle::default();
        draw_line_strings(canvas, &self.0, &style, context)
    }
}

} // verus!
