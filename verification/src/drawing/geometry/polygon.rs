//! Polygons, rectangles and triangles: their style and the routines that
//! draw them.  Only the exterior ring of a polygon is drawn.

use vstd::prelude::*;
use crate::drawing::added;
use crate::drawing::attempted;
use crate::drawing::canvas::Canvas;
use crate::drawing::canvas::CommandView;
use crate::drawing::canvas::Path;
use crate::drawing::canvas::PathView;
use crate::drawing::Context;
use crate::drawing::Drawable;
use crate::drawing::drawn_onto;
use crate::drawing::Effect;
use crate::drawing::fully_drawn;
use crate::drawing::geometry::line::draw_vertices;
use crate::drawing::geometry::line::LineOptions;
use crate::drawing::geometry::line::LineStringStyle;
use crate::drawing::geometry::line::project_all;
use crate::drawing::geometry::line::projected;
use crate::drawing::geometry::line::stroke_commands;
use crate::drawing::geometry::line::stroke_outline;
use crate::drawing::geometry::line::vertices_ask;
use crate::drawing::geometry::line::vertices_commands;
use crate::drawing::geometry::point::fill_paint;
use crate::drawing::geometry::point::paint_of_fill;
use crate::drawing::geometry::point::PointOptions;
use crate::drawing::geometry::point::PointStyle;
use crate::drawing::joined;
use crate::drawing::lemma_added;
use crate::drawing::lemma_added_in_turn;
use crate::drawing::lemma_attempted_all;
use crate::drawing::lemma_attempted_stops;
use crate::drawing::lemma_joined_push;
use crate::drawing::style::Color;
use crate::drawing::style::ColorOptions;
use crate::drawing::Styleable;
use crate::drawing::Styled;
use crate::error::SnaprError;
use crate::geometry::MultiPolygon;
use crate::geometry::Point;
use crate::geometry::Polygon;
use crate::geometry::Rect;
use crate::geometry::Triangle;
use crate::projection::Coord;

verus! {

/// The options of the style of a polygon: the colours of its fill.
#[derive(Clone, Copy, Debug, PartialEq, Eq, Structural)]
pub struct PolygonOptions {
    pub color_options: ColorOptions,
}

impl PolygonOptions {
    /// The options that polygons have unless told otherwise: a faint white
    /// fill.
    pub open spec fn standard() -> PolygonOptions {
        PolygonOptions {
            color_options: ColorOptions {
                foreground: Color { red: 248, green: 248, blue: 248, alpha: 64 },
                border: None,
                ..ColorOptions::standard()
            },
        }
    }

    /// `self` overridden by `later`: the colour options are merged.
    pub open spec fn merged(self, later: PolygonOptions) -> PolygonOptions {
        PolygonOptions { color_options: self.color_options.merged(later.color_options) }
    }

    /// Merges two sets of options, the later one winning.
    pub fn merge(self, later: PolygonOptions) -> (merged: PolygonOptions)
        ensures
            merged == self.merged(later),
    {
        PolygonOptions { color_options: self.color_options.merge(later.color_options) }
    }
}

impl Default for PolygonOptions {
    fn default() -> (options: PolygonOptions)
        ensures
            options == PolygonOptions::standard(),
    {
        let standard = ColorOptions::default();
        PolygonOptions {
            color_options: ColorOptions {
                foreground: Color::from_rgba8(248, 248, 248, 64),
                background: standard.background,
                anti_alias: standard.anti_alias,
                border: None,
            },
        }
    }
}

/// Merging polygon options is associative.
pub proof fn lemma_polygon_merge_is_associative(
    first: PolygonOptions,
    second: PolygonOptions,
    third: PolygonOptions,
)
    ensures
        first.merged(second).merged(third) == first.merged(second.merged(third)),
{
}

/// The whole look of a polygon: the options of its fill, of its outline and
/// of its vertices.  This is what an effect on a polygon is given and what
/// it gives back.
#[derive(Debug, PartialEq, Eq)]
pub struct PolygonLook {
    pub options: PolygonOptions,
    pub line_options: LineOptions,
    pub point_options: PointOptions,
}

/// The style of a polygon: the options of its fill, the style whose options
/// its outline is stroked with, the style of its vertices and, where one is
/// set, the effect that computes the look anew for each polygon drawn.  An
/// effect of the outline's style is not applied.
pub struct PolygonStyle<'a> {
    pub options: PolygonOptions,
    pub line_style: LineStringStyle<'a>,
    pub point_style: PointStyle<'a>,
    pub effect: Option<Effect<'a, Polygon, PolygonLook>>,
}

impl<'a> PolygonStyle<'a> {
    /// The look that the style sets, before any effect.
    pub open spec fn look(self) -> PolygonLook {
        PolygonLook {
            options: self.options,
            line_options: self.line_style.options,
            point_options: self.point_style.options,
        }
    }

    /// Neither the polygon nor its vertices have an effect.
    pub open spec fn is_plain(self) -> bool {
        self.effect is None && self.point_style.effect is None
    }

    /// The style is the one that polygons have unless told otherwise.
    pub open spec fn is_standard(self) -> bool {
        &&& self.is_plain()
        &&& self.options == PolygonOptions::standard()
        &&& self.line_style.options == LineOptions::standard()
        &&& self.point_style.options == PointOptions::standard()
    }
}

impl<'a> Default for PolygonStyle<'a> {
    fn default() -> (style: PolygonStyle<'a>)
        ensures
            style.is_standard(),
    {
        PolygonStyle {
            options: PolygonOptions::default(),
            line_style: LineStringStyle::default(),
            point_style: PointStyle::default(),
            effect: None,
        }
    }
}

/// What drawing a polygon asks for: the closed path through the pixels of
/// its exterior ring filled with the foreground, then the strokes of that
/// path, then the vertices of the ring.
pub open spec fn polygon_commands(
    exterior: Seq<Coord>,
    options: PolygonOptions,
    line_options: LineOptions,
    point_options: PointOptions,
    context: Context,
) -> Seq<CommandView> {
    let path = PathView::Polyline { points: projected(exterior, context), closed: true };
    seq![CommandView::FillPath { path, paint: fill_paint(options.color_options) }] + stroke_commands(
        path,
        line_options,
    ) + vertices_commands(exterior, point_options, context)
}

/// What drawing several polygons with the same options asks for: what each
/// asks for, in their order.
pub open spec fn polygons_commands(
    polygons: Seq<Polygon>,
    options: PolygonOptions,
    line_options: LineOptions,
    point_options: PointOptions,
    context: Context,
) -> Seq<CommandView>
    decreases polygons.len(),
{
    if polygons.len() == 0 {
        Seq::empty()
    } else {
        polygons_commands(polygons.drop_last(), options, line_options, point_options, context)
            + polygon_commands(
            polygons.last().exterior.0@,
            options,
            line_options,
            point_options,
            context,
        )
    }
}

/// Whether each of the polygons has a point to start its outline from.
pub open spec fn all_outlined(polygons: Seq<Polygon>) -> bool {
    forall|position: int|
        0 <= position < polygons.len() ==> (#[trigger] polygons[position]).exterior.0@.len() >= 1
}

/// The closed path through the pixels of a ring.
pub open spec fn ring_path(exterior: Seq<Coord>, context: Context) -> PathView {
    PathView::Polyline { points: projected(exterior, context), closed: true }
}

/// Whether `commands` is what drawing a polygon asks for, whatever the style
/// of its vertices: the closed path through the pixels of its exterior ring
/// filled with the foreground of `options`, then the strokes of that path
/// with `line_options`, then what the vertices of the ring ask for in
/// `point_style`.
pub open spec fn polygon_draws(
    exterior: Seq<Coord>,
    options: PolygonOptions,
    line_options: LineOptions,
    point_style: PointStyle<'_>,
    context: Context,
    commands: Seq<CommandView>,
) -> bool {
    exists|vertices: Seq<CommandView>| #[trigger]
        vertices_ask(exterior, point_style, context, vertices) && commands == seq![
            CommandView::FillPath {
                path: ring_path(exterior, context),
                paint: fill_paint(options.color_options),
            },
        ] + stroke_commands(ring_path(exterior, context), line_options) + vertices
}

/// Whether `look` is a look that `polygon` is drawn with in `style`: the
/// look that the style sets, or one that its effect may give for it.
pub open spec fn polygon_look_for(
    style: PolygonStyle<'_>,
    polygon: Polygon,
    context: Context,
    look: PolygonLook,
) -> bool {
    match style.effect {
        Some(effect) => effect.may_give(&style.look(), &polygon, &context, look),
        None => look == style.look(),
    }
}

/// Whether `commands` is what drawing `polygon` in `style` adds to the
/// canvas: nothing where it makes no path, and else what it asks for with
/// the options of a look that it is drawn with in that style, its vertices
/// drawn with the point options of that look under the effect of the point
/// style.
pub open spec fn polygon_asks(
    polygon: Polygon,
    style: PolygonStyle<'_>,
    context: Context,
    commands: Seq<CommandView>,
) -> bool {
    if polygon.exterior.0@.len() < 1 {
        commands == Seq::<CommandView>::empty()
    } else {
        exists|look: PolygonLook| #[trigger]
            polygon_look_for(style, polygon, context, look) && polygon_draws(
                polygon.exterior.0@,
                look.options,
                look.line_options,
                PointStyle { options: look.point_options, effect: style.point_style.effect },
                context,
                commands,
            )
    }
}

/// Whether `polygon` is a polygon without holes whose exterior ring is
/// `ring`.
pub open spec fn is_ring_polygon(polygon: Polygon, ring: Seq<Coord>) -> bool {
    polygon.exterior.0@ == ring && polygon.interiors@.len() == 0
}

/// Whether `commands` is what drawing a rectangle or a triangle of the ring
/// `ring` in `style` asks for: what the polygon of that ring asks for.
pub open spec fn ring_asks(ring: Seq<Coord>, style: PolygonStyle<'_>, context: Context, commands: Seq<CommandView>) -> bool {
    exists|polygon: Polygon| #[trigger]
        is_ring_polygon(polygon, ring) && polygon_asks(polygon, style, context, commands)
}

/// Which of the polygons make a path.
pub open spec fn polygons_drawable(polygons: Seq<Polygon>) -> Seq<bool> {
    Seq::new(polygons.len(), |position: int| polygons[position].exterior.0@.len() >= 1)
}

/// Whether `parts` holds, for each of the polygons that are drawn or tried,
/// what drawing it in `style` adds to the canvas.
pub open spec fn polygons_parts(
    polygons: Seq<Polygon>,
    style: PolygonStyle<'_>,
    context: Context,
    parts: Seq<Seq<CommandView>>,
) -> bool {
    &&& parts.len() == attempted(polygons_drawable(polygons))
    &&& forall|position: int|
        0 <= position < parts.len() ==> polygon_asks(
            polygons[position],
            style,
            context,
            #[trigger] parts[position],
        )
}

/// Whether `commands` is what drawing `polygons` in `style` adds to the
/// canvas: what each adds, in their order, up to the first that makes no
/// path.
pub open spec fn polygons_ask(
    polygons: Seq<Polygon>,
    style: PolygonStyle<'_>,
    context: Context,
    commands: Seq<CommandView>,
) -> bool {
    exists|parts: Seq<Seq<CommandView>>| #[trigger]
        polygons_parts(polygons, style, context, parts) && commands == joined(parts)
}

/// Draws a polygon whose fill has the given options; its outline is stroked
/// with `line_options` and its vertices are drawn in `point_style`.  A
/// polygon whose exterior ring is empty makes no path: nothing is drawn of
/// it and the snapshot fails.
pub fn draw_polygon(
    canvas: &mut Canvas,
    polygon: &Polygon,
    options: &PolygonOptions,
    line_options: &LineOptions,
    point_options: &PointOptions,
    point_effect: &Option<Effect<'_, Point, PointOptions>>,
    context: &Context,
) -> (drawn: Result<(), SnaprError>)
    requires
        context.wf(),
    ensures
        drawn is Err <==> polygon.exterior.0@.len() < 1,
        drawn matches Err(error) ==> error is PathConstruction && final(canvas)@ == old(canvas)@,
        drawn is Ok ==> polygon_draws(
            polygon.exterior.0@,
            *options,
            *line_options,
            PointStyle { options: *point_options, effect: *point_effect },
            *context,
            added(*final(canvas), *old(canvas)),
        ),
        drawn is Ok && point_effect is None ==> final(canvas)@ == old(canvas)@ + polygon_commands(
            polygon.exterior.0@,
            *options,
            *line_options,
            *point_options,
            *context,
        ),
        drawn_onto(*final(canvas), *old(canvas)),
{
    let ghost point_style = PointStyle { options: *point_options, effect: *point_effect };
    if polygon.exterior.0.len() < 1 {
        return Err(SnaprError::PathConstruction);
    }
    let inside = project_all(&polygon.exterior.0, context);
    canvas.fill_path(
        Path::Polyline { points: inside, closed: true },
        paint_of_fill(&options.color_options),
    );
    let outline = project_all(&polygon.exterior.0, context);
    stroke_outline(canvas, outline, true, line_options);
    let ghost outlined = *canvas;
    draw_vertices(canvas, &polygon.exterior.0, point_options, point_effect, context);
    proof {
        if point_effect is None {
            assert(canvas@ =~= old(canvas)@ + polygon_commands(
                polygon.exterior.0@,
                *options,
                *line_options,
                *point_options,
                *context,
            ));
        }
        let path = ring_path(polygon.exterior.0@, *context);
        let painted = seq![
            CommandView::FillPath { path, paint: fill_paint(options.color_options) },
        ] + stroke_commands(path, *line_options);
        assert(outlined@ =~= old(canvas)@ + painted);
        lemma_added(outlined, *old(canvas), painted);
        lemma_added_in_turn(*canvas, outlined, *old(canvas));
        assert(vertices_ask(polygon.exterior.0@, point_style, *context, added(*canvas, outlined)));
    }
    Ok(())
}

/// Draws a polygon in the given style.  Where the style has an effect, the
/// look that the effect computes for this polygon is the one drawn: its
/// options for the fill, its line options for the outline and its point
/// options for the vertices.
pub fn draw_styled_polygon(
    canvas: &mut Canvas,
    polygon: &Polygon,
    style: &PolygonStyle<'_>,
    context: &Context,
) -> (drawn: Result<(), SnaprError>)
    requires
        context.wf(),
    ensures
        drawn is Err <==> polygon.exterior.0@.len() < 1,
        drawn matches Err(error) ==> error is PathConstruction && final(canvas)@ == old(canvas)@,
        polygon_asks(*polygon, *style, *context, added(*final(canvas), *old(canvas))),
        drawn is Ok && style.is_plain() ==> final(canvas)@ == old(canvas)@ + polygon_commands(
            polygon.exterior.0@,
            style.options,
            style.line_style.options,
            style.point_style.options,
            *context,
        ),
        drawn_onto(*final(canvas), *old(canvas)),
{
    match &style.effect {
        Some(effect) => {
            let set = PolygonLook {
                options: style.options,
                line_options: style.line_style.options,
                point_options: style.point_style.options.copy(),
            };
            let look = effect.apply(&set, polygon, context);
            let drawn = draw_polygon(
                canvas,
                polygon,
                &look.options,
                &look.line_options,
                &look.point_options,
                &style.point_style.effect,
                context,
            );
            proof {
                assert(polygon_look_for(*style, *polygon, *context, look));
                if drawn is Err {
                    lemma_added(*canvas, *old(canvas), Seq::empty());
                }
            }
            drawn
        },
        None => {
            let drawn = draw_polygon(
                canvas,
                polygon,
                &style.options,
                &style.line_style.options,
                &style.point_style.options,
                &style.point_style.effect,
                context,
            );
            proof {
                assert(polygon_look_for(*style, *polygon, *context, style.look()));
                if drawn is Err {
                    lemma_added(*canvas, *old(canvas), Seq::empty());
                }
            }
            drawn
        },
    }
}

/// Draws several polygons in the same style, in their order, and stops at
/// the first that makes no path.
pub fn draw_polygons(
    canvas: &mut Canvas,
    polygons: &Vec<Polygon>,
    style: &PolygonStyle<'_>,
    context: &Context,
) -> (drawn: Result<(), SnaprError>)
    requires
        context.wf(),
    ensures
        drawn is Ok <==> all_outlined(polygons@),
        drawn matches Err(error) ==> error is PathConstruction,
        polygons_ask(polygons@, *style, *context, added(*final(canvas), *old(canvas))),
        drawn is Ok && style.is_plain() ==> final(canvas)@ == old(canvas)@ + polygons_commands(
            polygons@,
            style.options,
            style.line_style.options,
            style.point_style.options,
            *context,
        ),
        style.is_plain() ==> final(canvas)@ == old(canvas)@ + polygons_commands(
            polygons@.take(fully_drawn(polygons_drawable(polygons@))),
            style.options,
            style.line_style.options,
            style.point_style.options,
            *context,
        ),
        drawn_onto(*final(canvas), *old(canvas)),
{
    let mut done: usize = 0;
    let ghost mut parts: Seq<Seq<CommandView>> = Seq::empty();
    let ghost drawable = polygons_drawable(polygons@);
    proof {
        lemma_added(*canvas, *old(canvas), Seq::empty());
    }
    while done < polygons.len()
        invariant
            context.wf(),
            done <= polygons.len(),
            drawable == polygons_drawable(polygons@),
            all_outlined(polygons@.take(done as int)),
            parts.len() == done,
            forall|position: int|
                0 <= position < done ==> polygon_asks(
                    polygons@[position],
                    *style,
                    *context,
                    #[trigger] parts[position],
                ),
            added(*canvas, *old(canvas)) == joined(parts),
            style.is_plain() ==> canvas@ == old(canvas)@ + polygons_commands(
                polygons@.take(done as int),
                style.options,
                style.line_style.options,
                style.point_style.options,
                *context,
            ),
            drawn_onto(*canvas, *old(canvas)),
        decreases polygons.len() - done,
    {
        let ghost before = *canvas;
        let drawn = draw_styled_polygon(canvas, &polygons[done], style, context);
        proof {
            lemma_added_in_turn(*canvas, before, *old(canvas));
            lemma_joined_push(parts, added(*canvas, before));
            parts = parts.push(added(*canvas, before));
            assert forall|position: int| 0 <= position < done implies drawable[position] by {
                assert(polygons@.take(done as int)[position] == polygons@[position]);
            }
        }
        match drawn {
            Ok(()) => {},
            Err(error) => {
                proof {
                    assert(polygons@[done as int].exterior.0@.len() < 1);
                    lemma_attempted_stops(drawable, done as int);
                    assert(polygons_parts(polygons@, *style, *context, parts));
                    assert(fully_drawn(drawable) == done);
                }
                return Err(error);
            },
        }
        proof {
            let next = polygons@.take(done + 1);
            assert(next.drop_last() =~= polygons@.take(done as int));
            assert(next.last() == polygons@[done as int]);
            assert forall|position: int| 0 <= position < next.len() implies (
            #[trigger] next[position]).exterior.0@.len() >= 1 by {
                if position < done {
                    assert(next[position] == polygons@.take(done as int)[position]);
                }
            }
            if style.is_plain() {
                assert(canvas@ =~= old(canvas)@ + polygons_commands(
                    next,
                    style.options,
                    style.line_style.options,
                    style.point_style.options,
                    *context,
                ));
            }
        }
        done = done + 1;
    }
    proof {
        assert(polygons@.take(done as int) =~= polygons@);
        assert forall|position: int| 0 <= position < done implies drawable[position] by {
            assert(polygons@.take(done as int)[position] == polygons@[position]);
        }
        lemma_attempted_all(drawable, done as int);
        assert(drawable.take(done as int) =~= drawable);
        assert(polygons_parts(polygons@, *style, *context, parts));
        assert(fully_drawn(drawable) == done);
    }
    Ok(())
}

impl<'b> Styleable<PolygonStyle<'b>> for Polygon {

}

impl<'a, 'b> Drawable for Styled<'a, Polygon, PolygonStyle<'b>> {
    fn draw(&self, canvas: &mut Canvas, context: &Context) -> (drawn: Result<(), SnaprError>)
        ensures
            drawn is Err <==> self.inner.exterior.0@.len() < 1,
            polygon_asks(*self.inner, self.style, *context, added(*final(canvas), *old(canvas))),
            drawn matches Err(error) ==> error is PathConstruction && final(canvas)@ == old(canvas)@,
            drawn is Ok && self.style.is_plain() ==> final(canvas)@ == old(canvas)@ + polygon_commands(
                self.inner.exterior.0@,
                self.style.options,
                self.style.line_style.options,
                self.style.point_style.options,
                *context,
            ),
    {
        draw_styled_polygon(canvas, self.inner, &self.style, context)
    }
}

impl Drawable for Polygon {
    fn draw(&self, canvas: &mut Canvas, context: &Context) -> (drawn: Result<(), SnaprError>)
        ensures
            drawn is Err <==> self.exterior.0@.len() < 1,
            drawn matches Err(error) ==> error is PathConstruction && final(canvas)@ == old(canvas)@,
            drawn is Ok ==> final(canvas)@ == old(canvas)@ + polygon_commands(
                self.exterior.0@,
                PolygonOptions::standard(),
                LineOptions::standard(),
                PointOptions::standard(),
                *context,
            ),
    {
        let style = PolygonStyle::default();
        draw_styled_polygon(canvas, self, &style, context)
    }
}

impl<'b> Styleable<PolygonStyle<'b>> for MultiPolygon {

}

impl<'a, 'b> Drawable for Styled<'a, MultiPolygon, PolygonStyle<'b>> {
    fn draw(&self, canvas: &mut Canvas, context: &Context) -> (drawn: Result<(), SnaprError>)
        ensures
            drawn is Ok <==> all_outlined(self.inner.0@),
            polygons_ask(self.inner.0@, self.style, *context, added(*final(canvas), *old(canvas))),
            drawn matches Err(error) ==> error is PathConstruction,
            drawn is Ok && self.style.is_plain() ==> final(canvas)@ == old(canvas)@
                + polygons_commands(
                self.inner.0@,
                self.style.options,
                self.style.line_style.options,
                self.style.point_style.options,
                *context,
            ),
    {
        draw_polygons(canvas, &self.inner.0, &self.style, context)
    }
}

impl Drawable for MultiPolygon {
    fn draw(&self, canvas: &mut Canvas, context: &Context) -> (drawn: Result<(), SnaprError>)
        ensures
            drawn is Ok <==> all_outlined(self.0@),
            final(canvas)@ == old(canvas)@ + polygons_commands(
                self.0@.take(fully_drawn(polygons_drawable(self.0@))),
                PolygonOptions::standard(),
                LineOptions::standard(),
                PointOptions::standard(),
                *context,
            ),
            drawn matches Err(error) ==> error is PathConstruction,
            drawn is Ok ==> final(canvas)@ == old(canvas)@ + polygons_commands(
                self.0@,
                PolygonOptions::standard(),
                LineOptions::standard(),
                PointOptions::standard(),
                *context,
            ),
    {
        let style = PolygonStyle::default();
        draw_polygons(canvas, &self.0, &style, context)
    }
}

impl<'b> Styleable<PolygonStyle<'b>> for Rect {

}

impl<'a, 'b> Drawable for Styled<'a, Rect, PolygonStyle<'b>> {
    fn draw(&self, canvas: &mut Canvas, context: &Context) -> (drawn: Result<(), SnaprError>)
        ensures
            drawn is Ok,
            ring_asks(self.inner.ring(), self.style, *context, added(*final(canvas), *old(canvas))),
            self.style.is_plain() ==> final(canvas)@ == old(canvas)@ + polygon_commands(
                self.inner.ring(),
                self.style.options,
                self.style.line_style.options,
                self.style.point_style.options,
                *context,
            ),
    {
        let polygon = self.inner.to_polygon();
        let drawn = draw_styled_polygon(canvas, &polygon, &self.style, context);
        proof {
            assert(is_ring_polygon(polygon, self.inner.ring()));
        }
        drawn
    }
}

impl Drawable for Rect {
    fn draw(&self, canvas: &mut Canvas, context: &Context) -> (drawn: Result<(), SnaprError>)
        ensures
            drawn is Ok,
            final(canvas)@ == old(canvas)@ + polygon_commands(
                self.ring(),
                PolygonOptions::standard(),
                LineOptions::standard(),
                PointOptions::standard(),
                *context,
            ),
    {
        let style = PolygonStyle::default();
        let polygon = self.to_polygon();
        draw_styled_polygon(canvas, &polygon, &style, context)
    }
}

impl<'b> Styleable<PolygonStyle<'b>> for Triangle {

}

impl<'a, 'b> Drawable for Styled<'a, Triangle, PolygonStyle<'b>> {
    fn draw(&self, canvas: &mut Canvas, context: &Context) -> (drawn: Result<(), SnaprError>)
        ensures
            drawn is Ok,
            ring_asks(self.inner.ring(), self.style, *context, added(*final(canvas), *old(canvas))),
            self.style.is_plain() ==> final(canvas)@ == old(canvas)@ + polygon_commands(
                self.inner.ring(),
                self.style.options,
                self.style.line_style.options,
                self.style.point_style.options,
                *context,
            ),
    {
        let polygon = self.inner.to_polygon();
        let drawn = draw_styled_polygon(canvas, &polygon, &self.style, context);
        proof {
            assert(is_ring_polygon(polygon, self.inner.ring()));
        }
        drawn
    }
}

impl Drawable for Triangle {
    fn draw(&self, canvas: &mut Canvas, context: &Context) -> (drawn: Result<(), SnaprError>)
        ensures
            drawn is Ok,
            final(canvas)@ == old(canvas)@ + polygon_commands(
                self.ring(),
                PolygonOptions::standard(),
                LineOptions::standard(),
                PointOptions::standard(),
                *context,
            ),
    {
        let style = PolygonStyle::default();
        let polygon = self.to_polygon();
        draw_styled_polygon(canvas, &polygon, &style, context)
    }
}

} // verus!
