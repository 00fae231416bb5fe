//! Styled geometries: a geometry of any kind paired with the style of its
//! kind.

use vstd::prelude::*;
use crate::drawing::added;
use crate::drawing::attempted;
use crate::drawing::canvas::Canvas;
use crate::drawing::canvas::CommandView;
use crate::drawing::Context;
use crate::drawing::Drawable;
use crate::drawing::drawn_onto;
use crate::drawing::geometry::lemma_line_strings_ignore_index;
use crate::drawing::geometry::lemma_points_ignore_index;
use crate::drawing::geometry::lemma_polygons_ignore_index;
use crate::drawing::geometry::lemma_projection_ignores_index;
use crate::drawing::geometry::lemma_vertices_ignore_index;
use crate::drawing::geometry::line::all_drawable;
use crate::drawing::geometry::line::draw_line_strings;
use crate::drawing::geometry::line::draw_styled_line;
use crate::drawing::geometry::line::draw_styled_line_string;
use crate::drawing::geometry::line::line_asks;
use crate::drawing::geometry::line::line_commands;
use crate::drawing::geometry::line::line_string_asks;
use crate::drawing::geometry::line::line_string_commands;
use crate::drawing::geometry::line::line_strings_ask;
use crate::drawing::geometry::line::line_strings_commands;
use crate::drawing::geometry::line::LineStringStyle;
use crate::drawing::geometry::line::LineStyle;
use crate::drawing::geometry::point::draw_points;
use crate::drawing::geometry::point::draw_styled_point;
use crate::drawing::geometry::point::point_asks;
use crate::drawing::geometry::point::point_commands;
use crate::drawing::geometry::point::points_ask;
use crate::drawing::geometry::point::points_commands;
use crate::drawing::geometry::point::PointStyle;
use crate::drawing::geometry::polygon::all_outlined;
use crate::drawing::geometry::polygon::draw_polygons;
use crate::drawing::geometry::polygon::draw_styled_polygon;
use crate::drawing::geometry::polygon::is_ring_polygon;
use crate::drawing::geometry::polygon::polygon_asks;
use crate::drawing::geometry::polygon::polygon_commands;
use crate::drawing::geometry::polygon::polygons_ask;
use crate::drawing::geometry::polygon::polygons_commands;
use crate::drawing::geometry::polygon::PolygonStyle;
use crate::drawing::geometry::polygon::ring_asks;
use crate::drawing::joined;
use crate::drawing::lemma_added;
use crate::drawing::lemma_added_in_turn;
use crate::drawing::lemma_attempted_all;
use crate::drawing::lemma_attempted_stops;
use crate::drawing::lemma_joined_push;
use crate::error::SnaprError;
use crate::geometry::bounds_from;
use crate::geometry::lemma_bounds_from_concat;
use crate::geometry::lemma_bounds_of_none;
use crate::geometry::Line;
use crate::geometry::line_strings_coords;
use crate::geometry::LineString;
use crate::geometry::MultiLineString;
use crate::geometry::MultiPoint;
use crate::geometry::MultiPolygon;
use crate::geometry::Point;
use crate::geometry::points_coords;
use crate::geometry::Polygon;
use crate::geometry::polygons_coords;
use crate::geometry::Rect;
use crate::geometry::Triangle;
use crate::geometry::widen;
use crate::geometry::widen_by_coords;
use crate::geometry::widen_by_line_strings;
use crate::geometry::widen_by_points;
use crate::geometry::widen_by_polygons;
use crate::projection::Coord;

verus! {

/// A geometry with a style of its kind.  The members of a collection each
/// keep their own style.
pub enum StyledGeometry<'a> {
    Point(Point, PointStyle<'a>),
    Line(Line, LineStyle<'a>),
    LineString(LineString, LineStringStyle<'a>),
    Polygon(Polygon, PolygonStyle<'a>),
    MultiPoint(MultiPoint, PointStyle<'a>),
    MultiLineString(MultiLineString, LineStringStyle<'a>),
    MultiPolygon(MultiPolygon, PolygonStyle<'a>),
    GeometryCollection(Vec<StyledGeometry<'a>>),
    Rect(Rect, PolygonStyle<'a>),
    Triangle(Triangle, PolygonStyle<'a>),
}

impl<'a> StyledGeometry<'a> {
    /// No style in the geometry has an effect that would be applied.
    pub open spec fn is_plain(self) -> bool
        decreases self,
    {
        match self {
            StyledGeometry::Point(_, style) => style.effect is None,
            StyledGeometry::Line(_, style) => style.is_plain(),
            StyledGeometry::LineString(_, style) => style.is_plain(),
            StyledGeometry::Polygon(_, style) => style.is_plain(),
            StyledGeometry::MultiPoint(_, style) => style.effect is None,
            StyledGeometry::MultiLineString(_, style) => style.is_plain(),
            StyledGeometry::MultiPolygon(_, style) => style.is_plain(),
            StyledGeometry::GeometryCollection(members) => all_styled_are_plain(members@),
            StyledGeometry::Rect(_, style) => style.is_plain(),
            StyledGeometry::Triangle(_, style) => style.is_plain(),
        }
    }

    /// Whether every path that the geometry is made of has the points that
    /// a path needs: two for a line string, one for the exterior ring of a
    /// polygon.
    pub open spec fn is_drawable(self) -> bool
        decreases self,
    {
        match self {
            StyledGeometry::LineString(line_string, _) => line_string.0@.len() >= 2,
            StyledGeometry::Polygon(polygon, _) => polygon.exterior.0@.len() >= 1,
            StyledGeometry::MultiLineString(line_strings, _) => all_drawable(line_strings.0@),
            StyledGeometry::MultiPolygon(polygons, _) => all_outlined(polygons.0@),
            StyledGeometry::GeometryCollection(members) => all_styled_are_drawable(members@),
            _ => true,
        }
    }

    /// What drawing the geometry asks for where it is plain: what its kind
    /// asks for with the options of its style.
    pub open spec fn commands(self, context: Context) -> Seq<CommandView>
        decreases self,
    {
        match self {
            StyledGeometry::Point(point, style) => point_commands(point, style.options, context),
            StyledGeometry::Line(line, style) => line_commands(
                line,
                style.options,
                style.point_style.options,
                context,
            ),
            StyledGeometry::LineString(line_string, style) => line_string_commands(
                line_string.0@,
                style.options,
                style.point_style.options,
                context,
            ),
            StyledGeometry::Polygon(polygon, style) => polygon_commands(
                polygon.exterior.0@,
                style.options,
                style.line_style.options,
                style.point_style.options,
                context,
            ),
            StyledGeometry::MultiPoint(points, style) => points_commands(
                points.0@,
                style.options,
                context,
            ),
            StyledGeometry::MultiLineString(line_strings, style) => line_strings_commands(
                line_strings.0@,
                style.options,
                style.point_style.options,
                context,
            ),
            StyledGeometry::MultiPolygon(polygons, style) => polygons_commands(
                polygons.0@,
                style.options,
                style.line_style.options,
                style.point_style.options,
                context,
            ),
            StyledGeometry::GeometryCollection(members) => styled_members_commands(members@, context),
            StyledGeometry::Rect(rect, style) => polygon_commands(
                rect.ring(),
                style.options,
                style.line_style.options,
                style.point_style.options,
                context,
            ),
            StyledGeometry::Triangle(triangle, style) => polygon_commands(
                triangle.ring(),
                style.options,
                style.line_style.options,
                style.point_style.options,
                context,
            ),
        }
    }

    /// The positions that bound the geometry.
    pub open spec fn coords(self) -> Seq<Coord>
        decreases self,
    {
        match self {
            StyledGeometry::Point(point, _) => seq![point.0],
            StyledGeometry::Line(line, _) => seq![line.start, line.end],
            StyledGeometry::LineString(line_string, _) => line_string.0@,
            StyledGeometry::Polygon(polygon, _) => polygon.exterior.0@,
            StyledGeometry::MultiPoint(points, _) => points_coords(points.0@),
            StyledGeometry::MultiLineString(line_strings, _) => line_strings_coords(line_strings.0@),
            StyledGeometry::MultiPolygon(polygons, _) => polygons_coords(polygons.0@),
            StyledGeometry::GeometryCollection(members) => styled_coords(members@),
            StyledGeometry::Rect(rect, _) => seq![rect.min, rect.max],
            StyledGeometry::Triangle(triangle, _) => seq![triangle.0, triangle.1, triangle.2],
        }
    }
}

/// Whether each of the styled geometries is plain.
pub open spec fn all_styled_are_plain(geometries: Seq<StyledGeometry<'_>>) -> bool
    decreases geometries,
{
    if geometries.len() == 0 {
        true
    } else {
        all_styled_are_plain(geometries.drop_last()) && geometries.last().is_plain()
    }
}

/// Whether each of the styled geometries is drawable.
pub open spec fn all_styled_are_drawable(geometries: Seq<StyledGeometry<'_>>) -> bool
    decreases geometries,
{
    if geometries.len() == 0 {
        true
    } else {
        all_styled_are_drawable(geometries.drop_last()) && geometries.last().is_drawable()
    }
}

/// What drawing the members of a styled collection asks for: what each asks
/// for, in their order, all in the one context of the collection.
pub open spec fn styled_members_commands(geometries: Seq<StyledGeometry<'_>>, context: Context) -> Seq<
    CommandView,
>
    decreases geometries,
{
    if geometries.len() == 0 {
        Seq::empty()
    } else {
        styled_members_commands(geometries.drop_last(), context) + geometries.last().commands(context)
    }
}

/// What drawing styled geometries one after the other as the drawables of a
/// snapshot asks for: what each asks for, in their order, each told its
/// place among them as its index.
pub open spec fn styled_sequence_commands(geometries: Seq<StyledGeometry<'_>>, context: Context) -> Seq<
    CommandView,
>
    decreases geometries.len(),
{
    if geometries.len() == 0 {
        Seq::empty()
    } else {
        styled_sequence_commands(geometries.drop_last(), context) + geometries.last().commands(
            context.at((geometries.len() - 1) as usize),
        )
    }
}

/// The positions of styled geometries, one geometry after the other.
pub open spec fn styled_coords(geometries: Seq<StyledGeometry<'_>>) -> Seq<Coord>
    decreases geometries,
{
    if geometries.len() == 0 {
        Seq::empty()
    } else {
        styled_coords(geometries.drop_last()) + geometries.last().coords()
    }
}

/// Which of the styled geometries are drawable.
pub open spec fn styled_drawable(geometries: Seq<StyledGeometry<'_>>) -> Seq<bool> {
    Seq::new(geometries.len(), |position: int| geometries[position].is_drawable())
}

impl<'a> StyledGeometry<'a> {
    /// Whether `commands` is what drawing the geometry adds to the canvas,
    /// whether or not it fails and whatever effects its styles have: what
    /// its kind asks for in its style, with options that each effect may
    /// give, up to the first path that cannot be made.
    pub open spec fn asks(self, context: Context, commands: Seq<CommandView>) -> bool
        decreases self, 0int,
    {
        match self {
            StyledGeometry::Point(point, style) => point_asks(point, style, context, commands),
            StyledGeometry::Line(line, style) => line_asks(line, style, context, commands),
            StyledGeometry::LineString(line_string, style) => line_string_asks(
                line_string,
                style,
                context,
                commands,
            ),
            StyledGeometry::Polygon(polygon, style) => polygon_asks(polygon, style, context, commands),
            StyledGeometry::MultiPoint(points, style) => points_ask(points.0@, style, context, commands),
            StyledGeometry::MultiLineString(line_strings, style) => line_strings_ask(
                line_strings.0@,
                style,
                context,
                commands,
            ),
            StyledGeometry::MultiPolygon(polygons, style) => polygons_ask(
                polygons.0@,
                style,
                context,
                commands,
            ),
            StyledGeometry::GeometryCollection(members) => styled_members_ask(
                members@,
                context,
                commands,
            ),
            StyledGeometry::Rect(rect, style) => ring_asks(rect.ring(), style, context, commands),
            StyledGeometry::Triangle(triangle, style) => ring_asks(
                triangle.ring(),
                style,
                context,
                commands,
            ),
        }
    }
}

/// Whether `parts` holds, for each member of a styled collection that is
/// drawn or tried, what drawing it adds to the canvas, all in the one
/// context of the collection.
pub open spec fn styled_members_parts(
    geometries: Seq<StyledGeometry<'_>>,
    context: Context,
    parts: Seq<Seq<CommandView>>,
) -> bool
    decreases geometries, 1int,
{
    &&& parts.len() == attempted(styled_drawable(geometries))
    &&& parts.len() <= geometries.len()
    &&& forall|position: int|
        0 <= position < parts.len() && position < geometries.len() ==> geometries[position].asks(
            context,
            #[trigger] parts[position],
        )
}

/// Whether `commands` is what drawing the members of a styled collection
/// adds to the canvas: what each adds, in their order, up to the first that
/// is not drawable, and of that one what was drawn before it failed.
pub open spec fn styled_members_ask(
    geometries: Seq<StyledGeometry<'_>>,
    context: Context,
    commands: Seq<CommandView>,
) -> bool
    decreases geometries, 2int,
{
    exists|parts: Seq<Seq<CommandView>>|
        styled_members_parts(geometries, context, parts) && commands == #[trigger] joined(parts)
}

/// Whether `parts` holds, for each of the styled geometries that is drawn
/// or tried, what drawing it adds to the canvas when it is told its place
/// among them as its index.
pub open spec fn styled_sequence_parts(
    geometries: Seq<StyledGeometry<'_>>,
    context: Context,
    parts: Seq<Seq<CommandView>>,
) -> bool {
    &&& parts.len() == attempted(styled_drawable(geometries))
    &&& parts.len() <= geometries.len()
    &&& forall|position: int|
        0 <= position < parts.len() ==> geometries[position].asks(
            context.at(position as usize),
            #[trigger] parts[position],
        )
}

/// Whether `commands` is what drawing styled geometries one after the other
/// as the drawables of a snapshot adds to the canvas: what each adds, in
/// their order, each told its place as its index, up to the first that is
/// not drawable, and of that one what was drawn before it failed.
pub open spec fn styled_sequence_ask(
    geometries: Seq<StyledGeometry<'_>>,
    context: Context,
    commands: Seq<CommandView>,
) -> bool {
    exists|parts: Seq<Seq<CommandView>>| #[trigger]
        styled_sequence_parts(geometries, context, parts) && commands == joined(parts)
}

/// The members before the place a drawing loop has reached can all be
/// drawn.
proof fn lemma_styled_drawable_so_far(geometries: Seq<StyledGeometry<'_>>, count: int)
    requires
        0 <= count <= geometries.len(),
        all_styled_are_drawable(geometries.take(count)),
    ensures
        forall|position: int| 0 <= position < count ==> styled_drawable(geometries)[position],
    decreases count,
{
    if count > 0 {
        assert(geometries.take(count).drop_last() =~= geometries.take(count - 1));
        assert(geometries.take(count).last() == geometries[count - 1]);
        lemma_styled_drawable_so_far(geometries, count - 1);
    }
}

/// A list with a member that is not drawable is not all drawable.
proof fn lemma_undrawable_styled_member(geometries: Seq<StyledGeometry<'_>>, position: int)
    requires
        0 <= position < geometries.len(),
        !geometries[position].is_drawable(),
    ensures
        !all_styled_are_drawable(geometries),
    decreases geometries.len(),
{
    if position < geometries.len() - 1 {
        lemma_undrawable_styled_member(geometries.drop_last(), position);
    }
}

/// Draws the members of a styled collection, in their order, and stops at
/// the first that is not drawable.
fn draw_styled_members(canvas: &mut Canvas, geometries: &Vec<StyledGeometry<'_>>, context: &Context) -> (drawn:
    Result<(), SnaprError>)
    requires
        context.wf(),
    ensures
        drawn is Ok <==> all_styled_are_drawable(geometries@),
        drawn matches Err(error) ==> error is PathConstruction,
        styled_members_ask(geometries@, *context, added(*final(canvas), *old(canvas))),
        drawn is Ok && all_styled_are_plain(geometries@) ==> final(canvas)@ == old(canvas)@
            + styled_members_commands(geometries@, *context),
        drawn_onto(*final(canvas), *old(canvas)),
    decreases geometries, 1int,
{
    let mut done: usize = 0;
    let ghost mut parts: Seq<Seq<CommandView>> = Seq::empty();
    let ghost drawable = styled_drawable(geometries@);
    proof {
        lemma_added(*canvas, *old(canvas), Seq::empty());
    }
    while done < geometries.len()
        invariant
            context.wf(),
            done <= geometries.len(),
            drawable == styled_drawable(geometries@),
            parts.len() == done,
            forall|position: int|
                0 <= position < done ==> geometries@[position].asks(*context, #[trigger] parts[position]),
            added(*canvas, *old(canvas)) == joined(parts),
            all_styled_are_drawable(geometries@.take(done as int)),
            all_styled_are_plain(geometries@) ==> all_styled_are_plain(geometries@.take(done as int)),
            all_styled_are_plain(geometries@.take(done as int)) ==> canvas@ == old(canvas)@
                + styled_members_commands(geometries@.take(done as int), *context),
            drawn_onto(*canvas, *old(canvas)),
        decreases geometries.len() - done,
    {
        proof {
            let next = geometries@.take(done + 1);
            assert(next.drop_last() =~= geometries@.take(done as int));
            assert(next.last() == geometries@[done as int]);
            lemma_plain_prefix(geometries@, done + 1);
        }
        let ghost before = *canvas;
        let drawn = draw_styled_geometry(canvas, &geometries[done], context);
        proof {
            lemma_added_in_turn(*canvas, before, *old(canvas));
            lemma_joined_push(parts, added(*canvas, before));
            parts = parts.push(added(*canvas, before));
            lemma_styled_drawable_so_far(geometries@, done as int);
        }
        match drawn {
            Ok(()) => {},
            Err(error) => {
                proof {
                    lemma_undrawable_styled_member(geometries@, done as int);
                    lemma_attempted_stops(drawable, done as int);
                    assert(styled_members_parts(geometries@, *context, parts));
                }
                return Err(error);
            },
        }
        proof {
            let next = geometries@.take(done + 1);
            if all_styled_are_plain(next) {
                assert(canvas@ =~= old(canvas)@ + styled_members_commands(next, *context));
            }
        }
        done = done + 1;
    }
    proof {
        assert(geometries@.take(done as int) =~= geometries@);
        lemma_styled_drawable_so_far(geometries@, done as int);
        lemma_attempted_all(drawable, done as int);
        assert(drawable.take(done as int) =~= drawable);
        assert(styled_members_parts(geometries@, *context, parts));
    }
    Ok(())
}

/// Where all of a list are plain, so are the first `count` of them.
proof fn lemma_plain_prefix(geometries: Seq<StyledGeometry<'_>>, count: int)
    requires
        0 <= count <= geometries.len(),
    ensures
        all_styled_are_plain(geometries) ==> all_styled_are_plain(geometries.take(count)),
    decreases geometries.len(),
{
    if count == geometries.len() {
        assert(geometries.take(count) =~= geometries);
    } else {
        assert(geometries.drop_last().take(count) =~= geometries.take(count));
        lemma_plain_prefix(geometries.drop_last(), count);
    }
}

/// Draws a styled geometry of any kind.
pub fn draw_styled_geometry(canvas: &mut Canvas, geometry: &StyledGeometry<'_>, context: &Context) -> (drawn:
    Result<(), SnaprError>)
    requires
        context.wf(),
    ensures
        drawn is Ok <==> geometry.is_drawable(),
        drawn matches Err(error) ==> error is PathConstruction,
        geometry.asks(*context, added(*final(canvas), *old(canvas))),
        drawn is Ok && geometry.is_plain() ==> final(canvas)@ == old(canvas)@ + geometry.commands(
            *context,
        ),
        drawn_onto(*final(canvas), *old(canvas)),
    decreases geometry, 0int,
{
    match geometry {
        StyledGeometry::Point(point, style) => draw_styled_point(canvas, point, style, context),
        StyledGeometry::Line(line, style) => draw_styled_line(canvas, line, style, context),
        StyledGeometry::LineString(line_string, style) => draw_styled_line_string(
            canvas,
            line_string,
            style,
            context,
        ),
        StyledGeometry::Polygon(polygon, style) => draw_styled_polygon(canvas, polygon, style, context),
        StyledGeometry::MultiPoint(points, style) => draw_points(canvas, &points.0, style, context),
        StyledGeometry::MultiLineString(line_strings, style) => draw_line_strings(
            canvas,
            &line_strings.0,
            style,
            context,
        ),
        StyledGeometry::MultiPolygon(polygons, style) => draw_polygons(
            canvas,
            &polygons.0,
            style,
            context,
        ),
        StyledGeometry::GeometryCollection(members) => draw_styled_members(canvas, members, context),
        StyledGeometry::Rect(rect, style) => {
            let polygon = rect.to_polygon();
            let drawn = draw_styled_polygon(canvas, &polygon, style, context);
            proof {
                assert(is_ring_polygon(polygon, rect.ring()));
            }
            drawn
        },
        StyledGeometry::Triangle(triangle, style) => {
            let polygon = triangle.to_polygon();
            let drawn = draw_styled_polygon(canvas, &polygon, style, context);
            proof {
                assert(is_ring_polygon(polygon, triangle.ring()));
            }
            drawn
        },
    }
}

/// Draws styled geometries one after the other as the drawables of a
/// snapshot: each is told its place among them as its index.
pub fn draw_styled_sequence(
    canvas: &mut Canvas,
    geometries: &Vec<StyledGeometry<'_>>,
    context: &Context,
) -> (drawn: Result<(), SnaprError>)
    requires
        context.wf(),
    ensures
        drawn is Ok <==> all_styled_are_drawable(geometries@),
        drawn matches Err(error) ==> error is PathConstruction,
        styled_sequence_ask(geometries@, *context, added(*final(canvas), *old(canvas))),
        drawn is Ok && all_styled_are_plain(geometries@) ==> final(canvas)@ == old(canvas)@
            + styled_sequence_commands(geometries@, *context),
        drawn_onto(*final(canvas), *old(canvas)),
{
    let mut done: usize = 0;
    let ghost mut parts: Seq<Seq<CommandView>> = Seq::empty();
    let ghost drawable = styled_drawable(geometries@);
    proof {
        lemma_added(*canvas, *old(canvas), Seq::empty());
    }
    while done < geometries.len()
        invariant
            context.wf(),
            done <= geometries.len(),
            drawable == styled_drawable(geometries@),
            parts.len() == done,
            forall|position: int|
                0 <= position < done ==> geometries@[position].asks(
                    context.at(position as usize),
                    #[trigger] parts[position],
                ),
            added(*canvas, *old(canvas)) == joined(parts),
            all_styled_are_drawable(geometries@.take(done as int)),
            all_styled_are_plain(geometries@) ==> all_styled_are_plain(geometries@.take(done as int)),
            all_styled_are_plain(geometries@.take(done as int)) ==> canvas@ == old(canvas)@
                + styled_sequence_commands(geometries@.take(done as int), *context),
            drawn_onto(*canvas, *old(canvas)),
        decreases geometries.len() - done,
    {
        proof {
            let next = geometries@.take(done + 1);
            assert(next.drop_last() =~= geometries@.take(done as int));
            assert(next.last() == geometries@[done as int]);
            lemma_plain_prefix(geometries@, done + 1);
        }
        let place = context.with_index(done);
        let ghost before = *canvas;
        let drawn = draw_styled_geometry(canvas, &geometries[done], &place);
        proof {
            lemma_added_in_turn(*canvas, before, *old(canvas));
            lemma_joined_push(parts, added(*canvas, before));
            parts = parts.push(added(*canvas, before));
            lemma_styled_drawable_so_far(geometries@, done as int);
        }
        match drawn {
            Ok(()) => {},
            Err(error) => {
                proof {
                    lemma_undrawable_styled_member(geometries@, done as int);
                    lemma_attempted_stops(drawable, done as int);
                    assert(styled_sequence_parts(geometries@, *context, parts));
                }
                return Err(error);
            },
        }
        proof {
            let next = geometries@.take(done + 1);
            if all_styled_are_plain(next) {
                assert(canvas@ =~= old(canvas)@ + styled_sequence_commands(next, *context));
            }
        }
        done = done + 1;
    }
    proof {
        assert(geometries@.take(done as int) =~= geometries@);
        lemma_styled_drawable_so_far(geometries@, done as int);
        lemma_attempted_all(drawable, done as int);
        assert(drawable.take(done as int) =~= drawable);
        assert(styled_sequence_parts(geometries@, *context, parts));
    }
    Ok(())
}

/// Widens a bounding box by the positions of each of `geometries`.
fn widen_by_styled_members(start: Option<Rect>, geometries: &Vec<StyledGeometry<'_>>) -> (wider: Option<
    Rect,
>)
    ensures
        wider == bounds_from(start, styled_coords(geometries@)),
    decreases geometries, 1int,
{
    let mut bounds = start;
    let mut done: usize = 0;
    while done < geometries.len()
        invariant
            done <= geometries.len(),
            bounds == bounds_from(start, styled_coords(geometries@.take(done as int))),
        decreases geometries.len() - done,
    {
        proof {
            let next = geometries@.take(done + 1);
            assert(next.drop_last() =~= geometries@.take(done as int));
            assert(next.last() == geometries@[done as int]);
            lemma_bounds_from_concat(
                start,
                styled_coords(geometries@.take(done as int)),
                geometries@[done as int].coords(),
            );
        }
        bounds = widen_by_styled(bounds, &geometries[done]);
        done = done + 1;
    }
    proof {
        assert(geometries@.take(done as int) =~= geometries@);
    }
    bounds
}

/// Widens a bounding box by the positions of `geometry`.
fn widen_by_styled(start: Option<Rect>, geometry: &StyledGeometry<'_>) -> (wider: Option<Rect>)
    ensures
        wider == bounds_from(start, geometry.coords()),
    decreases geometry, 0int,
{
    proof {
        reveal_with_fuel(bounds_from, 4);
    }
    match geometry {
        StyledGeometry::Point(point, _) => {
            assert(seq![point.0].drop_last() =~= Seq::<Coord>::empty());
            widen(start, point.0)
        },
        StyledGeometry::Line(line, _) => {
            let ghost both = seq![line.start, line.end];
            assert(both.drop_last() =~= seq![line.start]);
            assert(seq![line.start].drop_last() =~= Seq::<Coord>::empty());
            widen(widen(start, line.start), line.end)
        },
        StyledGeometry::LineString(line_string, _) => widen_by_coords(start, &line_string.0),
        StyledGeometry::Polygon(polygon, _) => widen_by_coords(start, &polygon.exterior.0),
        StyledGeometry::MultiPoint(points, _) => widen_by_points(start, &points.0),
        StyledGeometry::MultiLineString(line_strings, _) => widen_by_line_strings(
            start,
            &line_strings.0,
        ),
        StyledGeometry::MultiPolygon(polygons, _) => widen_by_polygons(start, &polygons.0),
        StyledGeometry::GeometryCollection(members) => widen_by_styled_members(start, members),
        StyledGeometry::Rect(rect, _) => {
            let ghost both = seq![rect.min, rect.max];
            assert(both.drop_last() =~= seq![rect.min]);
            assert(seq![rect.min].drop_last() =~= Seq::<Coord>::empty());
            widen(widen(start, rect.min), rect.max)
        },
        StyledGeometry::Triangle(triangle, _) => {
            let ghost all = seq![triangle.0, triangle.1, triangle.2];
            assert(all.drop_last() =~= seq![triangle.0, triangle.1]);
            assert(seq![triangle.0, triangle.1].drop_last() =~= seq![triangle.0]);
            assert(seq![triangle.0].drop_last() =~= Seq::<Coord>::empty());
            widen(widen(widen(start, triangle.0), triangle.1), triangle.2)
        },
    }
}

/// The bounding box of several styled geometries, and none where they have
/// no position between them.
pub fn bounding_rect_of_styled(geometries: &Vec<StyledGeometry<'_>>) -> (bounds: Option<Rect>)
    ensures
        bounds == bounds_from(None, styled_coords(geometries@)),
        bounds is None <==> styled_coords(geometries@).len() == 0,
{
    proof {
        lemma_bounds_of_none(styled_coords(geometries@));
    }
    widen_by_styled_members(None, geometries)
}

/// What a styled geometry asks for does not depend on the index of the
/// context.
pub proof fn lemma_styled_commands_ignore_index(
    geometry: StyledGeometry<'_>,
    context: Context,
    index: usize,
)
    ensures
        geometry.commands(context.at(index)) == geometry.commands(context),
    decreases geometry,
{
    match geometry {
        StyledGeometry::Point(point, style) => {},
        StyledGeometry::Line(line, style) => {
            assert(context.at(index).at(0) == context.at(0));
            assert(context.at(index).at(1) == context.at(1));
        },
        StyledGeometry::LineString(line_string, style) => {
            lemma_projection_ignores_index(line_string.0@, context, index);
            lemma_vertices_ignore_index(line_string.0@, style.point_style.options, context, index);
        },
        StyledGeometry::Polygon(polygon, style) => {
            lemma_projection_ignores_index(polygon.exterior.0@, context, index);
            lemma_vertices_ignore_index(
                polygon.exterior.0@,
                style.point_style.options,
                context,
                index,
            );
        },
        StyledGeometry::MultiPoint(points, style) => {
            lemma_points_ignore_index(points.0@, style.options, context, index);
        },
        StyledGeometry::MultiLineString(line_strings, style) => {
            lemma_line_strings_ignore_index(
                line_strings.0@,
                style.options,
                style.point_style.options,
                context,
                index,
            );
        },
        StyledGeometry::MultiPolygon(polygons, style) => {
            lemma_polygons_ignore_index(
                polygons.0@,
                style.options,
                style.line_style.options,
                style.point_style.options,
                context,
                index,
            );
        },
        StyledGeometry::GeometryCollection(members) => {
            lemma_styled_members_ignore_index(members@, context, index);
        },
        StyledGeometry::Rect(rect, style) => {
            lemma_projection_ignores_index(rect.ring(), context, index);
            lemma_vertices_ignore_index(rect.ring(), style.point_style.options, context, index);
        },
        StyledGeometry::Triangle(triangle, style) => {
            lemma_projection_ignores_index(triangle.ring(), context, index);
            lemma_vertices_ignore_index(triangle.ring(), style.point_style.options, context, index);
        },
    }
}

/// What the members of a styled collection ask for does not depend on the
/// index of the context.
proof fn lemma_styled_members_ignore_index(
    geometries: Seq<StyledGeometry<'_>>,
    context: Context,
    index: usize,
)
    ensures
        styled_members_commands(geometries, context.at(index)) == styled_members_commands(
            geometries,
            context,
        ),
    decreases geometries,
{
    if geometries.len() > 0 {
        lemma_styled_members_ignore_index(geometries.drop_last(), context, index);
        lemma_styled_commands_ignore_index(geometries.last(), context, index);
    }
}

/// Styled geometries drawn one after the other ask for what they ask for
/// as the members of one collection.
proof fn lemma_styled_sequence_is_members(geometries: Seq<StyledGeometry<'_>>, context: Context)
    ensures
        styled_sequence_commands(geometries, context) == styled_members_commands(geometries, context),
    decreases geometries.len(),
{
    if geometries.len() > 0 {
        lemma_styled_sequence_is_members(geometries.drop_last(), context);
        lemma_styled_commands_ignore_index(
            geometries.last(),
            context,
            (geometries.len() - 1) as usize,
        );
    }
}

/// Drawing a collection of styled geometries asks for exactly the
/// operations, in exactly the order, that drawing its members one after the
/// other asks for.
pub proof fn lemma_styled_collection_draws_as_its_members(
    members: Vec<StyledGeometry<'_>>,
    context: Context,
)
    ensures
        StyledGeometry::GeometryCollection(members).commands(context) == styled_sequence_commands(
            members@,
            context,
        ),
{
    lemma_styled_sequence_is_members(members@, context);
}

impl<'a> Drawable for StyledGeometry<'a> {
    fn draw(&self, canvas: &mut Canvas, context: &Context) -> (drawn: Result<(), SnaprError>)
        ensures
            drawn is Ok <==> self.is_drawable(),
            drawn matches Err(error) ==> error is PathConstruction,
            self.asks(*context, added(*final(canvas), *old(canvas))),
            drawn is Ok && self.is_plain() ==> final(canvas)@ == old(canvas)@ + self.commands(*context),
    {
        draw_styled_geometry(canvas, self, context)
    }
}

} // verus!
