//! The drawing routines and the styles of each kind of geometry, and the
//! routine that draws a geometry of any kind in the style that its kind has
//! unless told otherwise.

use vstd::prelude::*;
use crate::drawing::canvas::Canvas;
use crate::drawing::canvas::CommandView;
use crate::drawing::Context;
use crate::drawing::Drawable;
use crate::drawing::drawn_onto;
use crate::drawing::fully_drawn;
use crate::drawing::geometry::line::all_drawable;
use crate::drawing::geometry::line::line_commands;
use crate::drawing::geometry::line::line_string_commands;
use crate::drawing::geometry::line::line_strings_commands;
use crate::drawing::geometry::line::line_strings_drawable;
use crate::drawing::geometry::line::LineOptions;
use crate::drawing::geometry::line::projected;
use crate::drawing::geometry::line::vertices_commands;
use crate::drawing::geometry::point::point_commands;
use crate::drawing::geometry::point::PointOptions;
use crate::drawing::geometry::point::points_commands;
use crate::drawing::geometry::polygon::all_outlined;
use crate::drawing::geometry::polygon::polygon_commands;
use crate::drawing::geometry::polygon::PolygonOptions;
use crate::drawing::geometry::polygon::polygons_commands;
use crate::drawing::geometry::polygon::polygons_drawable;
use crate::drawing::lemma_attempted_all;
use crate::error::SnaprError;
use crate::geometry::Geometry;
use crate::geometry::GeometryCollection;
use crate::geometry::LineString;
use crate::geometry::Point;
use crate::geometry::Polygon;
use crate::projection::Coord;

pub mod line;
pub mod point;
pub mod polygon;
pub mod styled;

verus! {

impl Geometry {
    /// Whether every path that the geometry is made of has the points that
    /// a path needs: two for a line string, one for the exterior ring of a
    /// polygon.
    pub open spec fn is_drawable(self) -> bool
        decreases self,
    {
        match self {
            Geometry::LineString(line_string) => line_string.0@.len() >= 2,
            Geometry::Polygon(polygon) => polygon.exterior.0@.len() >= 1,
            Geometry::MultiLineString(line_strings) => all_drawable(line_strings.0@),
            Geometry::MultiPolygon(polygons) => all_outlined(polygons.0@),
            Geometry::GeometryCollection(collection) => all_are_drawable(collection.0@),
            _ => true,
        }
    }

    /// What drawing the geometry asks for, each kind in the style that it
    /// has unless told otherwise.  A collection asks for what its members
    /// ask for, in their order.
    pub open spec fn commands(self, context: Context) -> Seq<CommandView>
        decreases self,
    {
        match self {
            Geometry::Point(point) => point_commands(point, PointOptions::standard(), context),
            Geometry::Line(line) => line_commands(
                line,
                LineOptions::standard(),
                PointOptions::standard(),
                context,
            ),
            Geometry::LineString(line_string) => line_string_commands(
                line_string.0@,
                LineOptions::standard(),
                PointOptions::standard(),
                context,
            ),
            Geometry::Polygon(polygon) => polygon_commands(
                polygon.exterior.0@,
                PolygonOptions::standard(),
                LineOptions::standard(),
                PointOptions::standard(),
                context,
            ),
            Geometry::MultiPoint(points) => points_commands(
                points.0@,
                PointOptions::standard(),
                context,
            ),
            Geometry::MultiLineString(line_strings) => line_strings_commands(
                line_strings.0@,
                LineOptions::standard(),
                PointOptions::standard(),
                context,
            ),
            Geometry::MultiPolygon(polygons) => polygons_commands(
                polygons.0@,
                PolygonOptions::standard(),
                LineOptions::standard(),
                PointOptions::standard(),
                context,
            ),
            Geometry::GeometryCollection(collection) => members_commands(collection.0@, context),
            Geometry::Rect(rect) => polygon_commands(
                rect.ring(),
                PolygonOptions::standard(),
                LineOptions::standard(),
                PointOptions::standard(),
                context,
            ),
            Geometry::Triangle(triangle) => polygon_commands(
                triangle.ring(),
                PolygonOptions::standard(),
                LineOptions::standard(),
                PointOptions::standard(),
                context,
            ),
        }
    }
}

/// Whether each of the geometries is drawable.
pub open spec fn all_are_drawable(geometries: Seq<Geometry>) -> bool
    decreases geometries,
{
    if geometries.len() == 0 {
        true
    } else {
        all_are_drawable(geometries.drop_last()) && geometries.last().is_drawable()
    }
}

/// What drawing the members of a collection asks for: what each asks for,
/// in their order, all in the one context of the collection.
pub open spec fn members_commands(geometries: Seq<Geometry>, context: Context) -> Seq<CommandView>
    decreases geometries,
{
    if geometries.len() == 0 {
        Seq::empty()
    } else {
        members_commands(geometries.drop_last(), context) + geometries.last().commands(context)
    }
}

/// What drawing geometries one after the other as the drawables of a
/// snapshot asks for: what each asks for, in their order, each told its
/// place among them as its index.
pub open spec fn sequence_commands(geometries: Seq<Geometry>, context: Context) -> Seq<CommandView>
    decreases geometries.len(),
{
    if geometries.len() == 0 {
        Seq::empty()
    } else {
        sequence_commands(geometries.drop_last(), context) + geometries.last().commands(
            context.at((geometries.len() - 1) as usize),
        )
    }
}

impl Geometry {
    /// What drawing the geometry leaves on the canvas, whether or not it
    /// fails: all that it asks for where it is drawable, and else what was
    /// drawn before the first path that cannot be made.
    pub open spec fn drawn(self, context: Context) -> Seq<CommandView>
        decreases self,
    {
        match self {
            Geometry::LineString(line_string) => if line_string.0@.len() >= 2 {
                self.commands(context)
            } else {
                Seq::empty()
            },
            Geometry::Polygon(polygon) => if polygon.exterior.0@.len() >= 1 {
                self.commands(context)
            } else {
                Seq::empty()
            },
            Geometry::MultiLineString(line_strings) => line_strings_commands(
                line_strings.0@.take(fully_drawn(line_strings_drawable(line_strings.0@))),
                LineOptions::standard(),
                PointOptions::standard(),
                context,
            ),
            Geometry::MultiPolygon(polygons) => polygons_commands(
                polygons.0@.take(fully_drawn(polygons_drawable(polygons.0@))),
                PolygonOptions::standard(),
                LineOptions::standard(),
                PointOptions::standard(),
                context,
            ),
            Geometry::GeometryCollection(collection) => members_drawn(collection.0@, context),
            _ => self.commands(context),
        }
    }
}

/// What drawing the members of a collection leaves on the canvas, whether
/// or not it fails: what every member before the first that is not drawable
/// asks for, and of that one what was drawn before it failed.
pub open spec fn members_drawn(geometries: Seq<Geometry>, context: Context) -> Seq<CommandView>
    decreases geometries,
{
    if geometries.len() == 0 {
        Seq::empty()
    } else if all_are_drawable(geometries.drop_last()) {
        members_commands(geometries.drop_last(), context) + geometries.last().drawn(context)
    } else {
        members_drawn(geometries.drop_last(), context)
    }
}

/// What drawing geometries one after the other as the drawables of a
/// snapshot leaves on the canvas, whether or not it fails.
pub open spec fn sequence_drawn(geometries: Seq<Geometry>, context: Context) -> Seq<CommandView>
    decreases geometries.len(),
{
    if geometries.len() == 0 {
        Seq::empty()
    } else if all_are_drawable(geometries.drop_last()) {
        sequence_commands(geometries.drop_last(), context) + geometries.last().drawn(
            context.at((geometries.len() - 1) as usize),
        )
    } else {
        sequence_drawn(geometries.drop_last(), context)
    }
}

/// Where all the line strings make a path, all are drawn in full.
proof fn lemma_line_strings_all_drawn(line_strings: Seq<LineString>)
    requires
        all_drawable(line_strings),
    ensures
        line_strings.take(fully_drawn(line_strings_drawable(line_strings))) == line_strings,
{
    let drawable = line_strings_drawable(line_strings);
    lemma_attempted_all(drawable, drawable.len() as int);
    assert(drawable.take(drawable.len() as int) =~= drawable);
    assert(line_strings.take(line_strings.len() as int) =~= line_strings);
}

/// Where all the polygons make a path, all are drawn in full.
proof fn lemma_polygons_all_drawn(polygons: Seq<Polygon>)
    requires
        all_outlined(polygons),
    ensures
        polygons.take(fully_drawn(polygons_drawable(polygons))) == polygons,
{
    let drawable = polygons_drawable(polygons);
    lemma_attempted_all(drawable, drawable.len() as int);
    assert(drawable.take(drawable.len() as int) =~= drawable);
    assert(polygons.take(polygons.len() as int) =~= polygons);
}

/// A drawable geometry leaves on the canvas all that it asks for.
pub proof fn lemma_drawable_is_drawn(geometry: Geometry, context: Context)
    requires
        geometry.is_drawable(),
    ensures
        geometry.drawn(context) == geometry.commands(context),
    decreases geometry, 0int,
{
    match geometry {
        Geometry::MultiLineString(line_strings) => {
            lemma_line_strings_all_drawn(line_strings.0@);
        },
        Geometry::MultiPolygon(polygons) => {
            lemma_polygons_all_drawn(polygons.0@);
        },
        Geometry::GeometryCollection(collection) => {
            lemma_drawable_members_are_drawn(collection.0@, context);
        },
        _ => {},
    }
}

/// Drawable members leave on the canvas all that they ask for.
pub proof fn lemma_drawable_members_are_drawn(geometries: Seq<Geometry>, context: Context)
    requires
        all_are_drawable(geometries),
    ensures
        members_drawn(geometries, context) == members_commands(geometries, context),
    decreases geometries, 1int,
{
    if geometries.len() > 0 {
        lemma_drawable_is_drawn(geometries.last(), context);
    }
}

/// Drawable geometries drawn one after the other leave on the canvas all
/// that they ask for.
pub proof fn lemma_drawable_sequence_is_drawn(geometries: Seq<Geometry>, context: Context)
    requires
        all_are_drawable(geometries),
    ensures
        sequence_drawn(geometries, context) == sequence_commands(geometries, context),
{
    if geometries.len() > 0 {
        lemma_drawable_is_drawn(geometries.last(), context.at((geometries.len() - 1) as usize));
    }
}

/// Where the member at `position` is the first that is not drawable, the
/// collection leaves on the canvas what the members before it ask for and
/// what was drawn of that member.
pub proof fn lemma_members_drawn_stops(geometries: Seq<Geometry>, context: Context, position: int)
    requires
        0 <= position < geometries.len(),
        all_are_drawable(geometries.take(position)),
        !geometries[position].is_drawable(),
    ensures
        members_drawn(geometries, context) == members_commands(geometries.take(position), context)
            + geometries[position].drawn(context),
    decreases geometries.len(),
{
    let before = geometries.drop_last();
    if position == geometries.len() - 1 {
        assert(geometries.take(position) =~= before);
    } else {
        lemma_undrawable_member(before, position);
        assert(before.take(position) =~= geometries.take(position));
        lemma_members_drawn_stops(before, context, position);
    }
}

/// Where the geometry at `position` is the first that is not drawable, the
/// sequence leaves on the canvas what the geometries before it ask for and
/// what was drawn of that geometry.
pub proof fn lemma_sequence_drawn_stops(geometries: Seq<Geometry>, context: Context, position: int)
    requires
        0 <= position < geometries.len(),
        all_are_drawable(geometries.take(position)),
        !geometries[position].is_drawable(),
    ensures
        sequence_drawn(geometries, context) == sequence_commands(geometries.take(position), context)
            + geometries[position].drawn(context.at(position as usize)),
    decreases geometries.len(),
{
    let before = geometries.drop_last();
    if position == geometries.len() - 1 {
        assert(geometries.take(position) =~= before);
    } else {
        lemma_undrawable_member(before, position);
        assert(before.take(position) =~= geometries.take(position));
        lemma_sequence_drawn_stops(before, context, position);
    }
}

/// Draws the members of a collection, in their order, and stops at the
/// first that is not drawable.
fn draw_members(canvas: &mut Canvas, geometries: &Vec<Geometry>, context: &Context) -> (drawn: Result<
    (),
    SnaprError,
>)
    requires
        context.wf(),
    ensures
        drawn is Ok <==> all_are_drawable(geometries@),
        drawn matches Err(error) ==> error is PathConstruction,
        drawn is Ok ==> final(canvas)@ == old(canvas)@ + members_commands(geometries@, *context),
        final(canvas)@ == old(canvas)@ + members_drawn(geometries@, *context),
        drawn_onto(*final(canvas), *old(canvas)),
    decreases geometries, 1int,
{
    let mut done: usize = 0;
    while done < geometries.len()
        invariant
            context.wf(),
            done <= geometries.len(),
            all_are_drawable(geometries@.take(done as int)),
            canvas@ == old(canvas)@ + members_commands(geometries@.take(done as int), *context),
            drawn_onto(*canvas, *old(canvas)),
        decreases geometries.len() - done,
    {
        proof {
            let next = geometries@.take(done + 1);
            assert(next.drop_last() =~= geometries@.take(done as int));
            assert(next.last() == geometries@[done as int]);
        }
        match draw_geometry(canvas, &geometries[done], context) {
            Ok(()) => {},
            Err(error) => {
                proof {
                    lemma_undrawable_member(geometries@, done as int);
                    lemma_members_drawn_stops(geometries@, *context, done as int);
                    assert(canvas@ =~= old(canvas)@ + members_drawn(geometries@, *context));
                }
                return Err(error);
            },
        }
        proof {
            let next = geometries@.take(done + 1);
            assert(canvas@ =~= old(canvas)@ + members_commands(next, *context));
        }
        done = done + 1;
    }
    proof {
        assert(geometries@.take(done as int) =~= geometries@);
        lemma_drawable_members_are_drawn(geometries@, *context);
    }
    Ok(())
}

/// A list with a member that is not drawable is not all drawable.
proof fn lemma_undrawable_member(geometries: Seq<Geometry>, position: int)
    requires
        0 <= position < geometries.len(),
        !geometries[position].is_drawable(),
    ensures
        !all_are_drawable(geometries),
    decreases geometries.len(),
{
    if position < geometries.len() - 1 {
        lemma_undrawable_member(geometries.drop_last(), position);
    }
}

/// Draws a geometry of any kind, each kind in the style that it has unless
/// told otherwise.
pub fn draw_geometry(canvas: &mut Canvas, geometry: &Geometry, context: &Context) -> (drawn: Result<
    (),
    SnaprError,
>)
    requires
        context.wf(),
    ensures
        drawn is Ok <==> geometry.is_drawable(),
        drawn matches Err(error) ==> error is PathConstruction,
        drawn is Ok ==> final(canvas)@ == old(canvas)@ + geometry.commands(*context),
        final(canvas)@ == old(canvas)@ + geometry.drawn(*context),
        drawn_onto(*final(canvas), *old(canvas)),
    decreases geometry, 0int,
{
    let drawn = match geometry {
        Geometry::Point(point) => point.draw(canvas, context),
        Geometry::Line(line) => line.draw(canvas, context),
        Geometry::LineString(line_string) => line_string.draw(canvas, context),
        Geometry::Polygon(polygon) => polygon.draw(canvas, context),
        Geometry::MultiPoint(points) => points.draw(canvas, context),
        Geometry::MultiLineString(line_strings) => line_strings.draw(canvas, context),
        Geometry::MultiPolygon(polygons) => polygons.draw(canvas, context),
        Geometry::GeometryCollection(collection) => draw_members(canvas, &collection.0, context),
        Geometry::Rect(rect) => rect.draw(canvas, context),
        Geometry::Triangle(triangle) => triangle.draw(canvas, context),
    };
    proof {
        assert(canvas@ =~= old(canvas)@ + geometry.drawn(*context));
    }
    drawn
}

/// Draws geometries one after the other as the drawables of a snapshot:
/// each is told its place among them as its index.
pub fn draw_sequence(canvas: &mut Canvas, geometries: &Vec<Geometry>, context: &Context) -> (drawn:
    Result<(), SnaprError>)
    requires
        context.wf(),
    ensures
        drawn is Ok <==> all_are_drawable(geometries@),
        drawn matches Err(error) ==> error is PathConstruction,
        drawn is Ok ==> final(canvas)@ == old(canvas)@ + sequence_commands(geometries@, *context),
        final(canvas)@ == old(canvas)@ + sequence_drawn(geometries@, *context),
        drawn_onto(*final(canvas), *old(canvas)),
{
    let mut done: usize = 0;
    while done < geometries.len()
        invariant
            context.wf(),
            done <= geometries.len(),
            all_are_drawable(geometries@.take(done as int)),
            canvas@ == old(canvas)@ + sequence_commands(geometries@.take(done as int), *context),
            drawn_onto(*canvas, *old(canvas)),
        decreases geometries.len() - done,
    {
        proof {
            let next = geometries@.take(done + 1);
            assert(next.drop_last() =~= geometries@.take(done as int));
            assert(next.last() == geometries@[done as int]);
        }
        let place = context.with_index(done);
        match draw_geometry(canvas, &geometries[done], &place) {
            Ok(()) => {},
            Err(error) => {
                proof {
                    lemma_undrawable_member(geometries@, done as int);
                    lemma_sequence_drawn_stops(geometries@, *context, done as int);
                    assert(canvas@ =~= old(canvas)@ + sequence_drawn(geometries@, *context));
                }
                return Err(error);
            },
        }
        proof {
            let next = geometries@.take(done + 1);
            assert(canvas@ =~= old(canvas)@ + sequence_commands(next, *context));
        }
        done = done + 1;
    }
    proof {
        assert(geometries@.take(done as int) =~= geometries@);
        lemma_drawable_sequence_is_drawn(geometries@, *context);
    }
    Ok(())
}

impl Drawable for Geometry {
    fn draw(&self, canvas: &mut Canvas, context: &Context) -> (drawn: Result<(), SnaprError>)
        ensures
            drawn is Ok <==> self.is_drawable(),
            drawn matches Err(error) ==> error is PathConstruction,
            drawn is Ok ==> final(canvas)@ == old(canvas)@ + self.commands(*context),
            final(canvas)@ == old(canvas)@ + self.drawn(*context),
    {
        draw_geometry(canvas, self, context)
    }
}

impl Drawable for GeometryCollection {
    fn draw(&self, canvas: &mut Canvas, context: &Context) -> (drawn: Result<(), SnaprError>)
        ensures
            drawn is Ok <==> all_are_drawable(self.0@),
            drawn matches Err(error) ==> error is PathConstruction,
            drawn is Ok ==> final(canvas)@ == old(canvas)@ + members_commands(self.0@, *context),
            final(canvas)@ == old(canvas)@ + members_drawn(self.0@, *context),
    {
        draw_members(canvas, &self.0, context)
    }
}

/// The pixels of positions do not depend on the index of the context.
proof fn lemma_projection_ignores_index(coords: Seq<Coord>, context: Context, index: usize)
    ensures
        projected(coords, context.at(index)) == projected(coords, context),
{
    assert(projected(coords, context.at(index)) =~= projected(coords, context));
}

/// What points ask for does not depend on the index of the context.
proof fn lemma_points_ignore_index(
    points: Seq<Point>,
    options: PointOptions,
    context: Context,
    index: usize,
)
    ensures
        points_commands(points, options, context.at(index)) == points_commands(points, options, context),
    decreases points.len(),
{
    if points.len() > 0 {
        lemma_points_ignore_index(points.drop_last(), options, context, index);
    }
}

/// What the vertices of a path ask for does not depend on the index of the
/// context: each vertex is told its own place.
proof fn lemma_vertices_ignore_index(
    coords: Seq<Coord>,
    options: PointOptions,
    context: Context,
    index: usize,
)
    ensures
        vertices_commands(coords, options, context.at(index)) == vertices_commands(
            coords,
            options,
            context,
        ),
    decreases coords.len(),
{
    if coords.len() > 0 {
        lemma_vertices_ignore_index(coords.drop_last(), options, context, index);
        assert(context.at(index).at((coords.len() - 1) as usize) == context.at(
            (coords.len() - 1) as usize,
        ));
    }
}

/// What line strings ask for does not depend on the index of the context.
proof fn lemma_line_strings_ignore_index(
    line_strings: Seq<LineString>,
    options: LineOptions,
    point_options: PointOptions,
    context: Context,
    index: usize,
)
    ensures
        line_strings_commands(line_strings, options, point_options, context.at(index))
            == line_strings_commands(line_strings, options, point_options, context),
    decreases line_strings.len(),
{
    if line_strings.len() > 0 {
        lemma_line_strings_ignore_index(
            line_strings.drop_last(),
            options,
            point_options,
            context,
            index,
        );
        lemma_projection_ignores_index(line_strings.last().0@, context, index);
        lemma_vertices_ignore_index(line_strings.last().0@, point_options, context, index);
    }
}

/// What polygons ask for does not depend on the index of the context.
proof fn lemma_polygons_ignore_index(
    polygons: Seq<Polygon>,
    options: PolygonOptions,
    line_options: LineOptions,
    point_options: PointOptions,
    context: Context,
    index: usize,
)
    ensures
        polygons_commands(polygons, options, line_options, point_options, context.at(index))
            == polygons_commands(polygons, options, line_options, point_options, context),
    decreases polygons.len(),
{
    if polygons.len() > 0 {
        lemma_polygons_ignore_index(
            polygons.drop_last(),
            options,
            line_options,
            point_options,
            context,
            index,
        );
        lemma_projection_ignores_index(polygons.last().exterior.0@, context, index);
        lemma_vertices_ignore_index(polygons.last().exterior.0@, point_options, context, index);
    }
}

/// What a geometry asks for in the style of its kind does not depend on the
/// index of the context.
pub proof fn lemma_commands_ignore_index(geometry: Geometry, context: Context, index: usize)
    ensures
        geometry.commands(context.at(index)) == geometry.commands(context),
    decreases geometry,
{
    match geometry {
        Geometry::Point(point) => {},
        Geometry::Line(line) => {
            assert(context.at(index).at(0) == context.at(0));
            assert(context.at(index).at(1) == context.at(1));
        },
        Geometry::LineString(line_string) => {
            lemma_projection_ignores_index(line_string.0@, context, index);
            lemma_vertices_ignore_index(line_string.0@, PointOptions::standard(), context, index);
        },
        Geometry::Polygon(polygon) => {
            lemma_projection_ignores_index(polygon.exterior.0@, context, index);
            lemma_vertices_ignore_index(polygon.exterior.0@, PointOptions::standard(), context, index);
        },
        Geometry::MultiPoint(points) => {
            lemma_points_ignore_index(points.0@, PointOptions::standard(), context, index);
        },
        Geometry::MultiLineString(line_strings) => {
            lemma_line_strings_ignore_index(
                line_strings.0@,
                LineOptions::standard(),
                PointOptions::standard(),
                context,
                index,
            );
        },
        Geometry::MultiPolygon(polygons) => {
            lemma_polygons_ignore_index(
                polygons.0@,
                PolygonOptions::standard(),
                LineOptions::standard(),
                PointOptions::standard(),
                context,
                index,
            );
        },
        Geometry::GeometryCollection(collection) => {
            lemma_members_ignore_index(collection.0@, context, index);
        },
        Geometry::Rect(rect) => {
            lemma_projection_ignores_index(rect.ring(), context, index);
            lemma_vertices_ignore_index(rect.ring(), PointOptions::standard(), context, index);
        },
        Geometry::Triangle(triangle) => {
            lemma_projection_ignores_index(triangle.ring(), context, index);
            lemma_vertices_ignore_index(triangle.ring(), PointOptions::standard(), context, index);
        },
    }
}

/// What the members of a collection ask for does not depend on the index
/// of the context.
proof fn lemma_members_ignore_index(geometries: Seq<Geometry>, context: Context, index: usize)
    ensures
        members_commands(geometries, context.at(index)) == members_commands(geometries, context),
    decreases geometries,
{
    if geometries.len() > 0 {
        lemma_members_ignore_index(geometries.drop_last(), context, index);
        lemma_commands_ignore_index(geometries.last(), context, index);
    }
}

/// Geometries drawn one after the other ask for what they ask for as the
/// members of one collection.
proof fn lemma_sequence_is_members(geometries: Seq<Geometry>, context: Context)
    ensures
        sequence_commands(geometries, context) == members_commands(geometries, context),
    decreases geometries.len(),
{
    if geometries.len() > 0 {
        lemma_sequence_is_members(geometries.drop_last(), context);
        lemma_commands_ignore_index(geometries.last(), context, (geometries.len() - 1) as usize);
    }
}

/// Drawing a collection asks for exactly the operations, in exactly the
/// order, that drawing its members one after the other asks for.
pub proof fn lemma_collection_draws_as_its_members(collection: GeometryCollection, context: Context)
    ensures
        Geometry::GeometryCollection(collection).commands(context) == sequence_commands(
            collection.0@,
            context,
        ),
{
    lemma_sequence_is_members(collection.0@, context);
}

/// What a geometry leaves on the canvas, whether or not it fails, does not
/// depend on the index of the context.
pub proof fn lemma_drawn_ignores_index(geometry: Geometry, context: Context, index: usize)
    ensures
        geometry.drawn(context.at(index)) == geometry.drawn(context),
    decreases geometry, 0int,
{
    match geometry {
        Geometry::MultiLineString(line_strings) => {
            lemma_line_strings_ignore_index(
                line_strings.0@.take(fully_drawn(line_strings_drawable(line_strings.0@))),
                LineOptions::standard(),
                PointOptions::standard(),
                context,
                index,
            );
        },
        Geometry::MultiPolygon(polygons) => {
            lemma_polygons_ignore_index(
                polygons.0@.take(fully_drawn(polygons_drawable(polygons.0@))),
                PolygonOptions::standard(),
                LineOptions::standard(),
                PointOptions::standard(),
                context,
                index,
            );
        },
        Geometry::GeometryCollection(collection) => {
            lemma_members_drawn_ignore_index(collection.0@, context, index);
        },
        _ => {
            lemma_commands_ignore_index(geometry, context, index);
        },
    }
}

/// What the members of a collection leave on the canvas does not depend on
/// the index of the context.
proof fn lemma_members_drawn_ignore_index(geometries: Seq<Geometry>, context: Context, index: usize)
    ensures
        members_drawn(geometries, context.at(index)) == members_drawn(geometries, context),
    decreases geometries, 1int,
{
    if geometries.len() > 0 {
        if all_are_drawable(geometries.drop_last()) {
            lemma_members_ignore_index(geometries.drop_last(), context, index);
            lemma_drawn_ignores_index(geometries.last(), context, index);
        } else {
            lemma_members_drawn_ignore_index(geometries.drop_last(), context, index);
        }
    }
}

/// Geometries drawn one after the other leave on the canvas what they leave
/// as the members of one collection.
proof fn lemma_sequence_drawn_is_members_drawn(geometries: Seq<Geometry>, context: Context)
    ensures
        sequence_drawn(geometries, context) == members_drawn(geometries, context),
    decreases geometries.len(),
{
    if geometries.len() > 0 {
        if all_are_drawable(geometries.drop_last()) {
            lemma_sequence_is_members(geometries.drop_last(), context);
            lemma_drawn_ignores_index(
                geometries.last(),
                context,
                (geometries.len() - 1) as usize,
            );
        } else {
            lemma_sequence_drawn_is_members_drawn(geometries.drop_last(), context);
        }
    }
}

/// Drawing a collection leaves on the canvas exactly what drawing its
/// members one after the other leaves, also where a member fails: the
/// members before it in full, what was drawn of it, and nothing after.
pub proof fn lemma_collection_leaves_what_its_members_leave(collection: GeometryCollection, context: Context)
    ensures
        Geometry::GeometryCollection(collection).drawn(context) == sequence_drawn(
            collection.0@,
            context,
        ),
        Geometry::GeometryCollection(collection).is_drawable() == all_are_drawable(collection.0@),
{
    lemma_sequence_drawn_is_members_drawn(collection.0@, context);
}

} // verus!
