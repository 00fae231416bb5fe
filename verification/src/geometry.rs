//! The geometries that a snapshot can show.  Their coordinates are positions
//! on the map as the projector takes them.

use vstd::prelude::*;
use crate::projection::Coord;

verus! {

/// A single position.
#[derive(Clone, Copy, Debug, PartialEq, Eq, Structural)]
pub struct Point(pub Coord);

/// A straight segment between two positions.
#[derive(Clone, Copy, Debug, PartialEq, Eq, Structural)]
pub struct Line {
    pub start: Coord,
    pub end: Coord,
}

/// A path through positions, in their order.
#[derive(Debug, PartialEq, Eq)]
pub struct LineString(pub Vec<Coord>);

/// An area bounded by a ring; the rings of its holes are carried along but
/// not drawn.
#[derive(Debug, PartialEq, Eq)]
pub struct Polygon {
    pub exterior: LineString,
    pub interiors: Vec<LineString>,
}

/// Several positions.
#[derive(Debug, PartialEq, Eq)]
pub struct MultiPoint(pub Vec<Point>);

/// Several paths.
#[derive(Debug, PartialEq, Eq)]
pub struct MultiLineString(pub Vec<LineString>);

/// Several areas.
#[derive(Debug, PartialEq, Eq)]
pub struct MultiPolygon(pub Vec<Polygon>);

/// An axis-aligned rectangle, given by its corner of least and its corner of
/// greatest coordinates.
#[derive(Clone, Copy, Debug, PartialEq, Eq, Structural)]
pub struct Rect {
    pub min: Coord,
    pub max: Coord,
}

/// A triangle, given by its corners.
#[derive(Clone, Copy, Debug, PartialEq, Eq, Structural)]
pub struct Triangle(pub Coord, pub Coord, pub Coord);

/// Geometries of any kinds, in their order.
#[derive(Debug, PartialEq, Eq)]
pub struct GeometryCollection(pub Vec<Geometry>);

/// A geometry of any kind.
#[derive(Debug, PartialEq, Eq)]
pub enum Geometry {
    Point(Point),
    Line(Line),
    LineString(LineString),
    Polygon(Polygon),
    MultiPoint(MultiPoint),
    MultiLineString(MultiLineString),
    MultiPolygon(MultiPolygon),
    GeometryCollection(GeometryCollection),
    Rect(Rect),
    Triangle(Triangle),
}

impl Rect {
    /// The ring of the rectangle: its four corners, clockwise on the map
    /// from the corner of least coordinates, and that corner once more.
    pub open spec fn ring(self) -> Seq<Coord> {
        seq![
            self.min,
            Coord { x: self.max.x, y: self.min.y },
            self.max,
            Coord { x: self.min.x, y: self.max.y },
            self.min,
        ]
    }

    /// The rectangle as a polygon without holes.
    pub fn to_polygon(&self) -> (polygon: Polygon)
        ensures
            polygon.exterior.0@ == self.ring(),
            polygon.interiors@.len() == 0,
    {
        let mut ring: Vec<Coord> = Vec::new();
        ring.push(self.min);
        ring.push(Coord { x: self.max.x, y: self.min.y });
        ring.push(self.max);
        ring.push(Coord { x: self.min.x, y: self.max.y });
        ring.push(self.min);
        assert(ring@ =~= self.ring());
        Polygon { exterior: LineString(ring), interiors: Vec::new() }
    }
}

impl Triangle {
    /// The ring of the triangle: its three corners in their order, and the
    /// first once more.
    pub open spec fn ring(self) -> Seq<Coord> {
        seq![self.0, self.1, self.2, self.0]
    }

    /// The triangle as a polygon without holes.
    pub fn to_polygon(&self) -> (polygon: Polygon)
        ensures
            polygon.exterior.0@ == self.ring(),
            polygon.interiors@.len() == 0,
    {
        let mut ring: Vec<Coord> = Vec::new();
        ring.push(self.0);
        ring.push(self.1);
        ring.push(self.2);
        ring.push(self.0);
        assert(ring@ =~= self.ring());
        Polygon { exterior: LineString(ring), interiors: Vec::new() }
    }
}

/// A bounding box widened so that it holds `coord` too; the box of `coord`
/// alone where there was none.
pub open spec fn widened(bounds: Option<Rect>, coord: Coord) -> Option<Rect> {
    match bounds {
        None => Some(Rect { min: coord, max: coord }),
        Some(rect) => Some(
            Rect {
                min: Coord {
                    x: if coord.x < rect.min.x {
                        coord.x
                    } else {
                        rect.min.x
                    },
                    y: if coord.y < rect.min.y {
                        coord.y
                    } else {
                        rect.min.y
                    },
                },
                max: Coord {
                    x: if coord.x > rect.max.x {
                        coord.x
                    } else {
                        rect.max.x
                    },
                    y: if coord.y > rect.max.y {
                        coord.y
                    } else {
                        rect.max.y
                    },
                },
            },
        ),
    }
}

/// A bounding box widened by each of `coords`.
pub open spec fn bounds_from(start: Option<Rect>, coords: Seq<Coord>) -> Option<Rect>
    decreases coords.len(),
{
    if coords.len() == 0 {
        start
    } else {
        widened(bounds_from(start, coords.drop_last()), coords.last())
    }
}

/// The positions of points, in their order.
pub open spec fn points_coords(points: Seq<Point>) -> Seq<Coord> {
    Seq::new(points.len(), |position: int| points[position].0)
}

/// The positions of line strings, one line string after the other.
pub open spec fn line_strings_coords(line_strings: Seq<LineString>) -> Seq<Coord>
    decreases line_strings.len(),
{
    if line_strings.len() == 0 {
        Seq::empty()
    } else {
        line_strings_coords(line_strings.drop_last()) + line_strings.last().0@
    }
}

/// The positions of the exterior rings of polygons, one polygon after the
/// other.
pub open spec fn polygons_coords(polygons: Seq<Polygon>) -> Seq<Coord>
    decreases polygons.len(),
{
    if polygons.len() == 0 {
        Seq::empty()
    } else {
        polygons_coords(polygons.drop_last()) + polygons.last().exterior.0@
    }
}

/// The positions of geometries, one geometry after the other.
pub open spec fn geometries_coords(geometries: Seq<Geometry>) -> Seq<Coord>
    decreases geometries,
{
    if geometries.len() == 0 {
        Seq::empty()
    } else {
        geometries_coords(geometries.drop_last()) + geometries.last().coords()
    }
}

impl Geometry {
    /// The positions that bound the geometry: its points, the points of its
    /// paths, the points of the exterior rings of its polygons, the corners
    /// of its rectangles and triangles.
    pub open spec fn coords(self) -> Seq<Coord>
        decreases self,
    {
        match self {
            Geometry::Point(point) => seq![point.0],
            Geometry::Line(line) => seq![line.start, line.end],
            Geometry::LineString(line_string) => line_string.0@,
            Geometry::Polygon(polygon) => polygon.exterior.0@,
            Geometry::MultiPoint(points) => points_coords(points.0@),
            Geometry::MultiLineString(line_strings) => line_strings_coords(line_strings.0@),
            Geometry::MultiPolygon(polygons) => polygons_coords(polygons.0@),
            Geometry::GeometryCollection(collection) => geometries_coords(collection.0@),
            Geometry::Rect(rect) => seq![rect.min, rect.max],
            Geometry::Triangle(triangle) => seq![triangle.0, triangle.1, triangle.2],
        }
    }

    /// The bounding box of the geometry: the least rectangle that holds all
    /// the positions that bound it, and none where there is no position.
    pub fn bounding_rect(&self) -> (bounds: Option<Rect>)
        ensures
            bounds == bounds_from(None, self.coords()),
            bounds is None <==> self.coords().len() == 0,
    {
        proof {
            lemma_bounds_of_none(self.coords());
        }
        widen_by_geometry(None, self)
    }
}

/// Widening by two lists in turn is widening by the one after the other.
pub proof fn lemma_bounds_from_concat(start: Option<Rect>, first: Seq<Coord>, second: Seq<Coord>)
    ensures
        bounds_from(start, first + second) == bounds_from(bounds_from(start, first), second),
    decreases second.len(),
{
    if second.len() == 0 {
        assert(first + second =~= first);
    } else {
        assert((first + second).drop_last() =~= first + second.drop_last());
        assert((first + second).last() == second.last());
        lemma_bounds_from_concat(start, first, second.drop_last());
    }
}

/// There is a bounding box exactly where there is a position.
pub proof fn lemma_bounds_of_none(coords: Seq<Coord>)
    ensures
        bounds_from(None, coords) is None <==> coords.len() == 0,
    decreases coords.len(),
{
    if coords.len() > 0 {
        lemma_bounds_of_none(coords.drop_last());
    }
}

/// The bounding box of positions holds each of them.
pub proof fn lemma_bounds_hold_coords(coords: Seq<Coord>, position: int)
    requires
        0 <= position < coords.len(),
    ensures
        bounds_from(None, coords) matches Some(rect) && rect.min.x <= coords[position].x <= rect.max.x
            && rect.min.y <= coords[position].y <= rect.max.y,
    decreases coords.len(),
{
    lemma_bounds_of_none(coords.drop_last());
    if position < coords.len() - 1 {
        lemma_bounds_hold_coords(coords.drop_last(), position);
    }
}

/// Widens a bounding box so that it holds `coord` too.
pub fn widen(bounds: Option<Rect>, coord: Coord) -> (wider: Option<Rect>)
    ensures
        wider == widened(bounds, coord),
{
    match bounds {
        None => Some(Rect { min: coord, max: coord }),
        Some(rect) => Some(
            Rect {
                min: Coord {
                    x: if coord.x < rect.min.x {
                        coord.x
                    } else {
                        rect.min.x
                    },
                    y: if coord.y < rect.min.y {
                        coord.y
                    } else {
                        rect.min.y
                    },
                },
                max: Coord {
                    x: if coord.x > rect.max.x {
                        coord.x
                    } else {
                        rect.max.x
                    },
                    y: if coord.y > rect.max.y {
                        coord.y
                    } else {
                        rect.max.y
                    },
                },
            },
        ),
    }
}

/// Widens a bounding box by each of `coords`.
pub(crate) fn widen_by_coords(start: Option<Rect>, coords: &Vec<Coord>) -> (wider: Option<Rect>)
    ensures
        wider == bounds_from(start, coords@),
{
    let mut bounds = start;
    let mut done: usize = 0;
    while done < coords.len()
        invariant
            done <= coords.len(),
            bounds == bounds_from(start, coords@.take(done as int)),
        decreases coords.len() - done,
    {
        proof {
            let next = coords@.take(done + 1);
            assert(next.drop_last() =~= coords@.take(done as int));
            assert(next.last() == coords@[done as int]);
        }
        bounds = widen(bounds, coords[done]);
        done = done + 1;
    }
    proof {
        assert(coords@.take(done as int) =~= coords@);
    }
    bounds
}

/// Widens a bounding box by each of `points`.
pub(crate) fn widen_by_points(start: Option<Rect>, points: &Vec<Point>) -> (wider: Option<Rect>)
    ensures
        wider == bounds_from(start, points_coords(points@)),
{
    let mut bounds = start;
    let mut done: usize = 0;
    while done < points.len()
        invariant
            done <= points.len(),
            bounds == bounds_from(start, points_coords(points@.take(done as int))),
        decreases points.len() - done,
    {
        proof {
            let next = points_coords(points@.take(done + 1));
            assert(next.drop_last() =~= points_coords(points@.take(done as int)));
            assert(next.last() == points@[done as int].0);
        }
        bounds = widen(bounds, points[done].0);
        done = done + 1;
    }
    proof {
        assert(points@.take(done as int) =~= points@);
    }
    bounds
}

/// Widens a bounding box by the points of each of `line_strings`.
pub(crate) fn widen_by_line_strings(start: Option<Rect>, line_strings: &Vec<LineString>) -> (wider: Option<Rect>)
    ensures
        wider == bounds_from(start, line_strings_coords(line_strings@)),
{
    let mut bounds = start;
    let mut done: usize = 0;
    while done < line_strings.len()
        invariant
            done <= line_strings.len(),
            bounds == bounds_from(start, line_strings_coords(line_strings@.take(done as int))),
        decreases line_strings.len() - done,
    {
        proof {
            let next = line_strings@.take(done + 1);
            assert(next.drop_last() =~= line_strings@.take(done as int));
            assert(next.last() == line_strings@[done as int]);
            lemma_bounds_from_concat(
                start,
                line_strings_coords(line_strings@.take(done as int)),
                line_strings@[done as int].0@,
            );
        }
        bounds = widen_by_coords(bounds, &line_strings[done].0);
        done = done + 1;
    }
    proof {
        assert(line_strings@.take(done as int) =~= line_strings@);
    }
    bounds
}

/// Widens a bounding box by the exterior ring of each of `polygons`.
pub(crate) fn widen_by_polygons(start: Option<Rect>, polygons: &Vec<Polygon>) -> (wider: Option<Rect>)
    ensures
        wider == bounds_from(start, polygons_coords(polygons@)),
{
    let mut bounds = start;
    let mut done: usize = 0;
    while done < polygons.len()
        invariant
            done <= polygons.len(),
            bounds == bounds_from(start, polygons_coords(polygons@.take(done as int))),
        decreases polygons.len() - done,
    {
        proof {
            let next = polygons@.take(done + 1);
            assert(next.drop_last() =~= polygons@.take(done as int));
            assert(next.last() == polygons@[done as int]);
            lemma_bounds_from_concat(
                start,
                polygons_coords(polygons@.take(done as int)),
                polygons@[done as int].exterior.0@,
            );
        }
        bounds = widen_by_coords(bounds, &polygons[done].exterior.0);
        done = done + 1;
    }
    proof {
        assert(polygons@.take(done as int) =~= polygons@);
    }
    bounds
}

/// Widens a bounding box by the positions of each of `geometries`.
fn widen_by_geometries(start: Option<Rect>, geometries: &Vec<Geometry>) -> (wider: Option<Rect>)
    ensures
        wider == bounds_from(start, geometries_coords(geometries@)),
    decreases geometries, 1int,
{
    let mut bounds = start;
    let mut done: usize = 0;
    while done < geometries.len()
        invariant
            done <= geometries.len(),
            bounds == bounds_from(start, geometries_coords(geometries@.take(done as int))),
        decreases geometries.len() - done,
    {
        proof {
            let next = geometries@.take(done + 1);
            assert(next.drop_last() =~= geometries@.take(done as int));
            assert(next.last() == geometries@[done as int]);
            lemma_bounds_from_concat(
                start,
                geometries_coords(geometries@.take(done as int)),
                geometries@[done as int].coords(),
            );
        }
        bounds = widen_by_geometry(bounds, &geometries[done]);
        done = done + 1;
    }
    proof {
        assert(geometries@.take(done as int) =~= geometries@);
    }
    bounds
}

/// Widens a bounding box by the positions of `geometry`.
fn widen_by_geometry(start: Option<Rect>, geometry: &Geometry) -> (wider: Option<Rect>)
    ensures
        wider == bounds_from(start, geometry.coords()),
    decreases geometry, 0int,
{
    proof {
        reveal_with_fuel(bounds_from, 4);
    }
    match geometry {
        Geometry::Point(point) => {
            assert(seq![point.0].drop_last() =~= Seq::<Coord>::empty());
            widen(start, point.0)
        },
        Geometry::Line(line) => {
            let ghost both = seq![line.start, line.end];
            assert(both.drop_last() =~= seq![line.start]);
            assert(seq![line.start].drop_last() =~= Seq::<Coord>::empty());
            widen(widen(start, line.start), line.end)
        },
        Geometry::LineString(line_string) => widen_by_coords(start, &line_string.0),
        Geometry::Polygon(polygon) => widen_by_coords(start, &polygon.exterior.0),
        Geometry::MultiPoint(points) => widen_by_points(start, &points.0),
        Geometry::MultiLineString(line_strings) => widen_by_line_strings(start, &line_strings.0),
        Geometry::MultiPolygon(polygons) => widen_by_polygons(start, &polygons.0),
        Geometry::GeometryCollection(collection) => widen_by_geometries(start, &collection.0),
        Geometry::Rect(rect) => {
            let ghost both = seq![rect.min, rect.max];
            assert(both.drop_last() =~= seq![rect.min]);
            assert(seq![rect.min].drop_last() =~= Seq::<Coord>::empty());
            widen(widen(start, rect.min), rect.max)
        },
        Geometry::Triangle(triangle) => {
            let ghost all = seq![triangle.0, triangle.1, triangle.2];
            assert(all.drop_last() =~= seq![triangle.0, triangle.1]);
            assert(seq![triangle.0, triangle.1].drop_last() =~= seq![triangle.0]);
            assert(seq![triangle.0].drop_last() =~= Seq::<Coord>::empty());
            widen(widen(widen(start, triangle.0), triangle.1), triangle.2)
        },
    }
}

/// The bounding box of several geometries, and none where they have no
/// position between them.
pub fn bounding_rect_of(geometries: &Vec<Geometry>) -> (bounds: Option<Rect>)
    ensures
        bounds == bounds_from(None, geometries_coords(geometries@)),
        bounds is None <==> geometries_coords(geometries@).len() == 0,
{
    proof {
        lemma_bounds_of_none(geometries_coords(geometries@));
    }
    widen_by_geometries(None, geometries)
}

} // verus!
