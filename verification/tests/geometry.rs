use snapr::geometry::bounding_rect_of;
use snapr::geometry::widen;
use snapr::geometry::Geometry;
use snapr::geometry::GeometryCollection;
use snapr::geometry::Line;
use snapr::geometry::LineString;
use snapr::geometry::MultiLineString;
use snapr::geometry::MultiPoint;
use snapr::geometry::MultiPolygon;
use snapr::geometry::Point;
use snapr::geometry::Polygon;
use snapr::geometry::Rect;
use snapr::geometry::Triangle;
use snapr::projection::Coord;

fn at(x: i64, y: i64) -> Coord {
    Coord { x, y }
}

fn bounds(min: (i64, i64), max: (i64, i64)) -> Option<Rect> {
    Some(Rect { min: at(min.0, min.1), max: at(max.0, max.1) })
}

#[test]
fn widening_takes_the_position_in() {
    assert_eq!(widen(None, at(3, 4)), bounds((3, 4), (3, 4)));
    assert_eq!(widen(bounds((0, 0), (5, 5)), at(3, 4)), bounds((0, 0), (5, 5)));
    assert_eq!(widen(bounds((0, 0), (5, 5)), at(-3, 9)), bounds((-3, 0), (5, 9)));
    assert_eq!(widen(bounds((0, 0), (5, 5)), at(7, -1)), bounds((0, -1), (7, 5)));
}

#[test]
fn the_bounding_box_of_each_kind() {
    assert_eq!(Geometry::Point(Point(at(1, 2))).bounding_rect(), bounds((1, 2), (1, 2)));
    assert_eq!(
        Geometry::Line(Line { start: at(5, -1), end: at(-5, 1) }).bounding_rect(),
        bounds((-5, -1), (5, 1))
    );
    assert_eq!(
        Geometry::LineString(LineString(vec![at(0, 0), at(4, 9), at(-2, 3)])).bounding_rect(),
        bounds((-2, 0), (4, 9))
    );
    assert_eq!(
        Geometry::Polygon(Polygon {
            exterior: LineString(vec![at(0, 0), at(4, 0), at(0, 4), at(0, 0)]),
            interiors: vec![LineString(vec![at(100, 100)])],
        })
        .bounding_rect(),
        bounds((0, 0), (4, 4))
    );
    assert_eq!(
        Geometry::MultiPoint(MultiPoint(vec![Point(at(1, 1)), Point(at(-1, 3))])).bounding_rect(),
        bounds((-1, 1), (1, 3))
    );
    assert_eq!(
        Geometry::MultiLineString(MultiLineString(vec![
            LineString(vec![at(0, 0), at(1, 1)]),
            LineString(Vec::new()),
            LineString(vec![at(9, -9)]),
        ]))
        .bounding_rect(),
        bounds((0, -9), (9, 1))
    );
    assert_eq!(
        Geometry::MultiPolygon(MultiPolygon(vec![
            Polygon { exterior: LineString(vec![at(0, 0), at(2, 2)]), interiors: Vec::new() },
            Polygon { exterior: LineString(vec![at(-7, 1)]), interiors: Vec::new() },
        ]))
        .bounding_rect(),
        bounds((-7, 0), (2, 2))
    );
    assert_eq!(
        Geometry::Rect(Rect { min: at(1, 2), max: at(3, 4) }).bounding_rect(),
        bounds((1, 2), (3, 4))
    );
    assert_eq!(
        Geometry::Triangle(Triangle(at(0, 0), at(6, 1), at(2, 5))).bounding_rect(),
        bounds((0, 0), (6, 5))
    );
}

#[test]
fn a_collection_is_bounded_by_its_members() {
    let collection = Geometry::GeometryCollection(GeometryCollection(vec![
        Geometry::Point(Point(at(1, 2))),
        Geometry::GeometryCollection(GeometryCollection(vec![
            Geometry::Point(Point(at(-4, 8))),
            Geometry::LineString(LineString(Vec::new())),
        ])),
        Geometry::Line(Line { start: at(0, 0), end: at(3, -3) }),
    ]));
    assert_eq!(collection.bounding_rect(), bounds((-4, -3), (3, 8)));
}

#[test]
fn geometries_without_a_position_have_no_bounding_box() {
    assert_eq!(Geometry::LineString(LineString(Vec::new())).bounding_rect(), None);
    assert_eq!(Geometry::MultiPoint(MultiPoint(Vec::new())).bounding_rect(), None);
    assert_eq!(Geometry::GeometryCollection(GeometryCollection(Vec::new())).bounding_rect(), None);
    assert_eq!(bounding_rect_of(&Vec::new()), None);
    assert_eq!(
        bounding_rect_of(&vec![
            Geometry::MultiLineString(MultiLineString(vec![LineString(Vec::new())])),
            Geometry::Polygon(Polygon { exterior: LineString(Vec::new()), interiors: Vec::new() }),
        ]),
        None
    );
}

#[test]
fn several_geometries_share_one_bounding_box() {
    let geometries = vec![
        Geometry::Point(Point(at(i64::MIN, 0))),
        Geometry::Point(Point(at(0, i64::MAX))),
        Geometry::Triangle(Triangle(at(1, 1), at(2, 2), at(3, -3))),
    ];
    assert_eq!(bounding_rect_of(&geometries), bounds((i64::MIN, -3), (3, i64::MAX)));
}
