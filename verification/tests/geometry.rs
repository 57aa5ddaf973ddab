use cardinal_geocoder::geometry::{
    transform_polygon, transform_ring, transform_rings, transform_tile_geometry, Geometry, Polygon,
};

type C = (i64, i64);

fn project(c: C, x: u32, y: u32, z: u8, extent: u32) -> C {
    (c.0 * 10 + x as i64 + z as i64, c.1 * 10 + y as i64 + extent as i64)
}

fn p(c: C) -> C {
    project(c, 1, 2, 3, 4)
}

fn run(g: &Geometry<C>) -> Geometry<C> {
    transform_tile_geometry(g, 1, 2, 3, 4, &project).expect("always some")
}

#[test]
fn formula_of_the_test_projection() {
    assert_eq!(p((5, 6)), (54, 66));
}

#[test]
fn point_line_rect_triangle() {
    match run(&Geometry::Point((5, 6))) {
        Geometry::Point(c) => assert_eq!(c, (54, 66)),
        _ => panic!("variant changed"),
    }
    match run(&Geometry::Line((0, 0), (1, 1))) {
        Geometry::Line(a, b) => {
            assert_eq!(a, p((0, 0)));
            assert_eq!(b, p((1, 1)));
        }
        _ => panic!("variant changed"),
    }
    match run(&Geometry::Rect((0, 1), (2, 3))) {
        Geometry::Rect(a, b) => {
            assert_eq!(a, p((0, 1)));
            assert_eq!(b, p((2, 3)));
        }
        _ => panic!("variant changed"),
    }
    match run(&Geometry::Triangle((0, 1), (2, 3), (4, 5))) {
        Geometry::Triangle(a, b, c) => {
            assert_eq!(a, p((0, 1)));
            assert_eq!(b, p((2, 3)));
            assert_eq!(c, p((4, 5)));
        }
        _ => panic!("variant changed"),
    }
}

#[test]
fn line_string_and_multi_point_keep_order_and_length() {
    let coords = vec![(1, 1), (2, 2), (3, 3)];
    let expected: Vec<C> = coords.iter().map(|c| p(*c)).collect();
    match run(&Geometry::LineString(coords.clone())) {
        Geometry::LineString(out) => assert_eq!(out, expected),
        _ => panic!("variant changed"),
    }
    match run(&Geometry::MultiPoint(coords)) {
        Geometry::MultiPoint(out) => assert_eq!(out, expected),
        _ => panic!("variant changed"),
    }
    match run(&Geometry::LineString(Vec::new())) {
        Geometry::LineString(out) => assert!(out.is_empty()),
        _ => panic!("variant changed"),
    }
}

#[test]
fn polygon_with_holes() {
    let polygon = Polygon {
        exterior: vec![(0, 0), (9, 0), (9, 9), (0, 0)],
        interiors: vec![vec![(1, 1), (2, 1), (1, 1)], vec![]],
    };
    match run(&Geometry::Polygon(polygon)) {
        Geometry::Polygon(out) => {
            assert_eq!(out.exterior, vec![p((0, 0)), p((9, 0)), p((9, 9)), p((0, 0))]);
            assert_eq!(out.interiors, vec![vec![p((1, 1)), p((2, 1)), p((1, 1))], vec![]]);
        }
        _ => panic!("variant changed"),
    }
}

#[test]
fn multi_line_string_and_multi_polygon() {
    match run(&Geometry::MultiLineString(vec![vec![(1, 2)], vec![], vec![(3, 4), (5, 6)]])) {
        Geometry::MultiLineString(out) => {
            assert_eq!(out, vec![vec![p((1, 2))], vec![], vec![p((3, 4)), p((5, 6))]]);
        }
        _ => panic!("variant changed"),
    }
    let polygons = vec![
        Polygon { exterior: vec![(1, 1)], interiors: vec![] },
        Polygon { exterior: vec![], interiors: vec![vec![(2, 2)]] },
    ];
    match run(&Geometry::MultiPolygon(polygons)) {
        Geometry::MultiPolygon(out) => {
            assert_eq!(out.len(), 2);
            assert_eq!(out[0].exterior, vec![p((1, 1))]);
            assert!(out[0].interiors.is_empty());
            assert!(out[1].exterior.is_empty());
            assert_eq!(out[1].interiors, vec![vec![p((2, 2))]]);
        }
        _ => panic!("variant changed"),
    }
}

#[test]
fn collection_keeps_every_member_in_order() {
    let nested = Geometry::GeometryCollection(vec![
        Geometry::Point((1, 1)),
        Geometry::GeometryCollection(vec![Geometry::Line((2, 2), (3, 3))]),
        Geometry::GeometryCollection(vec![]),
    ]);
    match run(&nested) {
        Geometry::GeometryCollection(out) => {
            assert_eq!(out.len(), 3);
            match &out[0] {
                Geometry::Point(c) => assert_eq!(*c, p((1, 1))),
                _ => panic!("variant changed"),
            }
            match &out[1] {
                Geometry::GeometryCollection(inner) => match &inner[0] {
                    Geometry::Line(a, b) => {
                        assert_eq!(*a, p((2, 2)));
                        assert_eq!(*b, p((3, 3)));
                    }
                    _ => panic!("variant changed"),
                },
                _ => panic!("variant changed"),
            }
            match &out[2] {
                Geometry::GeometryCollection(inner) => assert!(inner.is_empty()),
                _ => panic!("variant changed"),
            }
        }
        _ => panic!("variant changed"),
    }
}

#[test]
fn rings_and_polygons_on_their_own() {
    assert_eq!(transform_ring(&vec![(1, 1), (2, 2)], 1, 2, 3, 4, &project), vec![p((1, 1)), p((2, 2))]);
    assert_eq!(
        transform_rings(&vec![vec![(1, 1)], vec![]], 1, 2, 3, 4, &project),
        vec![vec![p((1, 1))], vec![]]
    );
    let out = transform_polygon(
        &Polygon { exterior: vec![(7, 7)], interiors: vec![vec![(8, 8)]] },
        1,
        2,
        3,
        4,
        &project,
    );
    assert_eq!(out.exterior, vec![p((7, 7))]);
    assert_eq!(out.interiors, vec![vec![p((8, 8))]]);
}

#[test]
fn tile_address_reaches_the_projection() {
    match transform_tile_geometry(&Geometry::Point((0i64, 0i64)), 7, 8, 9, 512, &project) {
        Some(Geometry::Point(c)) => assert_eq!(c, (16, 520)),
        _ => panic!("variant changed"),
    }
}
