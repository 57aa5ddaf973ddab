//! Tile geometry and its projection, coordinate by coordinate.
//!
//! The library never looks inside a coordinate: `C` is whatever the caller's
//! projection works on. What is proved here is that a projected geometry has
//! the shape of its source and that every coordinate of it came out of the
//! projection applied to the coordinate in the same place.

use vstd::prelude::*;

verus! {

/// A polygon: one outer ring and any number of holes.
pub struct Polygon<C> {
    pub exterior: Vec<C>,
    pub interiors: Vec<Vec<C>>,
}

/// A geometry of one tile feature.
pub enum Geometry<C> {
    Point(C),
    /// A segment from its start to its end.
    Line(C, C),
    LineString(Vec<C>),
    Polygon(Polygon<C>),
    MultiPoint(Vec<C>),
    MultiLineString(Vec<Vec<C>>),
    MultiPolygon(Vec<Polygon<C>>),
    GeometryCollection(Vec<Geometry<C>>),
    /// A rectangle given by two opposite corners.
    Rect(C, C),
    Triangle(C, C, C),
}

/// `to` is a possible result of projecting `from` with `project` on the tile.
pub open spec fn coord_projected<C, F: Fn(C, u32, u32, u8, u32) -> C>(
    project: F,
    tile_x: u32,
    tile_y: u32,
    tile_z: u8,
    extent: u32,
    from: C,
    to: C,
) -> bool {
    call_ensures(project, (from, tile_x, tile_y, tile_z, extent), to)
}

/// `to` has the length of `from` and each coordinate of it is a projection
/// of the one at the same index.
pub open spec fn ring_projected<C, F: Fn(C, u32, u32, u8, u32) -> C>(
    project: F,
    tile_x: u32,
    tile_y: u32,
    tile_z: u8,
    extent: u32,
    from: Seq<C>,
    to: Seq<C>,
) -> bool {
    &&& to.len() == from.len()
    &&& forall|i: int| 0 <= i < from.len() ==> coord_projected(project, tile_x, tile_y, tile_z, extent, from[i], #[trigger] to[i])
}

pub open spec fn rings_projected<C, F: Fn(C, u32, u32, u8, u32) -> C>(
    project: F,
    tile_x: u32,
    tile_y: u32,
    tile_z: u8,
    extent: u32,
    from: Seq<Vec<C>>,
    to: Seq<Vec<C>>,
) -> bool {
    &&& to.len() == from.len()
    &&& forall|i: int| 0 <= i < from.len() ==> ring_projected(project, tile_x, tile_y, tile_z, extent, from[i]@, #[trigger] to[i]@)
}

pub open spec fn polygon_projected<C, F: Fn(C, u32, u32, u8, u32) -> C>(
    project: F,
    tile_x: u32,
    tile_y: u32,
    tile_z: u8,
    extent: u32,
    from: Polygon<C>,
    to: Polygon<C>,
) -> bool {
    &&& ring_projected(project, tile_x, tile_y, tile_z, extent, from.exterior@, to.exterior@)
    &&& rings_projected(project, tile_x, tile_y, tile_z, extent, from.interiors@, to.interiors@)
}

pub open spec fn geometry_projected<C, F: Fn(C, u32, u32, u8, u32) -> C>(
    project: F,
    tile_x: u32,
    tile_y: u32,
    tile_z: u8,
    extent: u32,
    from: Geometry<C>,
    to: Geometry<C>,
) -> bool
    decreases from,
{
    match (from, to) {
        (Geometry::Point(a), Geometry::Point(b)) => coord_projected(project, tile_x, tile_y, tile_z, extent, a, b),
        (Geometry::Line(a0, a1), Geometry::Line(b0, b1)) => {
            &&& coord_projected(project, tile_x, tile_y, tile_z, extent, a0, b0)
            &&& coord_projected(project, tile_x, tile_y, tile_z, extent, a1, b1)
        },
        (Geometry::LineString(a), Geometry::LineString(b)) => ring_projected(project, tile_x, tile_y, tile_z, extent, a@, b@),
        (Geometry::Polygon(a), Geometry::Polygon(b)) => polygon_projected(project, tile_x, tile_y, tile_z, extent, a, b),
        (Geometry::MultiPoint(a), Geometry::MultiPoint(b)) => ring_projected(project, tile_x, tile_y, tile_z, extent, a@, b@),
        (Geometry::MultiLineString(a), Geometry::MultiLineString(b)) => rings_projected(
            project,
            tile_x,
            tile_y,
            tile_z,
            extent,
            a@,
            b@,
        ),
        (Geometry::MultiPolygon(a), Geometry::MultiPolygon(b)) => {
            &&& b.len() == a.len()
            &&& forall|i: int|
                0 <= i < a.len() ==> polygon_projected(project, tile_x, tile_y, tile_z, extent, a[i], #[trigger] b[i])
        },
        (Geometry::GeometryCollection(a), Geometry::GeometryCollection(b)) => {
            &&& b.len() == a.len()
            &&& forall|i: int|
                0 <= i < a.len() ==> geometry_projected(project, tile_x, tile_y, tile_z, extent, a[i], #[trigger] b[i])
        },
        (Geometry::Rect(a0, a1), Geometry::Rect(b0, b1)) => {
            &&& coord_projected(project, tile_x, tile_y, tile_z, extent, a0, b0)
            &&& coord_projected(project, tile_x, tile_y, tile_z, extent, a1, b1)
        },
        (Geometry::Triangle(a0, a1, a2), Geometry::Triangle(b0, b1, b2)) => {
            &&& coord_projected(project, tile_x, tile_y, tile_z, extent, a0, b0)
            &&& coord_projected(project, tile_x, tile_y, tile_z, extent, a1, b1)
            &&& coord_projected(project, tile_x, tile_y, tile_z, extent, a2, b2)
        },
        _ => false,
    }
}

/// Projects every coordinate of one ring, in order.
pub fn transform_ring<C: Copy, F: Fn(C, u32, u32, u8, u32) -> C>(
    ring: &Vec<C>,
    tile_x: u32,
    tile_y: u32,
    tile_z: u8,
    extent: u32,
    transform_coord: &F,
) -> (r: Vec<C>)
    requires
        forall|c: C| call_requires(*transform_coord, (c, tile_x, tile_y, tile_z, extent)),
    ensures
        ring_projected(*transform_coord, tile_x, tile_y, tile_z, extent, ring@, r@),
{
    let mut out: Vec<C> = Vec::new();
    let mut i: usize = 0;
    while i < ring.len()
        invariant
            i <= ring.len(),
            forall|c: C| call_requires(*transform_coord, (c, tile_x, tile_y, tile_z, extent)),
            ring_projected(
                *transform_coord,
                tile_x,
                tile_y,
                tile_z,
                extent,
                ring@.take(i as int),
                out@,
            ),
        decreases ring.len() - i,
    {
        out.push(transform_coord(ring[i], tile_x, tile_y, tile_z, extent));
        i += 1;
    }
    assert(ring@.take(i as int) =~= ring@);
    out
}

/// Projects a list of rings, ring by ring.
pub fn transform_rings<C: Copy, F: Fn(C, u32, u32, u8, u32) -> C>(
    rings: &Vec<Vec<C>>,
    tile_x: u32,
    tile_y: u32,
    tile_z: u8,
    extent: u32,
    transform_coord: &F,
) -> (r: Vec<Vec<C>>)
    requires
        forall|c: C| call_requires(*transform_coord, (c, tile_x, tile_y, tile_z, extent)),
    ensures
        rings_projected(*transform_coord, tile_x, tile_y, tile_z, extent, rings@, r@),
{
    let mut out: Vec<Vec<C>> = Vec::new();
    let mut i: usize = 0;
    while i < rings.len()
        invariant
            i <= rings.len(),
            forall|c: C| call_requires(*transform_coord, (c, tile_x, tile_y, tile_z, extent)),
            rings_projected(
                *transform_coord,
                tile_x,
                tile_y,
                tile_z,
                extent,
                rings@.take(i as int),
                out@,
            ),
        decreases rings.len() - i,
    {
        out.push(transform_ring(&rings[i], tile_x, tile_y, tile_z, extent, transform_coord));
        i += 1;
    }
    assert(rings@.take(i as int) =~= rings@);
    out
}

/// Projects the outer ring and every hole of a polygon.
pub fn transform_polygon<C: Copy, F: Fn(C, u32, u32, u8, u32) -> C>(
    polygon: &Polygon<C>,
    tile_x: u32,
    tile_y: u32,
    tile_z: u8,
    extent: u32,
    transform_coord: &F,
) -> (r: Polygon<C>)
    requires
        forall|c: C| call_requires(*transform_coord, (c, tile_x, tile_y, tile_z, extent)),
    ensures
        polygon_projected(*transform_coord, tile_x, tile_y, tile_z, extent, *polygon, r),
{
    Polygon {
        exterior: transform_ring(&polygon.exterior, tile_x, tile_y, tile_z, extent, transform_coord),
        interiors: transform_rings(
            &polygon.interiors,
            tile_x,
            tile_y,
            tile_z,
            extent,
            transform_coord,
        ),
    }
}

/// Projects a geometry from tile pixels to the coordinates that
/// `transform_coord` produces, whatever its variant.
///
/// The result is always `Some`: it has the variant and the shape of
/// `geometry`, and every coordinate of it is what `transform_coord` returned
/// for the coordinate in the same place. A collection is projected member by
/// member; a member that yields nothing would be left out, and none does.
pub fn transform_tile_geometry<C: Copy, F: Fn(C, u32, u32, u8, u32) -> C>(
    geometry: &Geometry<C>,
    tile_x: u32,
    tile_y: u32,
    tile_z: u8,
    extent: u32,
    transform_coord: &F,
) -> (r: Option<Geometry<C>>)
    requires
        forall|c: C| call_requires(*transform_coord, (c, tile_x, tile_y, tile_z, extent)),
    ensures
        r matches Some(g) && geometry_projected(
            *transform_coord,
            tile_x,
            tile_y,
            tile_z,
            extent,
            *geometry,
            g,
        ),
    decreases geometry,
{
    match geometry {
        Geometry::Point(c) => Some(
            Geometry::Point(transform_coord(*c, tile_x, tile_y, tile_z, extent)),
        ),
        Geometry::LineString(coords) => Some(
            Geometry::LineString(
                transform_ring(coords, tile_x, tile_y, tile_z, extent, transform_coord),
            ),
        ),
        Geometry::Polygon(polygon) => Some(
            Geometry::Polygon(
                transform_polygon(polygon, tile_x, tile_y, tile_z, extent, transform_coord),
            ),
        ),
        Geometry::MultiPoint(points) => Some(
            Geometry::MultiPoint(
                transform_ring(points, tile_x, tile_y, tile_z, extent, transform_coord),
            ),
        ),
        Geometry::Line(start, end) => {
            let start = transform_coord(*start, tile_x, tile_y, tile_z, extent);
            let end = transform_coord(*end, tile_x, tile_y, tile_z, extent);
            Some(Geometry::Line(start, end))
        },
        Geometry::MultiLineString(lines) => Some(
            Geometry::MultiLineString(
                transform_rings(lines, tile_x, tile_y, tile_z, extent, transform_coord),
            ),
        ),
        Geometry::MultiPolygon(polygons) => {
            let mut out: Vec<Polygon<C>> = Vec::new();
            let mut i: usize = 0;
            while i < polygons.len()
                invariant
                    i <= polygons.len(),
                    out.len() == i,
                    forall|c: C|
                        call_requires(*transform_coord, (c, tile_x, tile_y, tile_z, extent)),
                    forall|j: int|
                        0 <= j < i ==> polygon_projected(
                            *transform_coord,
                            tile_x,
                            tile_y,
                            tile_z,
                            extent,
                            polygons[j],
                            #[trigger] out[j],
                        ),
                decreases polygons.len() - i,
            {
                out.push(
                    transform_polygon(
                        &polygons[i],
                        tile_x,
                        tile_y,
                        tile_z,
                        extent,
                        transform_coord,
                    ),
                );
                i += 1;
            }
            Some(Geometry::MultiPolygon(out))
        },
        Geometry::GeometryCollection(members) => {
            let mut out: Vec<Geometry<C>> = Vec::new();
            let mut i: usize = 0;
            while i < members.len()
                invariant
                    i <= members.len(),
                    out.len() == i,
                    decreases_to!(*geometry => *members),
                    forall|c: C|
                        call_requires(*transform_coord, (c, tile_x, tile_y, tile_z, extent)),
                    forall|j: int|
                        0 <= j < i ==> geometry_projected(
                            *transform_coord,
                            tile_x,
                            tile_y,
                            tile_z,
                            extent,
                            members[j],
                            #[trigger] out[j],
                        ),
                decreases members.len() - i,
            {
                assert(decreases_to!(*members => members[i as int]));
                match transform_tile_geometry(
                    &members[i],
                    tile_x,
                    tile_y,
                    tile_z,
                    extent,
                    transform_coord,
                ) {
                    Some(member) => out.push(member),
                    None => {},
                }
                i += 1;
            }
            Some(Geometry::GeometryCollection(out))
        },
        Geometry::Rect(min, max) => {
            let min = transform_coord(*min, tile_x, tile_y, tile_z, extent);
            let max = transform_coord(*max, tile_x, tile_y, tile_z, extent);
            Some(Geometry::Rect(min, max))
        },
        Geometry::Triangle(a, b, c) => {
            let a = transform_coord(*a, tile_x, tile_y, tile_z, extent);
            let b = transform_coord(*b, tile_x, tile_y, tile_z, extent);
            let c = transform_coord(*c, tile_x, tile_y, tile_z, extent);
            Some(Geometry::Triangle(a, b, c))
        },
    }
}

} // verus!
