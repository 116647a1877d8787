use vstd::prelude::*;
use vstd::arithmetic::div_mod::lemma_div_by_self;
use vstd::arithmetic::div_mod::lemma_div_is_ordered;

verus! {

/// A point of the model.  Coordinates are fixed-point integers counting
/// thousandths of a scene unit, so the geometry stays exact.
#[derive(Clone, Copy, PartialEq, Eq, Structural, Debug)]
pub struct Point3 {
    pub x: i64,
    pub y: i64,
    pub z: i64,
}

/// One triangular face: three corners whose order fixes the winding.
#[derive(Clone, Copy, PartialEq, Eq, Structural, Debug)]
pub struct Face {
    pub a: Point3,
    pub b: Point3,
    pub c: Point3,
}

/// An append-only triangle soup.  Faces are only ever added while the
/// trophy is built; the finished mesh is consumed by the exporter.
pub struct Mesh {
    pub faces: Vec<Face>,
}

/// Coordinate magnitude up to which the solid constructors below are free
/// of overflow.  Corner coordinates stay within twice this bound.
pub const COORD_LIMIT: i64 = 2_000_000_000_000_000_000;

/// The twelve triangles of a box-like solid over the corner points
/// `p0..=p3` (lower ring, counter-clockwise seen from below) and
/// `p4..=p7` (upper ring, above `p0..=p3` in the same order), wound to
/// face outward.
pub open spec fn quad_faces(
    p0: Point3,
    p1: Point3,
    p2: Point3,
    p3: Point3,
    p4: Point3,
    p5: Point3,
    p6: Point3,
    p7: Point3,
) -> Seq<Face> {
    seq![
        Face { a: p0, b: p1, c: p2 },
        Face { a: p0, b: p2, c: p3 },
        Face { a: p4, b: p5, c: p6 },
        Face { a: p4, b: p6, c: p7 },
        Face { a: p3, b: p0, c: p4 },
        Face { a: p3, b: p4, c: p7 },
        Face { a: p1, b: p2, c: p6 },
        Face { a: p1, b: p6, c: p5 },
        Face { a: p0, b: p1, c: p5 },
        Face { a: p0, b: p5, c: p4 },
        Face { a: p2, b: p3, c: p7 },
        Face { a: p2, b: p7, c: p6 },
    ]
}

/// Builds the triangle list of a box-like solid from its eight corners:
/// bottom, top, left, right, front and back, two triangles each.
pub fn quad3d(points: [Point3; 8]) -> (r: Vec<Face>)
    ensures
        r@ == quad_faces(
            points[0],
            points[1],
            points[2],
            points[3],
            points[4],
            points[5],
            points[6],
            points[7],
        ),
        r@.len() == 12,
{
    let p0 = points[0];
    let p1 = points[1];
    let p2 = points[2];
    let p3 = points[3];
    let p4 = points[4];
    let p5 = points[5];
    let p6 = points[6];
    let p7 = points[7];
    let mut r: Vec<Face> = Vec::new();
    r.push(Face { a: p0, b: p1, c: p2 });
    r.push(Face { a: p0, b: p2, c: p3 });
    r.push(Face { a: p4, b: p5, c: p6 });
    r.push(Face { a: p4, b: p6, c: p7 });
    r.push(Face { a: p3, b: p0, c: p4 });
    r.push(Face { a: p3, b: p4, c: p7 });
    r.push(Face { a: p1, b: p2, c: p6 });
    r.push(Face { a: p1, b: p6, c: p5 });
    r.push(Face { a: p0, b: p1, c: p5 });
    r.push(Face { a: p0, b: p5, c: p4 });
    r.push(Face { a: p2, b: p3, c: p7 });
    r.push(Face { a: p2, b: p7, c: p6 });
    proof {
        assert(r@ =~= quad_faces(
            points[0],
            points[1],
            points[2],
            points[3],
            points[4],
            points[5],
            points[6],
            points[7],
        ));
    }
    r
}

/// The eight corners of an axis-aligned rectangular prism around
/// `center` with the given extents: the lower ring counter-clockwise,
/// then the upper ring above it in the same order.  Odd extents lose
/// half a thousandth to the integer halving, exactly as the executable
/// code does.
pub open spec fn brick_corners(center: Point3, length: int, width: int, height: int) -> Seq<
    Point3,
> {
    let hl = length / 2;
    let hw = width / 2;
    let hh = height / 2;
    let x = center.x as int;
    let y = center.y as int;
    let z = center.z as int;
    seq![
        Point3 { x: (x - hl) as i64, y: (y - hw) as i64, z: (z - hh) as i64 },
        Point3 { x: (x + hl) as i64, y: (y - hw) as i64, z: (z - hh) as i64 },
        Point3 { x: (x + hl) as i64, y: (y + hw) as i64, z: (z - hh) as i64 },
        Point3 { x: (x - hl) as i64, y: (y + hw) as i64, z: (z - hh) as i64 },
        Point3 { x: (x - hl) as i64, y: (y - hw) as i64, z: (z + hh) as i64 },
        Point3 { x: (x + hl) as i64, y: (y - hw) as i64, z: (z + hh) as i64 },
        Point3 { x: (x + hl) as i64, y: (y + hw) as i64, z: (z + hh) as i64 },
        Point3 { x: (x - hl) as i64, y: (y + hw) as i64, z: (z + hh) as i64 },
    ]
}

/// The faces of an axis-aligned rectangular prism around `center` with
/// the given extents.
pub open spec fn brick_faces(center: Point3, length: int, width: int, height: int) -> Seq<Face> {
    let c = brick_corners(center, length, width, height);
    quad_faces(c[0], c[1], c[2], c[3], c[4], c[5], c[6], c[7])
}

/// A brick whose extents are all at least two thousandths is a genuine
/// solid: its eight corners sit at eight distinct positions.  An extent
/// of a single thousandth halves to nothing, so that guarantee starts at
/// two; the builders emit no smaller extent.
pub proof fn lemma_brick_corners_distinct(center: Point3, length: int, width: int, height: int)
    requires
        2 <= length <= COORD_LIMIT,
        2 <= width <= COORD_LIMIT,
        2 <= height <= COORD_LIMIT,
        -COORD_LIMIT <= center.x <= COORD_LIMIT,
        -COORD_LIMIT <= center.y <= COORD_LIMIT,
        -COORD_LIMIT <= center.z <= COORD_LIMIT,
    ensures
        forall|i: int, j: int|
            0 <= i < 8 && 0 <= j < 8 && i != j ==> brick_corners(center, length, width, height)[i]
                != brick_corners(center, length, width, height)[j],
{
    lemma_div_is_ordered(2, length, 2);
    lemma_div_is_ordered(2, width, 2);
    lemma_div_is_ordered(2, height, 2);
    lemma_div_by_self(2);
    let hl = length / 2;
    let hw = width / 2;
    let hh = height / 2;
    assert(hl >= 1 && hw >= 1 && hh >= 1);
    let x = center.x as int;
    let y = center.y as int;
    let z = center.z as int;
    let c = brick_corners(center, length, width, height);
    assert(c[0] == Point3 { x: (x - hl) as i64, y: (y - hw) as i64, z: (z - hh) as i64 });
    assert(c[1] == Point3 { x: (x + hl) as i64, y: (y - hw) as i64, z: (z - hh) as i64 });
    assert(c[2] == Point3 { x: (x + hl) as i64, y: (y + hw) as i64, z: (z - hh) as i64 });
    assert(c[3] == Point3 { x: (x - hl) as i64, y: (y + hw) as i64, z: (z - hh) as i64 });
    assert(c[4] == Point3 { x: (x - hl) as i64, y: (y - hw) as i64, z: (z + hh) as i64 });
    assert(c[5] == Point3 { x: (x + hl) as i64, y: (y - hw) as i64, z: (z + hh) as i64 });
    assert(c[6] == Point3 { x: (x + hl) as i64, y: (y + hw) as i64, z: (z + hh) as i64 });
    assert(c[7] == Point3 { x: (x - hl) as i64, y: (y + hw) as i64, z: (z + hh) as i64 });
    assert(((x - hl) as i64) < ((x + hl) as i64));
    assert(((y - hw) as i64) < ((y + hw) as i64));
    assert(((z - hh) as i64) < ((z + hh) as i64));
    assert forall|i: int, j: int| 0 <= i < 8 && 0 <= j < 8 && i != j implies c[i] != c[j] by {}
}

/// Builds one day brick: a rectangular prism with outward winding.
pub fn commit_brick(center: &Point3, length: i64, width: i64, height: i64) -> (r: Vec<Face>)
    requires
        0 <= length <= COORD_LIMIT,
        0 <= width <= COORD_LIMIT,
        0 <= height <= COORD_LIMIT,
        -COORD_LIMIT <= center.x <= COORD_LIMIT,
        -COORD_LIMIT <= center.y <= COORD_LIMIT,
        -COORD_LIMIT <= center.z <= COORD_LIMIT,
    ensures
        r@ == brick_faces(*center, length as int, width as int, height as int),
        r@.len() == 12,
{
    let hl = length / 2;
    let hw = width / 2;
    let hh = height / 2;
    let p0 = Point3 { x: center.x - hl, y: center.y - hw, z: center.z - hh };
    let p1 = Point3 { x: center.x + hl, y: center.y - hw, z: center.z - hh };
    let p2 = Point3 { x: center.x + hl, y: center.y + hw, z: center.z - hh };
    let p3 = Point3 { x: center.x - hl, y: center.y + hw, z: center.z - hh };
    let p4 = Point3 { x: center.x - hl, y: center.y - hw, z: center.z + hh };
    let p5 = Point3 { x: center.x + hl, y: center.y - hw, z: center.z + hh };
    let p6 = Point3 { x: center.x + hl, y: center.y + hw, z: center.z + hh };
    let p7 = Point3 { x: center.x - hl, y: center.y + hw, z: center.z + hh };
    quad3d([p0, p1, p2, p3, p4, p5, p6, p7])
}

/// The faces of a frustum around `center`: a lower rectangle of the
/// bottom extents joined to an upper rectangle of the top extents, the
/// four side walls sloping between them.
pub open spec fn plinth_faces(
    center: Point3,
    top_length: int,
    top_width: int,
    bottom_length: int,
    bottom_width: int,
    height: int,
) -> Seq<Face> {
    let htl = top_length / 2;
    let htw = top_width / 2;
    let hbl = bottom_length / 2;
    let hbw = bottom_width / 2;
    let hh = height / 2;
    let x = center.x as int;
    let y = center.y as int;
    let z = center.z as int;
    quad_faces(
        Point3 { x: (x - hbl) as i64, y: (y - hbw) as i64, z: (z - hh) as i64 },
        Point3 { x: (x + hbl) as i64, y: (y - hbw) as i64, z: (z - hh) as i64 },
        Point3 { x: (x + hbl) as i64, y: (y + hbw) as i64, z: (z - hh) as i64 },
        Point3 { x: (x - hbl) as i64, y: (y + hbw) as i64, z: (z - hh) as i64 },
        Point3 { x: (x - htl) as i64, y: (y - htw) as i64, z: (z + hh) as i64 },
        Point3 { x: (x + htl) as i64, y: (y - htw) as i64, z: (z + hh) as i64 },
        Point3 { x: (x + htl) as i64, y: (y + htw) as i64, z: (z + hh) as i64 },
        Point3 { x: (x - htl) as i64, y: (y + htw) as i64, z: (z + hh) as i64 },
    )
}

/// Builds the trophy's plinth: one frustum whose sloped walls later
/// anchor the optional side text.
pub fn plinth(
    center: &Point3,
    top_length: i64,
    top_width: i64,
    bottom_length: i64,
    bottom_width: i64,
    height: i64,
) -> (r: Vec<Face>)
    requires
        0 <= top_length <= COORD_LIMIT,
        0 <= top_width <= COORD_LIMIT,
        0 <= bottom_length <= COORD_LIMIT,
        0 <= bottom_width <= COORD_LIMIT,
        0 <= height <= COORD_LIMIT,
        -COORD_LIMIT <= center.x <= COORD_LIMIT,
        -COORD_LIMIT <= center.y <= COORD_LIMIT,
        -COORD_LIMIT <= center.z <= COORD_LIMIT,
    ensures
        r@ == plinth_faces(
            *center,
            top_length as int,
            top_width as int,
            bottom_length as int,
            bottom_width as int,
            height as int,
        ),
        r@.len() == 12,
{
    let htl = top_length / 2;
    let htw = top_width / 2;
    let hbl = bottom_length / 2;
    let hbw = bottom_width / 2;
    let hh = height / 2;
    let p0 = Point3 { x: center.x - hbl, y: center.y - hbw, z: center.z - hh };
    let p1 = Point3 { x: center.x + hbl, y: center.y - hbw, z: center.z - hh };
    let p2 = Point3 { x: center.x + hbl, y: center.y + hbw, z: center.z - hh };
    let p3 = Point3 { x: center.x - hbl, y: center.y + hbw, z: center.z - hh };
    let p4 = Point3 { x: center.x - htl, y: center.y - htw, z: center.z + hh };
    let p5 = Point3 { x: center.x + htl, y: center.y - htw, z: center.z + hh };
    let p6 = Point3 { x: center.x + htl, y: center.y + htw, z: center.z + hh };
    let p7 = Point3 { x: center.x - htl, y: center.y + htw, z: center.z + hh };
    quad3d([p0, p1, p2, p3, p4, p5, p6, p7])
}

} // verus!
