use crate::arith::lemma_mul_le;
use vstd::prelude::*;

verus! {

/// An integer coordinate pair, used to build a [`Triangle`].
#[derive(Clone, Copy, Debug, PartialEq, Eq, Structural)]
pub struct Point {
    pub x: i32,
    pub y: i32,
}

impl Point {
    pub fn new(x: i32, y: i32) -> (p: Point)
        ensures
            p == (Point { x, y }),
    {
        Point { x, y }
    }
}

/// Twice the signed area of the triangle `(p, a, b)`: positive when `p`
/// lies on one side of the directed line from `a` to `b`, negative on the
/// other, zero on the line itself.
pub open spec fn cross(px: int, py: int, ax: int, ay: int, bx: int, by: int) -> int {
    (px - bx) * (ay - by) - (ax - bx) * (py - by)
}

/// Whether the point `(x, y)` lies on or inside the triangle `t`: the
/// three signed areas computed against the edges must not mix strictly
/// positive and strictly negative values. Either winding is accepted; a
/// degenerate (collinear) triangle contains only the points of its line.
pub open spec fn tri_contains(t: Triangle, x: int, y: int) -> bool {
    let d1 = cross(x, y, t.p1.x as int, t.p1.y as int, t.p2.x as int, t.p2.y as int);
    let d2 = cross(x, y, t.p2.x as int, t.p2.y as int, t.p3.x as int, t.p3.y as int);
    let d3 = cross(x, y, t.p3.x as int, t.p3.y as int, t.p1.x as int, t.p1.y as int);
    !((d1 < 0 || d2 < 0 || d3 < 0) && (d1 > 0 || d2 > 0 || d3 > 0))
}

/// Three corner points; immutable once built, used only as a membership
/// predicate over integer coordinates.
#[derive(Clone, Copy, Debug, PartialEq, Eq, Structural)]
pub struct Triangle {
    pub p1: Point,
    pub p2: Point,
    pub p3: Point,
}

impl Triangle {
    pub fn new(p1: Point, p2: Point, p3: Point) -> (t: Triangle)
        ensures
            t == (Triangle { p1, p2, p3 }),
    {
        Triangle { p1, p2, p3 }
    }

    /// Twice the signed area of `(p1, p2, p3)`, exact: the product of two
    /// differences of 32-bit values always fits the 128-bit result.
    pub fn line_side(p1: Point, p2: Point, p3: Point) -> (d: i128)
        ensures
            d == cross(p1.x as int, p1.y as int, p2.x as int, p2.y as int, p3.x as int,
                p3.y as int),
    {
        let dx1 = p1.x as i128 - p3.x as i128;
        let dy2 = p2.y as i128 - p3.y as i128;
        let dx2 = p2.x as i128 - p3.x as i128;
        let dy1 = p1.y as i128 - p3.y as i128;
        proof {
            lemma_mul_le(dx1 as int, dy2 as int, 0x1_0000_0000);
            lemma_mul_le(dx2 as int, dy1 as int, 0x1_0000_0000);
        }
        dx1 * dy2 - dx2 * dy1
    }

    /// Whether `(x, y)` lies on or inside this triangle.
    pub fn is_inside(self, x: i32, y: i32) -> (inside: bool)
        ensures
            inside == tri_contains(self, x as int, y as int),
    {
        let d1 = Triangle::line_side(Point::new(x, y), self.p1, self.p2);
        let d2 = Triangle::line_side(Point::new(x, y), self.p2, self.p3);
        let d3 = Triangle::line_side(Point::new(x, y), self.p3, self.p1);

        let has_neg = (d1 < 0) || (d2 < 0) || (d3 < 0);
        let has_pos = (d1 > 0) || (d2 > 0) || (d3 > 0);

        !(has_neg && has_pos)
    }

    /// [`Triangle::is_inside`] for an unsigned pixel coordinate of any
    /// magnitude, evaluated without narrowing.
    pub fn contains_pixel(self, x: u32, y: u32) -> (inside: bool)
        ensures
            inside == tri_contains(self, x as int, y as int),
    {
        let d1 = Triangle::edge_side(x, y, self.p1, self.p2);
        let d2 = Triangle::edge_side(x, y, self.p2, self.p3);
        let d3 = Triangle::edge_side(x, y, self.p3, self.p1);

        let has_neg = (d1 < 0) || (d2 < 0) || (d3 < 0);
        let has_pos = (d1 > 0) || (d2 > 0) || (d3 > 0);

        !(has_neg && has_pos)
    }

    /// `cross` for a point whose coordinates are an unsigned pixel
    /// coordinate, against the edge from `a` to `b`.
    fn edge_side(x: u32, y: u32, a: Point, b: Point) -> (d: i128)
        ensures
            d == cross(x as int, y as int, a.x as int, a.y as int, b.x as int, b.y as int),
    {
        let dpx = x as i128 - b.x as i128;
        let day = a.y as i128 - b.y as i128;
        let dax = a.x as i128 - b.x as i128;
        let dpy = y as i128 - b.y as i128;
        proof {
            lemma_mul_le(dpx as int, day as int, 0x1_8000_0000_0000);
            lemma_mul_le(dax as int, dpy as int, 0x1_8000_0000_0000);
        }
        dpx * day - dax * dpy
    }
}

} // verus!
