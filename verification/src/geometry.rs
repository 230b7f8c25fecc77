//! Points and triangles of the map plane.
//!
//! Coordinates are fixed-point: one unit is `1 / SUBPIXELS` of a map pixel,
//! so the pixel with integer coordinates `(x, y)` sits at
//! `(x * SUBPIXELS, y * SUBPIXELS)`. They are 64 bits wide and reach
//! `COORD_MAX` either way, far beyond any map. Colour samples are 16-bit.
//! All arithmetic is exact: nothing is rounded but the interpolated colour,
//! and nothing is cut off.

use vstd::prelude::*;
use crate::arith::{
    floor_div, lemma_cancel, lemma_cross_expand, lemma_div_between, lemma_div_exact,
    lemma_mul_bounded, lemma_mul_by_zero, lemma_mul_commutes, lemma_mul_distributes, lemma_mul_neg,
    lemma_mul_sign, lemma_mul_swaps, lemma_weighted_sum_between,
};
use crate::color::Rgb;

verus! {

/// Number of coordinate units in one map pixel.
pub const SUBPIXELS: i64 = 1024;

/// Largest coordinate of a point, and the negative of the smallest: 2^43
/// units, which is 2^33 pixels. With points in this range the edge
/// functions and the interpolation fit into 128 bits at every place of the
/// plane.
pub const COORD_MAX: i64 = 0x800_0000_0000;

/// Largest extent in pixels, along either axis, of a raster whose pixels all
/// have coordinates, corners included.
pub const MAX_EXTENT: u64 = 0x2_0000_0000;

/// Largest extent in pixels, along either axis, of the bounding box of a
/// triangle that is painted. A triangle that reaches this extent joins
/// points on the two sides of the seam of the cylinder and is skipped.
pub const MAX_SPAN: u64 = 100;

/// The pixel column or row at or before the coordinate `v`; coordinates left
/// of or above the origin count as 0.
pub open spec fn floor_px_spec(v: int) -> int {
    if v < 0 {
        0
    } else {
        v / (SUBPIXELS as int)
    }
}

/// The pixel column or row at or after the coordinate `v`; coordinates left
/// of or above the origin count as 0.
pub open spec fn ceil_px_spec(v: int) -> int {
    if v <= 0 {
        0
    } else {
        (v + SUBPIXELS - 1) / (SUBPIXELS as int)
    }
}

/// The pixel column or row at or before the coordinate `v`.
pub fn floor_px(v: i64) -> (p: u64)
    ensures
        p == floor_px_spec(v as int),
        p <= 0x20_0000_0000_0000,
{
    if v < 0 {
        0
    } else {
        (v / 1024) as u64
    }
}

/// The pixel column or row at or after the coordinate `v`.
pub fn ceil_px(v: i64) -> (p: u64)
    ensures
        p == ceil_px_spec(v as int),
        p <= 0x20_0000_0000_0000,
{
    if v <= 0 {
        0
    } else if v % 1024 == 0 {
        (v / 1024) as u64
    } else {
        (v / 1024 + 1) as u64
    }
}

/// The coordinate of pixel column or row `p`.
pub open spec fn px_coord_spec(p: int) -> int {
    p * SUBPIXELS
}

/// The coordinate of pixel column or row `p`.
pub fn px_coord(p: u64) -> (v: i64)
    requires
        p <= MAX_EXTENT,
    ensures
        v == px_coord_spec(p as int),
        -COORD_MAX <= v <= COORD_MAX,
{
    (p * 1024) as i64
}

/// A point of the map plane with the colour sample it carries.
#[derive(Debug, Clone, Copy, PartialEq, Eq, Structural)]
pub struct Point {
    pub x: i64,
    pub y: i64,
    pub r: u16,
    pub g: u16,
    pub b: u16,
}

impl Point {
    /// Whether the point lies within the reach of coordinates.
    pub open spec fn wf(self) -> bool {
        &&& -COORD_MAX <= self.x <= COORD_MAX
        &&& -COORD_MAX <= self.y <= COORD_MAX
    }

    /// A point at `(x, y)` carrying the colour `(r, g, b)`.
    pub fn create(x: i64, y: i64, r: u16, g: u16, b: u16) -> (p: Self)
        ensures
            p == (Point { x, y, r, g, b }),
    {
        Point { x, y, r, g, b }
    }

    /// Whether the point lies within the reach of coordinates.
    pub fn in_reach(&self) -> (ok: bool)
        ensures
            ok == self.wf(),
    {
        -COORD_MAX <= self.x && self.x <= COORD_MAX && -COORD_MAX <= self.y && self.y <= COORD_MAX
    }
}

/// Edge function of the directed edge through `a` and `b`, evaluated at
/// `(px, py)`: the cross product of `p - b` and `a - b`. It is zero on the
/// line through `a` and `b` and has opposite signs on its two sides.
pub open spec fn edge_sign(px: int, py: int, a: Point, b: Point) -> int {
    (px - b.x) * (a.y - b.y) - (a.x - b.x) * (py - b.y)
}

/// Smallest of three integers.
pub open spec fn min3(a: int, b: int, c: int) -> int {
    if a <= b && a <= c {
        a
    } else if b <= c {
        b
    } else {
        c
    }
}

/// Largest of three integers.
pub open spec fn max3(a: int, b: int, c: int) -> int {
    if a >= b && a >= c {
        a
    } else if b >= c {
        b
    } else {
        c
    }
}

/// Three points of the map plane.
#[derive(Debug, Clone, Copy, PartialEq, Eq, Structural)]
pub struct Triangle {
    pub p0: Point,
    pub p1: Point,
    pub p2: Point,
}

impl Triangle {
    /// Whether all three vertices lie within the reach of coordinates.
    pub open spec fn wf(self) -> bool {
        self.p0.wf() && self.p1.wf() && self.p2.wf()
    }

    /// Twice the signed area of the triangle. Zero exactly when the three
    /// vertices lie on one line.
    pub open spec fn det(self) -> int {
        edge_sign(self.p0.x as int, self.p0.y as int, self.p1, self.p2)
    }

    /// Edge function of the side opposite `p0`.
    pub open spec fn w0(self, x: int, y: int) -> int {
        edge_sign(x, y, self.p1, self.p2)
    }

    /// Edge function of the side opposite `p1`.
    pub open spec fn w1(self, x: int, y: int) -> int {
        edge_sign(x, y, self.p2, self.p0)
    }

    /// Edge function of the side opposite `p2`.
    pub open spec fn w2(self, x: int, y: int) -> int {
        edge_sign(x, y, self.p0, self.p1)
    }

    /// Whether `(x, y)` lies in the closed triangle: no two of the three
    /// edge functions have strictly opposite signs.
    pub open spec fn contains_spec(self, x: int, y: int) -> bool {
        ||| (self.w0(x, y) <= 0 && self.w1(x, y) <= 0 && self.w2(x, y) <= 0)
        ||| (self.w0(x, y) >= 0 && self.w1(x, y) >= 0 && self.w2(x, y) >= 0)
    }

    /// The three edge functions weighted by the channel values of the
    /// opposite vertices. Divided by `det` this is the affine function that
    /// takes the value `c_i` at vertex `i`.
    pub open spec fn numerator(self, x: int, y: int, c0: int, c1: int, c2: int) -> int {
        self.w0(x, y) * c0 + self.w1(x, y) * c1 + self.w2(x, y) * c2
    }

    /// The channel value interpolated at `(x, y)`, rounded toward negative
    /// infinity. Meaningful for triangles with `det != 0`.
    pub open spec fn interpolate_spec(self, x: int, y: int, c0: int, c1: int, c2: int) -> int {
        if self.det() > 0 {
            self.numerator(x, y, c0, c1, c2) / self.det()
        } else {
            (-self.numerator(x, y, c0, c1, c2)) / (-self.det())
        }
    }

    /// First pixel column of the bounding box.
    pub open spec fn x_lo(self) -> int {
        floor_px_spec(min3(self.p0.x as int, self.p1.x as int, self.p2.x as int))
    }

    /// Last pixel column of the bounding box.
    pub open spec fn x_hi(self) -> int {
        ceil_px_spec(max3(self.p0.x as int, self.p1.x as int, self.p2.x as int))
    }

    /// First pixel row of the bounding box.
    pub open spec fn y_lo(self) -> int {
        floor_px_spec(min3(self.p0.y as int, self.p1.y as int, self.p2.y as int))
    }

    /// Last pixel row of the bounding box.
    pub open spec fn y_hi(self) -> int {
        ceil_px_spec(max3(self.p0.y as int, self.p1.y as int, self.p2.y as int))
    }

    /// Whether the triangle is painted at all: its vertices are not on one
    /// line, and its bounding box extends over fewer than `MAX_SPAN` pixels
    /// along both axes.
    pub open spec fn paintable(self) -> bool {
        &&& self.det() != 0
        &&& self.x_hi() - self.x_lo() < MAX_SPAN
        &&& self.y_hi() - self.y_lo() < MAX_SPAN
    }

    /// Whether painting the triangle writes the pixel in column `x` and row
    /// `y`: the triangle is painted and the pixel lies in it, edges
    /// included.
    pub open spec fn covers(self, x: int, y: int) -> bool {
        self.paintable() && self.contains_spec(x * SUBPIXELS, y * SUBPIXELS)
    }

    /// The colour that the triangle has at the pixel in column `x` and row
    /// `y`, interpolated from the colours of its vertices.
    pub open spec fn color_at(self, x: int, y: int) -> Rgb {
        Rgb {
            r: self.interpolate_spec(
                x * SUBPIXELS,
                y * SUBPIXELS,
                self.p0.r as int,
                self.p1.r as int,
                self.p2.r as int,
            ) as u16,
            g: self.interpolate_spec(
                x * SUBPIXELS,
                y * SUBPIXELS,
                self.p0.g as int,
                self.p1.g as int,
                self.p2.g as int,
            ) as u16,
            b: self.interpolate_spec(
                x * SUBPIXELS,
                y * SUBPIXELS,
                self.p0.b as int,
                self.p1.b as int,
                self.p2.b as int,
            ) as u16,
        }
    }

    /// Value of the edge function of the directed edge `p1 -> p2` at `p0`.
    pub fn sign(p0: &Point, p1: &Point, p2: &Point) -> (s: i128)
        requires
            p1.wf(),
            p2.wf(),
        ensures
            s == edge_sign(p0.x as int, p0.y as int, *p1, *p2),
    {
        Self::edge_at(p0.x, p0.y, p1, p2)
    }

    /// Value at `(x, y)` of the edge function of the directed edge `a -> b`.
    pub fn edge_at(x: i64, y: i64, a: &Point, b: &Point) -> (s: i128)
        requires
            a.wf(),
            b.wf(),
        ensures
            s == edge_sign(x as int, y as int, *a, *b),
            -0x2000_0000_0000_0000_0000_0000_0000 <= s <= 0x2000_0000_0000_0000_0000_0000_0000,
    {
        let dx: i128 = x as i128 - b.x as i128;
        let dy: i128 = y as i128 - b.y as i128;
        let ex: i128 = a.x as i128 - b.x as i128;
        let ey: i128 = a.y as i128 - b.y as i128;
        proof {
            lemma_mul_bounded(dx as int, ey as int, 0x8000_0800_0000_0000, 0x1000_0000_0000);
            lemma_mul_bounded(ex as int, dy as int, 0x1000_0000_0000, 0x8000_0800_0000_0000);
        }
        dx * ey - ex * dy
    }

    /// Whether the three vertices lie on one line.
    pub fn is_degenerate(&self) -> (d: bool)
        requires
            self.wf(),
        ensures
            d == (self.det() == 0),
    {
        Self::sign(&self.p0, &self.p1, &self.p2) == 0
    }

    /// Whether `(x, y)` lies in the closed triangle.
    pub fn contains(&self, x: i64, y: i64) -> (inside: bool)
        requires
            self.wf(),
        ensures
            inside == self.contains_spec(x as int, y as int),
    {
        let s0: i128 = Self::edge_at(x, y, &self.p1, &self.p2);
        let s1: i128 = Self::edge_at(x, y, &self.p2, &self.p0);
        let s2: i128 = Self::edge_at(x, y, &self.p0, &self.p1);
        (s0 <= 0 && s1 <= 0 && s2 <= 0) || (s0 >= 0 && s1 >= 0 && s2 >= 0)
    }

    /// Smallest x coordinate of the three vertices.
    pub fn x_min(&self) -> (m: i64)
        ensures
            m == min3(self.p0.x as int, self.p1.x as int, self.p2.x as int),
    {
        if self.p0.x <= self.p1.x && self.p0.x <= self.p2.x {
            self.p0.x
        } else if self.p1.x <= self.p2.x {
            self.p1.x
        } else {
            self.p2.x
        }
    }

    /// Largest x coordinate of the three vertices.
    pub fn x_max(&self) -> (m: i64)
        ensures
            m == max3(self.p0.x as int, self.p1.x as int, self.p2.x as int),
    {
        if self.p0.x >= self.p1.x && self.p0.x >= self.p2.x {
            self.p0.x
        } else if self.p1.x >= self.p2.x {
            self.p1.x
        } else {
            self.p2.x
        }
    }

    /// Smallest y coordinate of the three vertices.
    pub fn y_min(&self) -> (m: i64)
        ensures
            m == min3(self.p0.y as int, self.p1.y as int, self.p2.y as int),
    {
        if self.p0.y <= self.p1.y && self.p0.y <= self.p2.y {
            self.p0.y
        } else if self.p1.y <= self.p2.y {
            self.p1.y
        } else {
            self.p2.y
        }
    }

    /// Largest y coordinate of the three vertices.
    pub fn y_max(&self) -> (m: i64)
        ensures
            m == max3(self.p0.y as int, self.p1.y as int, self.p2.y as int),
    {
        if self.p0.y >= self.p1.y && self.p0.y >= self.p2.y {
            self.p0.y
        } else if self.p1.y >= self.p2.y {
            self.p1.y
        } else {
            self.p2.y
        }
    }

    /// One colour channel interpolated at `(x, y)` from the values `c0`,
    /// `c1`, `c2` that the channel has at the three vertices.
    pub fn interpolate_color_channel(&self, x: i64, y: i64, c0: u16, c1: u16, c2: u16) -> (v: i128)
        requires
            self.wf(),
            self.det() != 0,
        ensures
            v == self.interpolate_spec(x as int, y as int, c0 as int, c1 as int, c2 as int),
            (x == self.p0.x && y == self.p0.y) ==> v == c0,
            (x == self.p1.x && y == self.p1.y) ==> v == c1,
            (x == self.p2.x && y == self.p2.y) ==> v == c2,
            self.contains_spec(x as int, y as int) ==> min3(c0 as int, c1 as int, c2 as int) <= v
                <= max3(c0 as int, c1 as int, c2 as int),
    {
        let det: i128 = Self::edge_at(self.p0.x, self.p0.y, &self.p1, &self.p2);
        let s0: i128 = Self::edge_at(x, y, &self.p1, &self.p2);
        let s1: i128 = Self::edge_at(x, y, &self.p2, &self.p0);
        let s2: i128 = Self::edge_at(x, y, &self.p0, &self.p1);
        proof {
            let m: int = 0x2000_0000_0000_0000_0000_0000_0000;
            lemma_mul_bounded(s0 as int, c0 as int, m, 0xffff);
            lemma_mul_bounded(s1 as int, c1 as int, m, 0xffff);
            lemma_mul_bounded(s2 as int, c2 as int, m, 0xffff);
            self.lemma_vertex_exact(c0 as int, c1 as int, c2 as int);
            if self.contains_spec(x as int, y as int) {
                self.lemma_interpolation_bounded(
                    x as int,
                    y as int,
                    c0 as int,
                    c1 as int,
                    c2 as int,
                );
            }
        }
        let num: i128 = s0 * (c0 as i128) + s1 * (c1 as i128) + s2 * (c2 as i128);
        if det > 0 {
            floor_div(num, det)
        } else {
            floor_div(-num, -det)
        }
    }

    /// The colour interpolated at `(x, y)` from the colours of the three
    /// vertices, channel by channel.
    pub fn interpolate_color(&self, x: i64, y: i64) -> (c: (i128, i128, i128))
        requires
            self.wf(),
            self.det() != 0,
        ensures
            c.0 == self.interpolate_spec(
                x as int,
                y as int,
                self.p0.r as int,
                self.p1.r as int,
                self.p2.r as int,
            ),
            c.1 == self.interpolate_spec(
                x as int,
                y as int,
                self.p0.g as int,
                self.p1.g as int,
                self.p2.g as int,
            ),
            c.2 == self.interpolate_spec(
                x as int,
                y as int,
                self.p0.b as int,
                self.p1.b as int,
                self.p2.b as int,
            ),
            self.contains_spec(x as int, y as int) ==> 0 <= c.0 <= 0xffff && 0 <= c.1 <= 0xffff && 0
                <= c.2 <= 0xffff,
    {
        let r = self.interpolate_color_channel(x, y, self.p0.r, self.p1.r, self.p2.r);
        let g = self.interpolate_color_channel(x, y, self.p0.g, self.p1.g, self.p2.g);
        let b = self.interpolate_color_channel(x, y, self.p0.b, self.p1.b, self.p2.b);
        (r, g, b)
    }

    /// Whether `(x, y)` is the mean of the three vertices taken with the
    /// integer weights `a0`, `a1`, `a2`, whose sum is positive. Every point
    /// with integer coordinates has such weights when `det != 0`; they are
    /// its barycentric coordinates up to a common factor.
    pub open spec fn is_weighted_mean(self, x: int, y: int, a0: int, a1: int, a2: int) -> bool {
        &&& a0 + a1 + a2 > 0
        &&& (a0 + a1 + a2) * x == a0 * self.p0.x + a1 * self.p1.x + a2 * self.p2.x
        &&& (a0 + a1 + a2) * y == a0 * self.p0.y + a1 * self.p1.y + a2 * self.p2.y
    }

    /// The three edge functions add up to `det` at every point.
    pub proof fn lemma_weights_sum(self, x: int, y: int)
        ensures
            self.w0(x, y) + self.w1(x, y) + self.w2(x, y) == self.det(),
    {
        let t = self;
        lemma_cross_expand(x, t.p2.x as int, t.p1.y as int, t.p2.y as int);
        lemma_cross_expand(t.p1.x as int, t.p2.x as int, y, t.p2.y as int);
        lemma_cross_expand(x, t.p0.x as int, t.p2.y as int, t.p0.y as int);
        lemma_cross_expand(t.p2.x as int, t.p0.x as int, y, t.p0.y as int);
        lemma_cross_expand(x, t.p1.x as int, t.p0.y as int, t.p1.y as int);
        lemma_cross_expand(t.p0.x as int, t.p1.x as int, y, t.p1.y as int);
        lemma_cross_expand(t.p0.x as int, t.p2.x as int, t.p1.y as int, t.p2.y as int);
        lemma_cross_expand(t.p1.x as int, t.p2.x as int, t.p0.y as int, t.p2.y as int);
    }

    /// At each vertex the edge function of the opposite side is `det`, and
    /// the other two are 0.
    pub proof fn lemma_vertex_weights(self)
        ensures
            self.w0(self.p0.x as int, self.p0.y as int) == self.det(),
            self.w1(self.p0.x as int, self.p0.y as int) == 0,
            self.w2(self.p0.x as int, self.p0.y as int) == 0,
            self.w0(self.p1.x as int, self.p1.y as int) == 0,
            self.w1(self.p1.x as int, self.p1.y as int) == self.det(),
            self.w2(self.p1.x as int, self.p1.y as int) == 0,
            self.w0(self.p2.x as int, self.p2.y as int) == 0,
            self.w1(self.p2.x as int, self.p2.y as int) == 0,
            self.w2(self.p2.x as int, self.p2.y as int) == self.det(),
    {
        let t = self;
        t.lemma_weights_sum(t.p0.x as int, t.p0.y as int);
        t.lemma_weights_sum(t.p1.x as int, t.p1.y as int);
        t.lemma_weights_sum(t.p2.x as int, t.p2.y as int);
        lemma_mul_by_zero(t.p0.x - t.p0.x, t.p2.y - t.p0.y);
        lemma_mul_by_zero(t.p2.x - t.p0.x, t.p0.y - t.p0.y);
        lemma_mul_by_zero(t.p1.x - t.p1.x, t.p0.y - t.p1.y);
        lemma_mul_by_zero(t.p0.x - t.p1.x, t.p1.y - t.p1.y);
        lemma_mul_by_zero(t.p2.x - t.p2.x, t.p1.y - t.p2.y);
        lemma_mul_by_zero(t.p1.x - t.p2.x, t.p2.y - t.p2.y);
    }

    /// Interpolating at a vertex of a triangle with `det != 0` returns the
    /// value given for that vertex.
    pub proof fn lemma_vertex_exact(self, c0: int, c1: int, c2: int)
        requires
            self.det() != 0,
        ensures
            self.interpolate_spec(self.p0.x as int, self.p0.y as int, c0, c1, c2) == c0,
            self.interpolate_spec(self.p1.x as int, self.p1.y as int, c0, c1, c2) == c1,
            self.interpolate_spec(self.p2.x as int, self.p2.y as int, c0, c1, c2) == c2,
    {
        let t = self;
        let d = t.det();
        t.lemma_weights_sum(t.p0.x as int, t.p0.y as int);
        t.lemma_weights_sum(t.p1.x as int, t.p1.y as int);
        t.lemma_weights_sum(t.p2.x as int, t.p2.y as int);
        t.lemma_vertex_weights();
        lemma_mul_by_zero(0, c0);
        lemma_mul_by_zero(0, c1);
        lemma_mul_by_zero(0, c2);
        assert(t.numerator(t.p0.x as int, t.p0.y as int, c0, c1, c2) == d * c0);
        assert(t.numerator(t.p1.x as int, t.p1.y as int, c0, c1, c2) == d * c1);
        assert(t.numerator(t.p2.x as int, t.p2.y as int, c0, c1, c2) == d * c2);
        if d > 0 {
            lemma_div_exact(c0, d);
            lemma_div_exact(c1, d);
            lemma_div_exact(c2, d);
        } else {
            lemma_mul_neg(d, c0);
            lemma_mul_neg(d, c1);
            lemma_mul_neg(d, c2);
            lemma_div_exact(c0, -d);
            lemma_div_exact(c1, -d);
            lemma_div_exact(c2, -d);
        }
    }

    /// Inside the closed triangle the interpolated value stays between the
    /// smallest and the largest of the three vertex values.
    pub proof fn lemma_interpolation_bounded(self, x: int, y: int, c0: int, c1: int, c2: int)
        requires
            self.det() != 0,
            self.contains_spec(x, y),
        ensures
            min3(c0, c1, c2) <= self.interpolate_spec(x, y, c0, c1, c2) <= max3(c0, c1, c2),
    {
        let t = self;
        let d = t.det();
        let a0 = t.w0(x, y);
        let a1 = t.w1(x, y);
        let a2 = t.w2(x, y);
        let lo = min3(c0, c1, c2);
        let hi = max3(c0, c1, c2);
        let n = t.numerator(x, y, c0, c1, c2);
        t.lemma_weights_sum(x, y);
        if d > 0 {
            lemma_weighted_sum_between(a0, a1, a2, c0, c1, c2, lo, hi);
            assert(lo * d <= n <= hi * d);
            lemma_div_between(n, d, lo, hi);
        } else {
            lemma_weighted_sum_between(-a0, -a1, -a2, c0, c1, c2, lo, hi);
            lemma_mul_neg(a0, c0);
            lemma_mul_neg(a1, c1);
            lemma_mul_neg(a2, c2);
            assert(-a0 + -a1 + -a2 == -d);
            assert(lo * (-d) <= -n <= hi * (-d));
            lemma_div_between(-n, -d, lo, hi);
        }
    }

    /// At the weighted mean of the vertices each edge function is the weight
    /// of the opposite vertex times `det`, up to the sum of the weights.
    pub proof fn lemma_weights_of_mean(self, x: int, y: int, a0: int, a1: int, a2: int)
        requires
            self.is_weighted_mean(x, y, a0, a1, a2),
        ensures
            (a0 + a1 + a2) * self.w0(x, y) == a0 * self.det(),
            (a0 + a1 + a2) * self.w1(x, y) == a1 * self.det(),
            (a0 + a1 + a2) * self.w2(x, y) == a2 * self.det(),
    {
        let t = self;
        lemma_edge_of_mean(
            x, y,
            t.p0.x as int, t.p0.y as int,
            t.p1.x as int, t.p1.y as int,
            t.p2.x as int, t.p2.y as int,
            a0, a1, a2,
        );
        lemma_edge_of_mean(
            x, y,
            t.p1.x as int, t.p1.y as int,
            t.p2.x as int, t.p2.y as int,
            t.p0.x as int, t.p0.y as int,
            a1, a2, a0,
        );
        lemma_edge_of_mean(
            x, y,
            t.p2.x as int, t.p2.y as int,
            t.p0.x as int, t.p0.y as int,
            t.p1.x as int, t.p1.y as int,
            a2, a0, a1,
        );
        // Each edge function takes the value `det` at the opposite vertex.
        t.lemma_vertex_weights();
    }

    /// A point strictly inside a triangle with `det != 0`, that is a mean of
    /// its vertices with three positive weights, gives the three edge
    /// functions one common strict sign, and the containment test accepts it.
    pub proof fn lemma_strictly_inside_signs_agree(
        self,
        x: int,
        y: int,
        a0: int,
        a1: int,
        a2: int,
    )
        requires
            self.det() != 0,
            self.is_weighted_mean(x, y, a0, a1, a2),
            a0 > 0,
            a1 > 0,
            a2 > 0,
        ensures
            (self.w0(x, y) < 0 && self.w1(x, y) < 0 && self.w2(x, y) < 0) || (self.w0(x, y) > 0
                && self.w1(x, y) > 0 && self.w2(x, y) > 0),
            self.contains_spec(x, y),
    {
        self.lemma_weights_of_mean(x, y, a0, a1, a2);
        let s = a0 + a1 + a2;
        lemma_sign_of_scaled(s, self.w0(x, y), a0, self.det());
        lemma_sign_of_scaled(s, self.w1(x, y), a1, self.det());
        lemma_sign_of_scaled(s, self.w2(x, y), a2, self.det());
    }

    /// A point strictly outside a triangle with `det != 0`, that is a mean
    /// of its vertices in which some weight is negative, gives two of the
    /// edge functions strictly opposite signs, and the containment test
    /// rejects it.
    pub proof fn lemma_strictly_outside_signs_disagree(
        self,
        x: int,
        y: int,
        a0: int,
        a1: int,
        a2: int,
    )
        requires
            self.det() != 0,
            self.is_weighted_mean(x, y, a0, a1, a2),
            a0 < 0 || a1 < 0 || a2 < 0,
        ensures
            (self.w0(x, y) < 0 || self.w1(x, y) < 0 || self.w2(x, y) < 0) && (self.w0(x, y) > 0
                || self.w1(x, y) > 0 || self.w2(x, y) > 0),
            !self.contains_spec(x, y),
    {
        self.lemma_weights_of_mean(x, y, a0, a1, a2);
        let s = a0 + a1 + a2;
        lemma_sign_of_scaled(s, self.w0(x, y), a0, self.det());
        lemma_sign_of_scaled(s, self.w1(x, y), a1, self.det());
        lemma_sign_of_scaled(s, self.w2(x, y), a2, self.det());
    }

    /// The containment test accepts the edges and the vertices: a mean of
    /// the vertices in which no weight is negative lies in the closed
    /// triangle.
    pub proof fn lemma_closed_triangle_contained(
        self,
        x: int,
        y: int,
        a0: int,
        a1: int,
        a2: int,
    )
        requires
            self.is_weighted_mean(x, y, a0, a1, a2),
            a0 >= 0,
            a1 >= 0,
            a2 >= 0,
        ensures
            self.contains_spec(x, y),
    {
        self.lemma_weights_of_mean(x, y, a0, a1, a2);
        let s = a0 + a1 + a2;
        lemma_sign_of_scaled(s, self.w0(x, y), a0, self.det());
        lemma_sign_of_scaled(s, self.w1(x, y), a1, self.det());
        lemma_sign_of_scaled(s, self.w2(x, y), a2, self.det());
    }

    /// A point that the containment test accepts is a mean of the vertices
    /// in which no weight is negative: with `det > 0` the weights are the
    /// three edge functions, with `det < 0` their negatives.
    pub proof fn lemma_contained_is_mean(self, x: int, y: int)
        requires
            self.det() != 0,
            self.contains_spec(x, y),
        ensures
            self.det() > 0 ==> self.is_weighted_mean(
                x,
                y,
                self.w0(x, y),
                self.w1(x, y),
                self.w2(x, y),
            ) && self.w0(x, y) >= 0 && self.w1(x, y) >= 0 && self.w2(x, y) >= 0,
            self.det() < 0 ==> self.is_weighted_mean(
                x,
                y,
                -self.w0(x, y),
                -self.w1(x, y),
                -self.w2(x, y),
            ) && self.w0(x, y) <= 0 && self.w1(x, y) <= 0 && self.w2(x, y) <= 0,
    {
        self.lemma_weights_sum(x, y);
        self.lemma_point_from_weights(x, y);
        let d = self.det();
        let w0 = self.w0(x, y);
        let w1 = self.w1(x, y);
        let w2 = self.w2(x, y);
        if d < 0 {
            assert(-w0 + -w1 + -w2 == -d);
            lemma_mul_neg(d, x);
            lemma_mul_neg(d, y);
            lemma_mul_neg(w0, self.p0.x as int);
            lemma_mul_neg(w1, self.p1.x as int);
            lemma_mul_neg(w2, self.p2.x as int);
            lemma_mul_neg(w0, self.p0.y as int);
            lemma_mul_neg(w1, self.p1.y as int);
            lemma_mul_neg(w2, self.p2.y as int);
        }
    }

    /// Every point is the mean of the vertices weighted by its own edge
    /// functions: `det * (x, y) = w0 * p0 + w1 * p1 + w2 * p2`.
    pub proof fn lemma_point_from_weights(self, x: int, y: int)
        ensures
            self.det() * x == self.w0(x, y) * self.p0.x + self.w1(x, y) * self.p1.x + self.w2(x, y)
                * self.p2.x,
            self.det() * y == self.w0(x, y) * self.p0.y + self.w1(x, y) * self.p1.y + self.w2(x, y)
                * self.p2.y,
    {
        let t = self;
        t.lemma_weights_sum(x, y);
        lemma_mean_from_edges(
            x, y,
            t.p0.x as int, t.p0.y as int,
            t.p1.x as int, t.p1.y as int,
            t.p2.x as int, t.p2.y as int,
        );
    }

    /// A point of the closed triangle lies in the bounding box of the
    /// vertices.
    pub proof fn lemma_contained_in_bounding_box(self, x: int, y: int)
        requires
            self.det() != 0,
            self.contains_spec(x, y),
        ensures
            min3(self.p0.x as int, self.p1.x as int, self.p2.x as int) <= x <= max3(
                self.p0.x as int,
                self.p1.x as int,
                self.p2.x as int,
            ),
            min3(self.p0.y as int, self.p1.y as int, self.p2.y as int) <= y <= max3(
                self.p0.y as int,
                self.p1.y as int,
                self.p2.y as int,
            ),
    {
        let t = self;
        t.lemma_weights_sum(x, y);
        t.lemma_point_from_weights(x, y);
        lemma_mean_between(
            t.det(), x,
            t.w0(x, y), t.w1(x, y), t.w2(x, y),
            t.p0.x as int, t.p1.x as int, t.p2.x as int,
        );
        lemma_mean_between(
            t.det(), y,
            t.w0(x, y), t.w1(x, y), t.w2(x, y),
            t.p0.y as int, t.p1.y as int, t.p2.y as int,
        );
    }

    /// Whether all three vertices carry the colour `c`.
    pub open spec fn uniform(self, c: Rgb) -> bool {
        &&& self.p0.r == c.r && self.p0.g == c.g && self.p0.b == c.b
        &&& self.p1.r == c.r && self.p1.g == c.g && self.p1.b == c.b
        &&& self.p2.r == c.r && self.p2.g == c.g && self.p2.b == c.b
    }

    /// A triangle of one colour has that colour wherever it is painted.
    pub proof fn lemma_uniform_color(self, x: int, y: int, c: Rgb)
        requires
            self.covers(x, y),
            self.uniform(c),
        ensures
            self.color_at(x, y) == c,
    {
        let sx = x * SUBPIXELS;
        let sy = y * SUBPIXELS;
        self.lemma_interpolation_bounded(sx, sy, c.r as int, c.r as int, c.r as int);
        self.lemma_interpolation_bounded(sx, sy, c.g as int, c.g as int, c.g as int);
        self.lemma_interpolation_bounded(sx, sy, c.b as int, c.b as int, c.b as int);
    }

    /// The pixels that painting writes lie in the bounding box.
    pub proof fn lemma_covered_in_box(self, x: int, y: int)
        requires
            self.covers(x, y),
            0 <= x,
            0 <= y,
        ensures
            self.x_lo() <= x <= self.x_hi(),
            self.y_lo() <= y <= self.y_hi(),
    {
        self.lemma_contained_in_bounding_box(x * SUBPIXELS, y * SUBPIXELS);
    }
}

/// With `s * (x, y)` the sum of the points `a`, `b`, `c` weighted by `wa`,
/// `wb`, `wc`, and `s` the sum of the weights, the edge function of `b -> c`
/// at `(x, y)` is `wa / s` times its value at `a`.
proof fn lemma_edge_of_mean(
    x: int,
    y: int,
    ax: int,
    ay: int,
    bx: int,
    by: int,
    cx: int,
    cy: int,
    wa: int,
    wb: int,
    wc: int,
)
    requires
        (wa + wb + wc) * x == wa * ax + wb * bx + wc * cx,
        (wa + wb + wc) * y == wa * ay + wb * by + wc * cy,
    ensures
        (wa + wb + wc) * ((x - cx) * (by - cy) - (bx - cx) * (y - cy)) == wa * ((ax - cx) * (by
            - cy) - (bx - cx) * (ay - cy)),
{
    let s = wa + wb + wc;
    let u = ax - cx;
    let v = bx - cx;
    let p = ay - cy;
    let q = by - cy;
    let dx = x - cx;
    let dy = y - cy;
    lemma_shifted_mean(s, x, cx, wa, wb, wc, ax, bx);
    lemma_shifted_mean(s, y, cy, wa, wb, wc, ay, by);
    assert(s * dx == wa * u + wb * v);
    assert(s * dy == wa * p + wb * q);
    // s (dx q - v dy) = (s dx) q - v (s dy)
    lemma_mul_distributes(dx * q, v * dy, s);
    lemma_mul_swaps(s, dx, q);
    lemma_mul_swaps(s, v, dy);
    assert(s * (dx * q - v * dy) == (s * dx) * q - v * (s * dy));
    // (wa u + wb v) q - v (wa p + wb q) = wa (u q - v p)
    lemma_mul_distributes(wa * u, wb * v, q);
    lemma_mul_distributes(wa * p, wb * q, v);
    lemma_mul_distributes(u * q, v * p, wa);
    lemma_mul_swaps(wa, u, q);
    lemma_mul_swaps(wb, v, q);
    lemma_mul_swaps(v, wa, p);
    assert((wa * u + wb * v) * q - v * (wa * p + wb * q) == wa * (u * q - v * p));
}

/// Moving the origin to `c` in a weighted mean: with `s` the sum of the
/// weights, `s * (x - c)` is `s * x` less the weighted sum of the values,
/// plus the weighted sum of the values taken from `c`.
proof fn lemma_shifted_mean(s: int, x: int, c: int, wa: int, wb: int, wc: int, a: int, b: int)
    requires
        s == wa + wb + wc,
    ensures
        s * (x - c) == s * x - (wa * a + wb * b + wc * c) + wa * (a - c) + wb * (b - c),
{
    lemma_mul_distributes(x, c, s);
    lemma_mul_distributes(a, c, wa);
    lemma_mul_distributes(b, c, wb);
    lemma_mul_distributes(wa, wb, c);
    lemma_mul_distributes(wa + wb, wc, c);
    lemma_mul_commutes(s, c);
    lemma_mul_commutes(wa, c);
    lemma_mul_commutes(wb, c);
    lemma_mul_commutes(wc, c);
}

/// The identity behind barycentric coordinates, in plain integers.
proof fn lemma_mean_from_edges(
    x: int,
    y: int,
    x0: int,
    y0: int,
    x1: int,
    y1: int,
    x2: int,
    y2: int,
)
    ensures
        ({
            let w0 = (x - x2) * (y1 - y2) - (x1 - x2) * (y - y2);
            let w1 = (x - x0) * (y2 - y0) - (x2 - x0) * (y - y0);
            let w2 = (x - x1) * (y0 - y1) - (x0 - x1) * (y - y1);
            &&& (w0 + w1 + w2) * x == w0 * x0 + w1 * x1 + w2 * x2
            &&& (w0 + w1 + w2) * y == w0 * y0 + w1 * y1 + w2 * y2
        }),
{
    let w0 = (x - x2) * (y1 - y2) - (x1 - x2) * (y - y2);
    let w1 = (x - x0) * (y2 - y0) - (x2 - x0) * (y - y0);
    let w2 = (x - x1) * (y0 - y1) - (x0 - x1) * (y - y1);
    let u = x0 - x2;
    let v = x1 - x2;
    let p = y0 - y2;
    let q = y1 - y2;
    let dx = x - x2;
    let dy = y - y2;
    lemma_cross_expand(x, x2, y1, y2);
    lemma_cross_expand(x1, x2, y, y2);
    lemma_cross_expand(x, x0, y2, y0);
    lemma_cross_expand(x2, x0, y, y0);
    lemma_cross_expand(x, x1, y0, y1);
    lemma_cross_expand(x0, x1, y, y1);
    lemma_cross_expand(x0, x2, y1, y2);
    lemma_cross_expand(x1, x2, y0, y2);
    lemma_cross_expand(x0, x2, y, y2);
    lemma_cross_expand(x, x2, y0, y2);
    assert(w0 == dx * q - v * dy);
    assert(w1 == u * dy - dx * p);
    assert(w0 + w1 + w2 == u * q - v * p);
    let d = w0 + w1 + w2;
    lemma_cross_products(u, v, p, q, dx, dy);
    assert(d * dx == w0 * u + w1 * v);
    assert(d * dy == w0 * p + w1 * q);
    lemma_unshifted_mean(d, x, x2, w0, w1, w2, x0, x1);
    lemma_unshifted_mean(d, y, y2, w0, w1, w2, y0, y1);
}

/// With `d = u * q - v * p`, `w0 = dx * q - v * dy` and `w1 = u * dy - dx *
/// p`: `d * dx = w0 * u + w1 * v` and `d * dy = w0 * p + w1 * q`.
proof fn lemma_cross_products(u: int, v: int, p: int, q: int, dx: int, dy: int)
    ensures
        (u * q - v * p) * dx == (dx * q - v * dy) * u + (u * dy - dx * p) * v,
        (u * q - v * p) * dy == (dx * q - v * dy) * p + (u * dy - dx * p) * q,
{
    lemma_mul_distributes(u * q, v * p, dx);
    lemma_mul_distributes(dx * q, v * dy, u);
    lemma_mul_distributes(u * dy, dx * p, v);
    lemma_mul_distributes(u * q, v * p, dy);
    lemma_mul_distributes(dx * q, v * dy, p);
    lemma_mul_distributes(u * dy, dx * p, q);
    // (u q) dx = (dx q) u
    lemma_mul_swaps(u, q, dx);
    lemma_mul_swaps(dx, q, u);
    lemma_mul_commutes(u, dx);
    // (v dy) u = (u dy) v
    lemma_mul_swaps(v, dy, u);
    lemma_mul_swaps(u, dy, v);
    lemma_mul_commutes(u, v);
    // (v p) dx = (dx p) v
    lemma_mul_swaps(v, p, dx);
    lemma_mul_swaps(dx, p, v);
    lemma_mul_commutes(v, dx);
    // (u q) dy = (u dy) q
    lemma_mul_swaps(u, q, dy);
    // (v p) dy = (v dy) p
    lemma_mul_swaps(v, p, dy);
    // (dx q) p = (dx p) q
    lemma_mul_swaps(dx, q, p);
}

/// Moving the origin back from `c` in a weighted mean.
proof fn lemma_unshifted_mean(d: int, x: int, c: int, w0: int, w1: int, w2: int, a: int, b: int)
    requires
        d == w0 + w1 + w2,
    ensures
        d * x - (w0 * a + w1 * b + w2 * c) == d * (x - c) - (w0 * (a - c) + w1 * (b - c)),
{
    lemma_mul_distributes(x, c, d);
    lemma_mul_distributes(w0, w1, c);
    lemma_mul_distributes(w0 + w1, w2, c);
    lemma_mul_distributes(a, c, w0);
    lemma_mul_distributes(b, c, w1);
    lemma_mul_commutes(d, c);
    lemma_mul_commutes(w0, c);
    lemma_mul_commutes(w1, c);
    lemma_mul_commutes(w2, c);
}

/// With `s > 0` and `s * w == a * d`, the sign of `w` is the product of the
/// signs of `a` and `d`.
proof fn lemma_sign_of_scaled(s: int, w: int, a: int, d: int)
    requires
        s > 0,
        s * w == a * d,
    ensures
        (a > 0 && d > 0) ==> w > 0,
        (a > 0 && d < 0) ==> w < 0,
        (a < 0 && d > 0) ==> w < 0,
        (a < 0 && d < 0) ==> w > 0,
        (a == 0 || d == 0) ==> w == 0,
{
    lemma_mul_sign(s, w);
    lemma_mul_sign(a, d);
}

/// A mean with weights of one sign lies between the smallest and the
/// largest of the values averaged.
proof fn lemma_mean_between(d: int, x: int, w0: int, w1: int, w2: int, x0: int, x1: int, x2: int)
    requires
        d != 0,
        w0 + w1 + w2 == d,
        d * x == w0 * x0 + w1 * x1 + w2 * x2,
        (w0 <= 0 && w1 <= 0 && w2 <= 0) || (w0 >= 0 && w1 >= 0 && w2 >= 0),
    ensures
        min3(x0, x1, x2) <= x <= max3(x0, x1, x2),
{
    let lo = min3(x0, x1, x2);
    let hi = max3(x0, x1, x2);
    if d > 0 {
        lemma_weighted_sum_between(w0, w1, w2, x0, x1, x2, lo, hi);
        lemma_mul_commutes(d, x);
        assert(lo * d <= x * d <= hi * d);
        lemma_cancel(d, lo, x);
        lemma_cancel(d, x, hi);
    } else {
        lemma_weighted_sum_between(-w0, -w1, -w2, x0, x1, x2, lo, hi);
        lemma_mul_neg(w0, x0);
        lemma_mul_neg(w1, x1);
        lemma_mul_neg(w2, x2);
        lemma_mul_neg(d, x);
        lemma_mul_commutes(-d, x);
        assert(-w0 + -w1 + -w2 == -d);
        assert(lo * (-d) <= x * (-d) <= hi * (-d));
        lemma_cancel(-d, lo, x);
        lemma_cancel(-d, x, hi);
    }
}

} // verus!
