//! Rasters that triangles and quads are painted on.

use vstd::prelude::*;
use vstd::arithmetic::mul::{lemma_mul_basics, lemma_mul_inequality, lemma_mul_nonnegative};
use crate::arith::{
    lemma_cross_expand, lemma_mul_bounded, lemma_mul_by_zero, lemma_mul_commutes,
    lemma_mul_distributes, lemma_mul_sign,
};
use crate::color::{Eye, Rgb};
use crate::geometry::{
    ceil_px, ceil_px_spec, floor_px, floor_px_spec, Point, Triangle, MAX_SPAN, SUBPIXELS,
};

verus! {

/// What a raster holds: its extent and its pixels, row by row.
pub struct RasterView {
    pub width: nat,
    pub height: nat,
    pub rows: Seq<Seq<Rgb>>,
}

impl RasterView {
    /// There are `height` rows of `width` pixels each.
    pub open spec fn wf(self) -> bool {
        &&& self.rows.len() == self.height
        &&& forall|y: int| 0 <= y < self.height ==> (#[trigger] self.rows[y]).len() == self.width
    }

    /// The pixel in column `x` and row `y`.
    pub open spec fn pixel(self, x: int, y: int) -> Rgb {
        self.rows[y][x]
    }

    /// Whether column `x` and row `y` name a pixel of the raster.
    pub open spec fn has(self, x: int, y: int) -> bool {
        0 <= x < self.width && 0 <= y < self.height
    }

    /// The raster of the given extent whose pixels are all black.
    pub open spec fn blank(width: nat, height: nat) -> RasterView {
        RasterView {
            width,
            height,
            rows: Seq::new(height, |y: int| Seq::new(width, |x: int| Rgb::black())),
        }
    }

    /// The raster with the pixel in column `x` and row `y` replaced by `c`.
    pub open spec fn with_pixel(self, x: int, y: int, c: Rgb) -> RasterView {
        RasterView {
            width: self.width,
            height: self.height,
            rows: self.rows.update(y, self.rows[y].update(x, c)),
        }
    }

    /// Two well-formed rasters of one extent with the same pixels are the
    /// same raster.
    pub proof fn lemma_equal_by_pixels(self, other: RasterView)
        requires
            self.wf(),
            other.wf(),
            self.width == other.width,
            self.height == other.height,
            forall|x: int, y: int|
                self.has(x, y) ==> #[trigger] self.pixel(x, y) == other.pixel(x, y),
        ensures
            self == other,
    {
        assert forall|y: int| 0 <= y < self.height implies #[trigger] self.rows[y]
            == other.rows[y] by {
            assert forall|x: int| 0 <= x < self.width implies #[trigger] self.rows[y][x]
                == other.rows[y][x] by {
                assert(self.pixel(x, y) == other.pixel(x, y));
            }
            assert(self.rows[y] =~= other.rows[y]);
        }
        assert(self.rows =~= other.rows);
    }
}

/// What a pixel that holds `held` holds after `tri` has been painted: where
/// the triangle covers the pixel, its interpolated colour, blended with `held`
/// if `average` asks for it and written to the channels of `eye`; elsewhere
/// `held`.
pub open spec fn paint_pixel(
    held: Rgb,
    tri: Triangle,
    x: int,
    y: int,
    average: bool,
    eye: Eye,
) -> Rgb {
    if tri.covers(x, y) {
        eye.route_spec(held, Rgb::blend_spec(average, held, tri.color_at(x, y)))
    } else {
        held
    }
}

/// The raster `v` after `tri` has been painted on it.
pub open spec fn paint_tri_spec(
    v: RasterView,
    tri: Triangle,
    average: bool,
    eye: Eye,
) -> RasterView {
    RasterView {
        width: v.width,
        height: v.height,
        rows: Seq::new(
            v.height,
            |y: int|
                Seq::new(v.width, |x: int| paint_pixel(v.rows[y][x], tri, x, y, average, eye)),
        ),
    }
}

/// The first of the two triangles that a quad is painted as.
pub open spec fn upper_triangle(tl: Point, bl: Point, br: Point, tr: Point) -> Triangle {
    Triangle { p0: tl, p1: bl, p2: tr }
}

/// The second of the two triangles that a quad is painted as.
pub open spec fn lower_triangle(tl: Point, bl: Point, br: Point, tr: Point) -> Triangle {
    Triangle { p0: tr, p1: bl, p2: br }
}

/// The raster `v` after the quad with the given corners has been painted on
/// it: first the triangle `tl, bl, tr`, then the triangle `tr, bl, br`.
pub open spec fn paint_square_spec(
    v: RasterView,
    tl: Point,
    bl: Point,
    br: Point,
    tr: Point,
    average: bool,
    eye: Eye,
) -> RasterView {
    paint_tri_spec(
        paint_tri_spec(v, upper_triangle(tl, bl, br, tr), average, eye),
        lower_triangle(tl, bl, br, tr),
        average,
        eye,
    )
}

/// Painting keeps a raster well formed and of the same extent.
pub proof fn lemma_paint_tri_wf(v: RasterView, tri: Triangle, average: bool, eye: Eye)
    requires
        v.wf(),
    ensures
        paint_tri_spec(v, tri, average, eye).wf(),
        paint_tri_spec(v, tri, average, eye).width == v.width,
        paint_tri_spec(v, tri, average, eye).height == v.height,
        forall|x: int, y: int|
            v.has(x, y) ==> #[trigger] paint_tri_spec(v, tri, average, eye).pixel(x, y)
                == paint_pixel(v.pixel(x, y), tri, x, y, average, eye),
{
}

/// A triangle whose bounding box extends over `MAX_SPAN` pixels or more
/// along either axis leaves every raster as it was.
pub proof fn lemma_wide_triangle_paints_nothing(
    v: RasterView,
    tri: Triangle,
    average: bool,
    eye: Eye,
)
    requires
        v.wf(),
        tri.x_hi() - tri.x_lo() >= MAX_SPAN || tri.y_hi() - tri.y_lo() >= MAX_SPAN,
    ensures
        paint_tri_spec(v, tri, average, eye) == v,
{
    lemma_paint_tri_wf(v, tri, average, eye);
    paint_tri_spec(v, tri, average, eye).lemma_equal_by_pixels(v);
}

/// A triangle whose vertices lie on one line leaves every raster as it was.
pub proof fn lemma_flat_triangle_paints_nothing(
    v: RasterView,
    tri: Triangle,
    average: bool,
    eye: Eye,
)
    requires
        v.wf(),
        tri.det() == 0,
    ensures
        paint_tri_spec(v, tri, average, eye) == v,
{
    lemma_paint_tri_wf(v, tri, average, eye);
    paint_tri_spec(v, tri, average, eye).lemma_equal_by_pixels(v);
}

/// Painting a triangle changes a pixel only where the triangle covers it,
/// and there only in the channels of the eye: for the left eye red, for the
/// right eye green and blue, otherwise all three. Those channels take the
/// blended colour of the triangle.
pub proof fn lemma_eye_routing(
    v: RasterView,
    tri: Triangle,
    average: bool,
    eye: Eye,
    x: int,
    y: int,
    channel: int,
)
    requires
        v.wf(),
        v.has(x, y),
        0 <= channel <= 2,
    ensures
        paint_tri_spec(v, tri, average, eye).pixel(x, y).channel(channel) == if tri.covers(x, y)
            && eye.writes(channel) {
            Rgb::blend_spec(average, v.pixel(x, y), tri.color_at(x, y)).channel(channel)
        } else {
            v.pixel(x, y).channel(channel)
        },
{
    lemma_paint_tri_wf(v, tri, average, eye);
}

/// Painting the same triangle a second time, without averaging, changes
/// nothing.
pub proof fn lemma_paint_tri_idempotent(v: RasterView, tri: Triangle, eye: Eye)
    requires
        v.wf(),
    ensures
        paint_tri_spec(paint_tri_spec(v, tri, false, eye), tri, false, eye) == paint_tri_spec(
            v,
            tri,
            false,
            eye,
        ),
{
    let once = paint_tri_spec(v, tri, false, eye);
    let twice = paint_tri_spec(once, tri, false, eye);
    lemma_paint_tri_wf(v, tri, false, eye);
    lemma_paint_tri_wf(once, tri, false, eye);
    twice.lemma_equal_by_pixels(once);
}

/// Painting the same quad a second time, without averaging, changes nothing.
pub proof fn lemma_paint_square_idempotent(
    v: RasterView,
    tl: Point,
    bl: Point,
    br: Point,
    tr: Point,
    eye: Eye,
)
    requires
        v.wf(),
    ensures
        paint_square_spec(
            paint_square_spec(v, tl, bl, br, tr, false, eye),
            tl,
            bl,
            br,
            tr,
            false,
            eye,
        ) == paint_square_spec(v, tl, bl, br, tr, false, eye),
{
    let t1 = upper_triangle(tl, bl, br, tr);
    let t2 = lower_triangle(tl, bl, br, tr);
    let a = paint_tri_spec(v, t1, false, eye);
    let b = paint_tri_spec(a, t2, false, eye);
    let c = paint_tri_spec(b, t1, false, eye);
    let d = paint_tri_spec(c, t2, false, eye);
    lemma_paint_tri_wf(v, t1, false, eye);
    lemma_paint_tri_wf(a, t2, false, eye);
    lemma_paint_tri_wf(b, t1, false, eye);
    lemma_paint_tri_wf(c, t2, false, eye);
    d.lemma_equal_by_pixels(b);
}

/// Painting a quad keeps a raster well formed and of the same extent.
pub proof fn lemma_paint_square_wf(
    v: RasterView,
    tl: Point,
    bl: Point,
    br: Point,
    tr: Point,
    average: bool,
    eye: Eye,
)
    requires
        v.wf(),
    ensures
        paint_square_spec(v, tl, bl, br, tr, average, eye).wf(),
        paint_square_spec(v, tl, bl, br, tr, average, eye).width == v.width,
        paint_square_spec(v, tl, bl, br, tr, average, eye).height == v.height,
{
    let t1 = upper_triangle(tl, bl, br, tr);
    lemma_paint_tri_wf(v, t1, average, eye);
    let t2 = lower_triangle(tl, bl, br, tr);
    lemma_paint_tri_wf(paint_tri_spec(v, t1, average, eye), t2, average, eye);
}

/// The quad whose sides run along the axes from `(x0, y0)` to `(x1, y1)`,
/// in the colour `c` throughout: top left, bottom left, bottom right and top
/// right corner.
pub open spec fn rectangle(x0: i64, y0: i64, x1: i64, y1: i64, c: Rgb) -> (
    Point,
    Point,
    Point,
    Point,
) {
    (
        Point { x: x0, y: y0, r: c.r, g: c.g, b: c.b },
        Point { x: x0, y: y1, r: c.r, g: c.g, b: c.b },
        Point { x: x1, y: y1, r: c.r, g: c.g, b: c.b },
        Point { x: x1, y: y0, r: c.r, g: c.g, b: c.b },
    )
}

/// Painting a rectangle of one colour, without averaging, writes that
/// colour to every pixel in it, its edges included, and to no other.
///
/// The rectangle has its sides along the axes, and is less than `MAX_SPAN`
/// pixels wide and high, as every quad that is painted.
pub proof fn lemma_rectangle_painted(
    v: RasterView,
    x0: i64,
    y0: i64,
    x1: i64,
    y1: i64,
    c: Rgb,
    eye: Eye,
    px: int,
    py: int,
)
    requires
        v.wf(),
        v.has(px, py),
        x0 < x1,
        y0 < y1,
        ceil_px_spec(x1 as int) - floor_px_spec(x0 as int) < MAX_SPAN,
        ceil_px_spec(y1 as int) - floor_px_spec(y0 as int) < MAX_SPAN,
    ensures
        ({
            let (tl, bl, br, tr) = rectangle(x0, y0, x1, y1, c);
            paint_square_spec(v, tl, bl, br, tr, false, eye).pixel(px, py) == if x0 <= px
                * SUBPIXELS <= x1 && y0 <= py * SUBPIXELS <= y1 {
                eye.route_spec(v.pixel(px, py), c)
            } else {
                v.pixel(px, py)
            }
        }),
{
    let (tl, bl, br, tr) = rectangle(x0, y0, x1, y1, c);
    let t1 = upper_triangle(tl, bl, br, tr);
    let t2 = lower_triangle(tl, bl, br, tr);
    let mid = paint_tri_spec(v, t1, false, eye);
    lemma_paint_tri_wf(v, t1, false, eye);
    lemma_paint_tri_wf(mid, t2, false, eye);
    let sx = px * SUBPIXELS;
    let sy = py * SUBPIXELS;
    lemma_rectangle_edges(sx, sy, x0 as int, y0 as int, x1 as int, y1 as int);
    t1.lemma_weights_sum(sx, sy);
    t2.lemma_weights_sum(sx, sy);
    assert(t1.det() < 0 && t2.det() < 0) by {
        lemma_rectangle_edges(x0 as int, y0 as int, x0 as int, y0 as int, x1 as int, y1 as int);
        lemma_rectangle_edges(x1 as int, y0 as int, x0 as int, y0 as int, x1 as int, y1 as int);
    }
    assert(t1.paintable());
    assert(t2.paintable());
    if t1.covers(px, py) {
        t1.lemma_uniform_color(px, py, c);
        t1.lemma_contained_in_bounding_box(sx, sy);
    }
    if t2.covers(px, py) {
        t2.lemma_uniform_color(px, py, c);
        t2.lemma_contained_in_bounding_box(sx, sy);
    }
}

/// The edge functions of the two triangles of a rectangle with its sides
/// along the axes, at the point `(px, py)`.
proof fn lemma_rectangle_edges(px: int, py: int, x0: int, y0: int, x1: int, y1: int)
    requires
        x0 < x1,
        y0 < y1,
    ensures
        ({
            let a = (px - x1) * (y1 - y0) - (x0 - x1) * (py - y0);
            let b = (px - x0) * (y0 - y0) - (x1 - x0) * (py - y0);
            let c = (px - x0) * (y0 - y1) - (x0 - x0) * (py - y1);
            let d = (px - x1) * (y1 - y1) - (x0 - x1) * (py - y1);
            let e = (px - x1) * (y1 - y0) - (x1 - x1) * (py - y0);
            let f = (px - x0) * (y0 - y1) - (x1 - x0) * (py - y1);
            &&& (b <= 0 <==> py >= y0)
            &&& (c <= 0 <==> px >= x0)
            &&& (d <= 0 <==> py <= y1)
            &&& (e <= 0 <==> px <= x1)
            &&& (b >= 0 <==> py <= y0)
            &&& (c >= 0 <==> px <= x0)
            &&& (d >= 0 <==> py >= y1)
            &&& (e >= 0 <==> px >= x1)
            &&& f == -a
            &&& a + b + c < 0
            &&& d + e + f < 0
        }),
{
    // the products with a factor 0
    lemma_mul_by_zero(px - x0, y0 - y0);
    lemma_mul_by_zero(x0 - x0, py - y1);
    lemma_mul_by_zero(px - x1, y1 - y1);
    lemma_mul_by_zero(x1 - x1, py - y0);
    // the signs of the others
    lemma_mul_sign(x1 - x0, py - y0);
    lemma_mul_sign(px - x0, y0 - y1);
    lemma_mul_sign(x0 - x1, py - y1);
    lemma_mul_sign(px - x1, y1 - y0);
    lemma_mul_sign(x1 - x0, y1 - y0);
    // all of them multiplied out
    lemma_cross_expand(px, x1, y1, y0);
    lemma_cross_expand(x0, x1, py, y0);
    lemma_cross_expand(x1, x0, py, y0);
    lemma_cross_expand(px, x0, y0, y1);
    lemma_cross_expand(x0, x1, py, y1);
    lemma_cross_expand(x1, x0, py, y1);
    lemma_cross_expand(x1, x0, y1, y0);
}

/// Row `y` of an area `height` rows high ends within the area.
proof fn lemma_row_in_area(y: int, width: int, height: int)
    requires
        0 <= y < height,
        0 <= width,
    ensures
        0 <= y * width,
        y * width + width <= height * width,
        y * width + width <= width * height,
        (y + 1) * width == y * width + width,
{
    lemma_mul_nonnegative(y, width);
    lemma_mul_inequality(y + 1, height, width);
    lemma_mul_distributes(y, 1, width);
    lemma_mul_basics(width);
    lemma_mul_commutes(height, width);
}

/// A buffer that triangles and quads can be painted on.
pub trait Drawable: View<V = RasterView> + Sized {
    /// The invariant of the buffer.
    spec fn wf(&self) -> bool;

    /// A buffer that meets its invariant holds a well-formed raster, whose
    /// extent is that of an addressable buffer.
    proof fn lemma_wf_view(&self)
        requires
            self.wf(),
        ensures
            self@.wf(),
            self@.width <= usize::MAX,
            self@.height <= usize::MAX,
    ;

    /// A buffer of the given extent with every pixel black.
    fn create(width: usize, height: usize) -> (d: Self)
        ensures
            d.wf(),
            d@ == RasterView::blank(width as nat, height as nat),
    ;

    /// Paints a triangle on the buffer. Its vertices lie within the reach
    /// of coordinates.
    fn paint_tri(&mut self, tri: &Triangle, avg_pixels: bool, eye: Eye)
        requires
            old(self).wf(),
            tri.wf(),
        ensures
            final(self).wf(),
            final(self)@ == paint_tri_spec(old(self)@, *tri, avg_pixels, eye),
    ;

    /// Paints the quad with the four given corners on the buffer. The
    /// corners lie within the reach of coordinates.
    fn paint_square(
        &mut self,
        tl: &Point,
        bl: &Point,
        br: &Point,
        tr: &Point,
        avg_pixels: bool,
        eye: Eye,
    )
        requires
            old(self).wf(),
            tl.wf(),
            bl.wf(),
            br.wf(),
            tr.wf(),
        ensures
            final(self).wf(),
            final(self)@ == paint_square_spec(old(self)@, *tl, *bl, *br, *tr, avg_pixels, eye),
    ;

    /// Width of the buffer in pixels.
    fn get_width(&self) -> (w: usize)
        requires
            self.wf(),
        ensures
            w == self@.width,
    ;

    /// Height of the buffer in pixels.
    fn get_height(&self) -> (h: usize)
        requires
            self.wf(),
        ensures
            h == self@.height,
    ;
}

/// A raster of 16-bit RGB pixels held in memory.
pub struct Raster {
    width: usize,
    height: usize,
    rows: Vec<Vec<Rgb>>,
}

impl View for Raster {
    type V = RasterView;

    closed spec fn view(&self) -> RasterView {
        RasterView {
            width: self.width as nat,
            height: self.height as nat,
            rows: Seq::new(self.rows@.len(), |y: int| self.rows@[y]@),
        }
    }
}

impl Raster {
    /// The pixel in column `x` and row `y`.
    pub fn get(&self, x: usize, y: usize) -> (c: Rgb)
        requires
            self.wf(),
            self@.has(x as int, y as int),
        ensures
            c == self@.pixel(x as int, y as int),
    {
        self.rows[y][x]
    }

    /// Replaces the pixel in column `x` and row `y` by `c`.
    pub fn put(&mut self, x: usize, y: usize, c: Rgb)
        requires
            old(self).wf(),
            old(self)@.has(x as int, y as int),
        ensures
            final(self).wf(),
            final(self)@ == old(self)@.with_pixel(x as int, y as int, c),
    {
        self.rows[y][x] = c;
        proof {
            let v = old(self)@.with_pixel(x as int, y as int, c);
            assert forall|j: int| 0 <= j < self.height implies #[trigger] self@.rows[j]
                == v.rows[j] by {
                if j == y {
                    assert(self@.rows[j] =~= v.rows[j]);
                }
            }
            assert(self@.rows =~= v.rows);
        }
    }

    /// The raster of the given extent from its three channels, each given
    /// row by row; `None` unless each channel has one value for every
    /// pixel.
    pub fn from_bands(
        width: usize,
        height: usize,
        red: &Vec<u16>,
        green: &Vec<u16>,
        blue: &Vec<u16>,
    ) -> (made: Option<Raster>)
        ensures
            made.is_some() <==> red@.len() == width * height && green@.len() == width * height
                && blue@.len() == width * height,
            match made {
                Some(img) => {
                    &&& img.wf()
                    &&& img@.width == width
                    &&& img@.height == height
                    &&& forall|x: int, y: int|
                        img@.has(x, y) ==> #[trigger] img@.pixel(x, y) == (Rgb {
                            r: red@[y * width + x],
                            g: green@[y * width + x],
                            b: blue@[y * width + x],
                        })
                },
                None => true,
            },
    {
        proof {
            lemma_mul_bounded(
                width as int,
                height as int,
                0xffff_ffff_ffff_ffff,
                0xffff_ffff_ffff_ffff,
            );
        }
        let area: u128 = (width as u128) * (height as u128);
        if red.len() as u128 != area || green.len() as u128 != area || blue.len() as u128 != area {
            return None;
        }
        let mut rows: Vec<Vec<Rgb>> = Vec::new();
        let mut y: usize = 0;
        while y < height
            invariant
                y <= height,
                width * height <= usize::MAX,
                red@.len() == width * height,
                green@.len() == width * height,
                blue@.len() == width * height,
                rows@.len() == y,
                forall|j: int| 0 <= j < y ==> (#[trigger] rows@[j])@.len() == width,
                forall|x: int, j: int|
                    0 <= j < y && 0 <= x < width ==> #[trigger] rows@[j]@[x] == (Rgb {
                        r: red@[j * width + x],
                        g: green@[j * width + x],
                        b: blue@[j * width + x],
                    }),
            decreases height - y,
        {
            proof {
                lemma_row_in_area(y as int, width as int, height as int);
            }
            let base: usize = y * width;
            let mut row: Vec<Rgb> = Vec::new();
            let mut x: usize = 0;
            while x < width
                invariant
                    x <= width,
                    base == y * width,
                    base + width <= red@.len(),
                    red@.len() <= usize::MAX,
                    red@.len() == green@.len(),
                    red@.len() == blue@.len(),
                    row@.len() == x,
                    forall|i: int|
                        0 <= i < x ==> #[trigger] row@[i] == (Rgb {
                            r: red@[y * width + i],
                            g: green@[y * width + i],
                            b: blue@[y * width + i],
                        }),
                decreases width - x,
            {
                let i = base + x;
                row.push(Rgb { r: red[i], g: green[i], b: blue[i] });
                x = x + 1;
            }
            rows.push(row);
            y = y + 1;
        }
        let img = Raster { width, height, rows };
        proof {
            assert forall|x: int, y: int| img@.has(x, y) implies #[trigger] img@.pixel(x, y) == (Rgb {
                r: red@[y * width + x],
                g: green@[y * width + x],
                b: blue@[y * width + x],
            }) by {
                assert(img@.pixel(x, y) == img.rows@[y]@[x]);
            }
        }
        Some(img)
    }

    /// The three channels of the raster, red, green and blue, each row by
    /// row.
    pub fn bands(&self) -> (out: (Vec<u16>, Vec<u16>, Vec<u16>))
        requires
            self.wf(),
        ensures
            out.0@.len() == self@.width * self@.height,
            out.1@.len() == self@.width * self@.height,
            out.2@.len() == self@.width * self@.height,
            forall|x: int, y: int|
                self@.has(x, y) ==> #[trigger] self@.pixel(x, y) == (Rgb {
                    r: out.0@[y * self@.width + x],
                    g: out.1@[y * self@.width + x],
                    b: out.2@[y * self@.width + x],
                }),
    {
        let mut red: Vec<u16> = Vec::new();
        let mut green: Vec<u16> = Vec::new();
        let mut blue: Vec<u16> = Vec::new();
        let width = self.width;
        let mut y: usize = 0;
        while y < self.height
            invariant
                self.wf(),
                width == self.width,
                y <= self.height,
                red@.len() == y * width,
                green@.len() == y * width,
                blue@.len() == y * width,
                forall|x: int, j: int|
                    0 <= j < y && 0 <= x < width ==> #[trigger] self@.pixel(x, j) == (Rgb {
                        r: red@[j * width + x],
                        g: green@[j * width + x],
                        b: blue@[j * width + x],
                    }),
            decreases self.height - y,
        {
            let ghost red0 = red@;
            let ghost green0 = green@;
            let ghost blue0 = blue@;
            let mut x: usize = 0;
            while x < width
                invariant
                    self.wf(),
                    width == self.width,
                    y < self.height,
                    x <= width,
                    red@.len() == y * width + x,
                    green@.len() == y * width + x,
                    blue@.len() == y * width + x,
                    red0.len() == y * width,
                    green0.len() == y * width,
                    blue0.len() == y * width,
                    forall|i: int| 0 <= i < y * width ==> red@[i] == red0[i],
                    forall|i: int| 0 <= i < y * width ==> green@[i] == green0[i],
                    forall|i: int| 0 <= i < y * width ==> blue@[i] == blue0[i],
                    forall|i: int|
                        0 <= i < x ==> #[trigger] self@.pixel(i, y as int) == (Rgb {
                            r: red@[y * width + i],
                            g: green@[y * width + i],
                            b: blue@[y * width + i],
                        }),
                decreases width - x,
            {
                let c = self.get(x, y);
                red.push(c.r);
                green.push(c.g);
                blue.push(c.b);
                x = x + 1;
            }
            proof {
                lemma_mul_distributes(y as int, 1, width as int);
                lemma_mul_basics(width as int);
                assert forall|x: int, j: int| 0 <= j < y + 1 && 0 <= x < width implies #[trigger] self@.pixel(
                    x,
                    j,
                ) == (Rgb {
                    r: red@[j * width + x],
                    g: green@[j * width + x],
                    b: blue@[j * width + x],
                }) by {
                    if j < y {
                        lemma_row_in_area(j, width as int, y as int);
                        assert(self@.pixel(x, j) == (Rgb {
                            r: red0[j * width + x],
                            g: green0[j * width + x],
                            b: blue0[j * width + x],
                        }));
                    }
                }
            }
            y = y + 1;
        }
        proof {
            lemma_mul_commutes(self.height as int, width as int);
        }
        (red, green, blue)
    }

    /// A row of `width` black pixels.
    fn blank_row(width: usize) -> (row: Vec<Rgb>)
        ensures
            row@ == Seq::new(width as nat, |x: int| Rgb::black()),
    {
        let mut row: Vec<Rgb> = Vec::new();
        let mut x: usize = 0;
        while x < width
            invariant
                x <= width,
                row@ == Seq::new(x as nat, |i: int| Rgb::black()),
            decreases width - x,
        {
            row.push(Rgb { r: 0, g: 0, b: 0 });
            x = x + 1;
            assert(row@ =~= Seq::new(x as nat, |i: int| Rgb::black()));
        }
        row
    }
}

impl Drawable for Raster {
    closed spec fn wf(&self) -> bool {
        &&& self.rows@.len() == self.height
        &&& forall|y: int| 0 <= y < self.height ==> (#[trigger] self.rows@[y])@.len() == self.width
    }

    proof fn lemma_wf_view(&self) {
    }

    fn create(width: usize, height: usize) -> (d: Self) {
        let mut rows: Vec<Vec<Rgb>> = Vec::new();
        let mut y: usize = 0;
        while y < height
            invariant
                y <= height,
                rows@.len() == y,
                forall|j: int|
                    0 <= j < y ==> (#[trigger] rows@[j])@ == Seq::new(
                        width as nat,
                        |x: int| Rgb::black(),
                    ),
            decreases height - y,
        {
            let row = Self::blank_row(width);
            rows.push(row);
            y = y + 1;
        }
        let d = Raster { width, height, rows };
        proof {
            let v = RasterView::blank(width as nat, height as nat);
            assert forall|j: int| 0 <= j < height implies #[trigger] d@.rows[j] == v.rows[j] by {
                assert(d.rows@[j]@ == Seq::new(width as nat, |x: int| Rgb::black()));
            }
            assert(d@.rows =~= v.rows);
        }
        d
    }

    fn paint_tri(&mut self, tri: &Triangle, avg_pixels: bool, eye: Eye) {
        let first_x = floor_px(tri.x_min());
        let max_x = ceil_px(tri.x_max());
        let first_y = floor_px(tri.y_min());
        let max_y = ceil_px(tri.y_max());
        let ghost before = self@;
        proof {
            lemma_paint_tri_wf(before, *tri, avg_pixels, eye);
            assert(before.wf());
        }
        if tri.is_degenerate() || max_x - first_x >= MAX_SPAN || max_y - first_y >= MAX_SPAN {
            proof {
                assert(!tri.paintable());
                before.lemma_equal_by_pixels(paint_tri_spec(before, *tri, avg_pixels, eye));
            }
            return ;
        }
        if first_x >= self.width as u64 || first_y >= self.height as u64 {
            proof {
                let after = paint_tri_spec(before, *tri, avg_pixels, eye);
                assert forall|xx: int, yy: int| before.has(xx, yy) implies #[trigger] before.pixel(
                    xx,
                    yy,
                ) == after.pixel(xx, yy) by {
                    if tri.covers(xx, yy) {
                        tri.lemma_covered_in_box(xx, yy);
                    }
                }
                before.lemma_equal_by_pixels(after);
            }
            return ;
        }
        let min_x: usize = first_x as usize;
        let min_y: usize = first_y as usize;
        let x_end: usize = if max_x < self.width as u64 {
            (max_x + 1) as usize
        } else {
            self.width
        };
        let y_end: usize = if max_y < self.height as u64 {
            (max_y + 1) as usize
        } else {
            self.height
        };
        proof {
            assert forall|xx: int, yy: int| before.has(xx, yy) && yy < min_y implies !tri.covers(
                xx,
                yy,
            ) by {
                if tri.covers(xx, yy) {
                    tri.lemma_covered_in_box(xx, yy);
                }
            }
        }
        let mut y = min_y;
        while y < y_end
            invariant
                self.wf(),
                self@.width == before.width,
                self@.height == before.height,
                self@.width == self.width,
                self@.height == self.height,
                before.wf(),
                tri.paintable(),
                min_x == tri.x_lo(),
                max_x == tri.x_hi(),
                max_y <= 0x2_0000_0000,
                tri.wf(),
                x_end <= self.width,
                x_end <= max_x + 1,
                x_end == self.width || x_end == max_x + 1,
                y_end <= self.height,
                y_end <= max_y + 1,
                min_y <= y,
                forall|xx: int, yy: int|
                    before.has(xx, yy) ==> #[trigger] self@.pixel(xx, yy) == if yy < y {
                        paint_pixel(before.pixel(xx, yy), *tri, xx, yy, avg_pixels, eye)
                    } else {
                        before.pixel(xx, yy)
                    },
            decreases y_end - y,
        {
            proof {
                assert forall|xx: int| 0 <= xx < min_x implies !tri.covers(xx, y as int) by {
                    if tri.covers(xx, y as int) {
                        tri.lemma_covered_in_box(xx, y as int);
                    }
                }
            }
            let mut x = min_x;
            while x < x_end
                invariant
                    self.wf(),
                    self@.width == before.width,
                    self@.height == before.height,
                    self@.width == self.width,
                    self@.height == self.height,
                    before.wf(),
                    tri.paintable(),
                    max_x <= 0x2_0000_0000,
                    max_y <= 0x2_0000_0000,
                    tri.wf(),
                    x_end <= self.width,
                    x_end <= max_x + 1,
                    y < y_end <= self.height,
                    y_end <= max_y + 1,
                    min_x <= x,
                    forall|xx: int, yy: int|
                        before.has(xx, yy) ==> #[trigger] self@.pixel(xx, yy) == if yy < y || (yy
                            == y && xx < x) {
                            paint_pixel(before.pixel(xx, yy), *tri, xx, yy, avg_pixels, eye)
                        } else {
                            before.pixel(xx, yy)
                        },
                decreases x_end - x,
            {
                let px: i64 = x as i64 * SUBPIXELS;
                let py: i64 = y as i64 * SUBPIXELS;
                let ghost mid = self@;
                if tri.contains(px, py) {
                    let (r, g, b) = tri.interpolate_color(px, py);
                    let fresh = Rgb { r: r as u16, g: g as u16, b: b as u16 };
                    let held = self.get(x, y);
                    let c = eye.route(held, Rgb::blend(avg_pixels, held, fresh));
                    self.put(x, y, c);
                    proof {
                        assert(fresh == tri.color_at(x as int, y as int));
                        assert(held == before.pixel(x as int, y as int));
                        assert(tri.covers(x as int, y as int));
                        assert(c == paint_pixel(
                            before.pixel(x as int, y as int),
                            *tri,
                            x as int,
                            y as int,
                            avg_pixels,
                            eye,
                        ));
                    }
                }
                proof {
                    assert forall|xx: int, yy: int| before.has(xx, yy) implies #[trigger] self@.pixel(
                        xx,
                        yy,
                    ) == if yy < y || (yy == y && xx < x + 1) {
                        paint_pixel(before.pixel(xx, yy), *tri, xx, yy, avg_pixels, eye)
                    } else {
                        before.pixel(xx, yy)
                    } by {
                        assert(mid.pixel(xx, yy) == if yy < y || (yy == y && xx < x) {
                            paint_pixel(before.pixel(xx, yy), *tri, xx, yy, avg_pixels, eye)
                        } else {
                            before.pixel(xx, yy)
                        });
                    }
                }
                x = x + 1;
            }
            proof {
                assert forall|xx: int, yy: int| before.has(xx, yy) implies #[trigger] self@.pixel(
                    xx,
                    yy,
                ) == if yy < y + 1 {
                    paint_pixel(before.pixel(xx, yy), *tri, xx, yy, avg_pixels, eye)
                } else {
                    before.pixel(xx, yy)
                } by {
                    if yy == y && xx >= x && tri.covers(xx, yy) {
                        tri.lemma_covered_in_box(xx, yy);
                    }
                }
            }
            y = y + 1;
        }
        proof {
            let after = paint_tri_spec(before, *tri, avg_pixels, eye);
            assert forall|xx: int, yy: int| self@.has(xx, yy) implies #[trigger] self@.pixel(xx, yy)
                == after.pixel(xx, yy) by {
                if yy >= y && tri.covers(xx, yy) {
                    tri.lemma_covered_in_box(xx, yy);
                }
            }
            self@.lemma_equal_by_pixels(after);
        }
    }

    fn paint_square(
        &mut self,
        tl: &Point,
        bl: &Point,
        br: &Point,
        tr: &Point,
        avg_pixels: bool,
        eye: Eye,
    ) {
        self.paint_tri(&Triangle { p0: *tl, p1: *bl, p2: *tr }, avg_pixels, eye);
        self.paint_tri(&Triangle { p0: *tr, p1: *bl, p2: *br }, avg_pixels, eye);
    }

    fn get_width(&self) -> (w: usize) {
        self.width
    }

    fn get_height(&self) -> (h: usize) {
        self.height
    }
}

} // verus!
