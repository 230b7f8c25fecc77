//! The inverse projector: every pixel of the map pulls its colour from the
//! place in the source image that shows it.

use vstd::prelude::*;
use crate::color::{Eye, Rgb};
use crate::drawable::{
    lemma_paint_square_wf, lemma_rectangle_painted, rectangle, Drawable, Raster, RasterView,
};
use crate::geometry::{px_coord, px_coord_spec, Point, MAX_EXTENT, SUBPIXELS};
use crate::mosaic::{paint_quad_spec, Quad};

verus! {

/// A place in the source image: column (`sample`) and row (`line`), in
/// units of `1 / SUBPIXELS` of a pixel.
#[derive(Debug, Clone, Copy, PartialEq, Eq, Structural)]
pub struct ImageCoordinate {
    pub line: i64,
    pub sample: i64,
}

/// The pixel column or row nearest to the coordinate `v`, halves rounded up.
pub open spec fn round_px_spec(v: int) -> int {
    (v + SUBPIXELS / 2) / (SUBPIXELS as int)
}

/// The pixel column or row nearest to the coordinate `v`.
pub fn round_px(v: i64) -> (p: i64)
    requires
        v >= 0,
    ensures
        p == round_px_spec(v as int),
        0 <= p <= 0x20_0000_0000_0000,
{
    if v % 1024 >= 512 {
        v / 1024 + 1
    } else {
        v / 1024
    }
}

/// The source pixel that the place `ls` falls on, as column and row; `None`
/// where the place lies before the first row or column, or on or beyond the
/// last.
pub open spec fn source_pixel(img: RasterView, ls: ImageCoordinate) -> Option<(int, int)> {
    if ls.sample >= 0 && ls.line >= 0 && round_px_spec(ls.sample as int) + 1 < img.width
        && round_px_spec(ls.line as int) + 1 < img.height {
        Some((round_px_spec(ls.sample as int), round_px_spec(ls.line as int)))
    } else {
        None
    }
}

/// The place in the source that shows the map pixel in column `x` and row
/// `y`; `None` where the cameras gave none, and beyond the end of the table.
pub open spec fn lookup_at(
    lookups: Seq<Vec<Option<ImageCoordinate>>>,
    x: int,
    y: int,
) -> Option<ImageCoordinate> {
    if 0 <= y < lookups.len() && 0 <= x < lookups[y]@.len() {
        lookups[y]@[x]
    } else {
        None
    }
}

/// The quad of the map pixel in column `x` and row `y`, one pixel wide and
/// high, in the colour `c` throughout.
pub open spec fn unit_quad(x: int, y: int, c: Rgb) -> Quad {
    Quad {
        tl: Point {
            x: px_coord_spec(x) as i64,
            y: px_coord_spec(y) as i64,
            r: c.r,
            g: c.g,
            b: c.b,
        },
        bl: Point {
            x: px_coord_spec(x) as i64,
            y: px_coord_spec(y + 1) as i64,
            r: c.r,
            g: c.g,
            b: c.b,
        },
        br: Point {
            x: px_coord_spec(x + 1) as i64,
            y: px_coord_spec(y + 1) as i64,
            r: c.r,
            g: c.g,
            b: c.b,
        },
        tr: Point {
            x: px_coord_spec(x + 1) as i64,
            y: px_coord_spec(y) as i64,
            r: c.r,
            g: c.g,
            b: c.b,
        },
    }
}

/// The colour that the map pixel in column `x` and row `y` pulls from the
/// source; `None` where the cameras show no place of the source for it, or
/// one that falls on no pixel.
pub open spec fn pulled_color(
    img: RasterView,
    lookups: Seq<Vec<Option<ImageCoordinate>>>,
    x: int,
    y: int,
) -> Option<Rgb> {
    match lookup_at(lookups, x, y) {
        Some(ls) => match source_pixel(img, ls) {
            Some((sx, sy)) => Some(img.pixel(sx, sy)),
            None => None,
        },
        None => None,
    }
}

/// The map `v` after its pixel in column `x` and row `y` has been taken:
/// where the pixel pulls a colour its quad is painted in that colour for
/// `eye`, without averaging; otherwise the map stays as it is.
pub open spec fn pull_pixel(
    v: RasterView,
    img: RasterView,
    lookups: Seq<Vec<Option<ImageCoordinate>>>,
    eye: Eye,
    x: int,
    y: int,
) -> RasterView {
    match pulled_color(img, lookups, x, y) {
        Some(c) => paint_quad_spec(v, unit_quad(x, y, c), false, eye),
        None => v,
    }
}

/// The map `v` after the pixels of its column `x` above row `y_end` have
/// been taken, from the top down.
pub open spec fn pull_column(
    v: RasterView,
    img: RasterView,
    lookups: Seq<Vec<Option<ImageCoordinate>>>,
    eye: Eye,
    x: int,
    y_end: int,
) -> RasterView
    decreases y_end,
{
    if y_end <= 0 {
        v
    } else {
        pull_pixel(pull_column(v, img, lookups, eye, x, y_end - 1), img, lookups, eye, x, y_end - 1)
    }
}

/// The map `v` after the columns left of `x_end` have been taken down to
/// row `height`, column by column from the left.
pub open spec fn pull_columns(
    v: RasterView,
    img: RasterView,
    lookups: Seq<Vec<Option<ImageCoordinate>>>,
    eye: Eye,
    x_end: int,
    height: int,
) -> RasterView
    decreases x_end,
{
    if x_end <= 0 {
        v
    } else {
        pull_column(
            pull_columns(v, img, lookups, eye, x_end - 1, height),
            img,
            lookups,
            eye,
            x_end - 1,
            height,
        )
    }
}

/// The map `v` after every one of its pixels has been taken.
pub open spec fn pull_image(
    v: RasterView,
    img: RasterView,
    lookups: Seq<Vec<Option<ImageCoordinate>>>,
    eye: Eye,
) -> RasterView {
    pull_columns(v, img, lookups, eye, v.width as int, v.height as int)
}

/// The colour that the quads of column `x` above row `y_end` leave on the
/// pixel in row `py` of that column and of the next: that of the quad of row
/// `py` where it pulls one, else that of the quad of the row above; `None`
/// where neither pulls a colour.
pub open spec fn column_touch(
    img: RasterView,
    lookups: Seq<Vec<Option<ImageCoordinate>>>,
    x: int,
    y_end: int,
    py: int,
) -> Option<Rgb> {
    if 0 <= py < y_end && pulled_color(img, lookups, x, py).is_some() {
        pulled_color(img, lookups, x, py)
    } else if 0 <= py - 1 < y_end && pulled_color(img, lookups, x, py - 1).is_some() {
        pulled_color(img, lookups, x, py - 1)
    } else {
        None
    }
}

/// The colour that the quads of the columns left of `x_end`, each taken down
/// to row `height`, leave on the pixel in column `px` and row `py`: that of
/// the quads of column `px` where they leave one, else that of the quads of
/// the column to the left; `None` where no quad that reaches the pixel pulls
/// a colour.
///
/// A quad reaches the pixel of its own column and row and those of the next
/// column and row, and the quad taken last decides. So the pixel holds, in
/// this order, the colour that it pulls itself, or that of its upper, its
/// left or its upper left neighbour.
pub open spec fn touch(
    img: RasterView,
    lookups: Seq<Vec<Option<ImageCoordinate>>>,
    x_end: int,
    height: int,
    px: int,
    py: int,
) -> Option<Rgb> {
    if 0 <= px < x_end && column_touch(img, lookups, px, height, py).is_some() {
        column_touch(img, lookups, px, height, py)
    } else if 0 <= px - 1 < x_end && column_touch(img, lookups, px - 1, height, py).is_some() {
        column_touch(img, lookups, px - 1, height, py)
    } else {
        None
    }
}

/// What painting the quad of the map pixel in column `x` and row `y` does
/// to the pixel in column `px` and row `py`: the pixel of the quad itself
/// and those of the next column and row take the colour `c` in the channels
/// of `eye`, and every other pixel stays as it is.
pub proof fn lemma_unit_quad_pixel(
    v: RasterView,
    x: int,
    y: int,
    c: Rgb,
    eye: Eye,
    px: int,
    py: int,
)
    requires
        v.wf(),
        v.has(px, py),
        0 <= x < MAX_EXTENT,
        0 <= y < MAX_EXTENT,
    ensures
        paint_quad_spec(v, unit_quad(x, y, c), false, eye).wf(),
        paint_quad_spec(v, unit_quad(x, y, c), false, eye).width == v.width,
        paint_quad_spec(v, unit_quad(x, y, c), false, eye).height == v.height,
        paint_quad_spec(v, unit_quad(x, y, c), false, eye).pixel(px, py) == if x <= px <= x + 1 && y
            <= py <= y + 1 {
            eye.route_spec(v.pixel(px, py), c)
        } else {
            v.pixel(px, py)
        },
{
    let left = (x * SUBPIXELS) as i64;
    let top = (y * SUBPIXELS) as i64;
    let right = (x * SUBPIXELS + SUBPIXELS) as i64;
    let bottom = (y * SUBPIXELS + SUBPIXELS) as i64;
    let q = unit_quad(x, y, c);
    assert((q.tl, q.bl, q.br, q.tr) == rectangle(left, top, right, bottom, c));
    lemma_rectangle_painted(v, left, top, right, bottom, c, eye, px, py);
    lemma_paint_square_wf(v, q.tl, q.bl, q.br, q.tr, false, eye);
}

/// What a pixel of the map holds after the map has been painted by pulling.
///
/// In a channel of `eye` the pixel holds the colour of the last quad that
/// reaches it and pulls a colour: its own, or that of its upper, its left
/// or its upper left neighbour, in this order; where none of the four pulls
/// a colour it holds what it held before. In the other channels it holds
/// what it held before.
pub proof fn lemma_pull_closed_form(
    v: RasterView,
    img: RasterView,
    lookups: Seq<Vec<Option<ImageCoordinate>>>,
    eye: Eye,
    px: int,
    py: int,
    channel: int,
)
    requires
        v.wf(),
        v.has(px, py),
        v.width <= MAX_EXTENT,
        v.height <= MAX_EXTENT,
        0 <= channel <= 2,
    ensures
        pull_image(v, img, lookups, eye).wf(),
        pull_image(v, img, lookups, eye).width == v.width,
        pull_image(v, img, lookups, eye).height == v.height,
        pull_image(v, img, lookups, eye).pixel(px, py).channel(channel) == if eye.writes(channel) {
            match touch(img, lookups, v.width as int, v.height as int, px, py) {
                Some(c) => c.channel(channel),
                None => v.pixel(px, py).channel(channel),
            }
        } else {
            v.pixel(px, py).channel(channel)
        },
{
    lemma_pull_columns(v, img, lookups, eye, v.width as int, v.height as int, px, py, channel);
}

/// A pixel of the map that pulls a colour holds it in the end, in every
/// channel of the eye: its own quad is the last to reach it.
pub proof fn lemma_pull_exact(
    v: RasterView,
    img: RasterView,
    lookups: Seq<Vec<Option<ImageCoordinate>>>,
    eye: Eye,
    px: int,
    py: int,
    channel: int,
)
    requires
        v.wf(),
        v.has(px, py),
        v.width <= MAX_EXTENT,
        v.height <= MAX_EXTENT,
        0 <= channel <= 2,
        eye.writes(channel),
        pulled_color(img, lookups, px, py).is_some(),
    ensures
        pull_image(v, img, lookups, eye).pixel(px, py).channel(channel) == pulled_color(
            img,
            lookups,
            px,
            py,
        ).unwrap().channel(channel),
{
    lemma_pull_closed_form(v, img, lookups, eye, px, py, channel);
}

/// What taking one pixel of the map does to the pixel in column `px` and
/// row `py`.
proof fn lemma_pull_pixel(
    v: RasterView,
    img: RasterView,
    lookups: Seq<Vec<Option<ImageCoordinate>>>,
    eye: Eye,
    x: int,
    y: int,
    px: int,
    py: int,
    channel: int,
)
    requires
        v.wf(),
        v.has(px, py),
        0 <= x < MAX_EXTENT,
        0 <= y < MAX_EXTENT,
        0 <= channel <= 2,
    ensures
        pull_pixel(v, img, lookups, eye, x, y).wf(),
        pull_pixel(v, img, lookups, eye, x, y).width == v.width,
        pull_pixel(v, img, lookups, eye, x, y).height == v.height,
        pull_pixel(v, img, lookups, eye, x, y).pixel(px, py).channel(channel) == if eye.writes(
            channel,
        ) && x <= px <= x + 1 && y <= py <= y + 1 && pulled_color(img, lookups, x, y).is_some() {
            pulled_color(img, lookups, x, y).unwrap().channel(channel)
        } else {
            v.pixel(px, py).channel(channel)
        },
{
    match pulled_color(img, lookups, x, y) {
        Some(c) => {
            lemma_unit_quad_pixel(v, x, y, c, eye, px, py);
        },
        None => {},
    }
}

/// What taking the pixels of column `x` above row `y_end` does to the pixel
/// in column `px` and row `py`.
proof fn lemma_pull_column(
    v: RasterView,
    img: RasterView,
    lookups: Seq<Vec<Option<ImageCoordinate>>>,
    eye: Eye,
    x: int,
    y_end: int,
    px: int,
    py: int,
    channel: int,
)
    requires
        v.wf(),
        v.has(px, py),
        0 <= x < MAX_EXTENT,
        y_end <= MAX_EXTENT,
        0 <= channel <= 2,
    ensures
        pull_column(v, img, lookups, eye, x, y_end).wf(),
        pull_column(v, img, lookups, eye, x, y_end).width == v.width,
        pull_column(v, img, lookups, eye, x, y_end).height == v.height,
        pull_column(v, img, lookups, eye, x, y_end).pixel(px, py).channel(channel) == if eye.writes(
            channel,
        ) && x <= px <= x + 1 && column_touch(img, lookups, x, y_end, py).is_some() {
            column_touch(img, lookups, x, y_end, py).unwrap().channel(channel)
        } else {
            v.pixel(px, py).channel(channel)
        },
    decreases y_end,
{
    if y_end > 0 {
        let before = pull_column(v, img, lookups, eye, x, y_end - 1);
        lemma_pull_column(v, img, lookups, eye, x, y_end - 1, px, py, channel);
        lemma_pull_pixel(before, img, lookups, eye, x, y_end - 1, px, py, channel);
    }
}

/// What taking the columns left of `x_end` does to the pixel in column `px`
/// and row `py`.
proof fn lemma_pull_columns(
    v: RasterView,
    img: RasterView,
    lookups: Seq<Vec<Option<ImageCoordinate>>>,
    eye: Eye,
    x_end: int,
    height: int,
    px: int,
    py: int,
    channel: int,
)
    requires
        v.wf(),
        v.has(px, py),
        x_end <= MAX_EXTENT,
        height == v.height,
        height <= MAX_EXTENT,
        0 <= channel <= 2,
    ensures
        pull_columns(v, img, lookups, eye, x_end, height).wf(),
        pull_columns(v, img, lookups, eye, x_end, height).width == v.width,
        pull_columns(v, img, lookups, eye, x_end, height).height == v.height,
        pull_columns(v, img, lookups, eye, x_end, height).pixel(px, py).channel(channel)
            == if eye.writes(channel) && touch(img, lookups, x_end, height, px, py).is_some() {
            touch(img, lookups, x_end, height, px, py).unwrap().channel(channel)
        } else {
            v.pixel(px, py).channel(channel)
        },
    decreases x_end,
{
    if x_end > 0 {
        let before = pull_columns(v, img, lookups, eye, x_end - 1, height);
        lemma_pull_columns(v, img, lookups, eye, x_end - 1, height, px, py, channel);
        lemma_pull_column(before, img, lookups, eye, x_end - 1, height, px, py, channel);
    }
}

/// The place in the source that shows the map pixel in column `x` and row
/// `y`, as the table gives it.
pub fn lookup(lookups: &Vec<Vec<Option<ImageCoordinate>>>, x: usize, y: usize) -> (ls: Option<
    ImageCoordinate,
>)
    ensures
        ls == lookup_at(lookups@, x as int, y as int),
{
    if y < lookups.len() {
        let row = &lookups[y];
        if x < row.len() {
            return row[x];
        }
    }
    None
}

/// The colour of the source pixel that the place `ls` falls on; `None` where
/// it falls on none.
pub fn sample_source(img: &Raster, ls: &ImageCoordinate) -> (c: Option<Rgb>)
    requires
        img.wf(),
    ensures
        c == match source_pixel(img@, *ls) {
            Some((sx, sy)) => Some(img@.pixel(sx, sy)),
            None => None,
        },
{
    proof {
        img.lemma_wf_view();
    }
    if ls.sample < 0 || ls.line < 0 {
        return None;
    }
    let in_x: i64 = round_px(ls.sample);
    let in_y: i64 = round_px(ls.line);
    let width = img.get_width();
    let height = img.get_height();
    if width == 0 || height == 0 {
        return None;
    }
    if (in_x as u64) < (width - 1) as u64 && (in_y as u64) < (height - 1) as u64 {
        Some(img.get(in_x as usize, in_y as usize))
    } else {
        None
    }
}

/// Paints the map by pulling colours from the image `img`.
///
/// `lookups` tells for each pixel of the map, row by row, which place of
/// the source shows it; `None` where the cameras gave none. The pixels of
/// the map are taken column by column from the left, each column from the
/// top down. A pixel whose place falls on a pixel of the source, the last
/// row and column left out, has its quad painted in the colour of that
/// pixel, for `eye` and without averaging. The quad is one pixel wide and
/// high and its edges count, so it reaches the pixel itself and those of the
/// next column and row.
///
/// In the end a pixel therefore holds the colour that it pulls itself; one
/// that pulls none holds the colour of its upper, its left or its upper left
/// neighbour, the first of them that pulls one; and one whose neighbours
/// pull none either is left as it was (`lemma_pull_closed_form`).
///
/// The map is at most `MAX_EXTENT` pixels wide and high, so that every
/// corner of every quad has a coordinate.
pub fn process_image<D: Drawable>(
    img: &Raster,
    map: &mut D,
    lookups: &Vec<Vec<Option<ImageCoordinate>>>,
    eye: Eye,
)
    requires
        img.wf(),
        old(map).wf(),
        old(map)@.width <= MAX_EXTENT,
        old(map)@.height <= MAX_EXTENT,
    ensures
        final(map).wf(),
        final(map)@ == pull_image(old(map)@, img@, lookups@, eye),
        final(map)@.width == old(map)@.width,
        final(map)@.height == old(map)@.height,
{
    proof {
        map.lemma_wf_view();
    }
    let width = map.get_width();
    let height = map.get_height();
    let ghost start = map@;
    let mut x: usize = 0;
    while x < width
        invariant
            img.wf(),
            map.wf(),
            x <= width,
            start == old(map)@,
            width == start.width,
            height == start.height,
            width <= MAX_EXTENT,
            height <= MAX_EXTENT,
            map@.width == width,
            map@.height == height,
            map@ == pull_columns(start, img@, lookups@, eye, x as int, height as int),
        decreases width - x,
    {
        let ghost col_start = map@;
        let mut y: usize = 0;
        while y < height
            invariant
                img.wf(),
                map.wf(),
                x < width,
                y <= height,
                width <= MAX_EXTENT,
                height <= MAX_EXTENT,
                map@.width == width,
                map@.height == height,
                map@ == pull_column(col_start, img@, lookups@, eye, x as int, y as int),
            decreases height - y,
        {
            let pulled = match lookup(lookups, x, y) {
                Some(ls) => sample_source(img, &ls),
                None => None,
            };
            match pulled {
                Some(c) => {
                    let left = px_coord(x as u64);
                    let right = px_coord(x as u64 + 1);
                    let top = px_coord(y as u64);
                    let bottom = px_coord(y as u64 + 1);
                    let tl = Point::create(left, top, c.r, c.g, c.b);
                    let bl = Point::create(left, bottom, c.r, c.g, c.b);
                    let tr = Point::create(right, top, c.r, c.g, c.b);
                    let br = Point::create(right, bottom, c.r, c.g, c.b);
                    map.paint_square(&tl, &bl, &br, &tr, false, eye);
                },
                None => {},
            }
            y = y + 1;
        }
        x = x + 1;
    }
}

} // verus!
