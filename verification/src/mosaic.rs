//! The forward projector: every pixel of a source image is carried to the
//! place on the map where the camera saw it, and painted there as a quad.

use vstd::prelude::*;
use crate::color::{Eye, Rgb};
use crate::drawable::{
    lemma_paint_tri_wf, lower_triangle, paint_square_spec, paint_tri_spec, upper_triangle, Drawable,
    Raster, RasterView,
};
use crate::error::MosaicError;
use crate::geometry::Point;
use crate::mapcontext::{LatLon, MapContext};

verus! {

/// Number of columns and rows along each edge of a source image that are
/// not used in projecting it: the optics are unreliable there.
pub const MARGIN: usize = 50;

/// The four corners of a quad on the map.
#[derive(Debug, Clone, Copy, PartialEq, Eq, Structural)]
pub struct Quad {
    pub tl: Point,
    pub bl: Point,
    pub br: Point,
    pub tr: Point,
}

impl Quad {
    /// Whether all four corners lie within the reach of coordinates.
    pub open spec fn wf(self) -> bool {
        self.tl.wf() && self.bl.wf() && self.br.wf() && self.tr.wf()
    }
}

/// The raster `v` after the quad `q` has been painted on it.
pub open spec fn paint_quad_spec(v: RasterView, q: Quad, average: bool, eye: Eye) -> RasterView {
    paint_square_spec(v, q.tl, q.bl, q.br, q.tr, average, eye)
}

/// The direction in which the camera sees the corner in column `x` and row
/// `y` of the pixel grid of its image; `None` where the camera model gave no
/// ray, and beyond the end of the table.
pub open spec fn corner_at(corners: Seq<Vec<Option<LatLon>>>, x: int, y: int) -> Option<LatLon> {
    if 0 <= y < corners.len() && 0 <= x < corners[y]@.len() {
        corners[y]@[x]
    } else {
        None
    }
}

/// The first column or row past the pixels of an image of the given extent
/// that are projected: a pixel is projected where it lies inside the margin
/// with all four of its corners, the right-hand and lower ones being those
/// of the next column and row. `MARGIN` where the image is too small to have
/// such pixels.
pub open spec fn interior_end(extent: int) -> int {
    if extent > 2 * MARGIN + 1 {
        extent - MARGIN - 1
    } else {
        MARGIN as int
    }
}

/// Whether the source pixel in column `x` and row `y` is projected.
pub open spec fn in_interior(img: RasterView, x: int, y: int) -> bool {
    MARGIN <= x < interior_end(img.width as int) && MARGIN <= y < interior_end(img.height as int)
}

/// The point on the map of the corner in column `x` and row `y` of the
/// source: at the place to which the map carries the direction `ll`, with
/// the colour of the source pixel there.
pub open spec fn corner_point(
    img: RasterView,
    ctx: MapContext,
    ll: LatLon,
    x: int,
    y: int,
) -> Point {
    Point {
        x: ctx.map_x(ll.lon as int) as i64,
        y: ctx.map_y(ll.lat as int) as i64,
        r: img.pixel(x, y).r,
        g: img.pixel(x, y).g,
        b: img.pixel(x, y).b,
    }
}

/// The quad on the map of the source pixel in column `x` and row `y`, made
/// of its four corners; `None` where the camera gave no ray for one of them.
pub open spec fn quad_at(
    img: RasterView,
    corners: Seq<Vec<Option<LatLon>>>,
    ctx: MapContext,
    x: int,
    y: int,
) -> Option<Quad> {
    match (
        corner_at(corners, x, y),
        corner_at(corners, x + 1, y),
        corner_at(corners, x, y + 1),
        corner_at(corners, x + 1, y + 1),
    ) {
        (Some(tl), Some(tr), Some(bl), Some(br)) => Some(
            Quad {
                tl: corner_point(img, ctx, tl, x, y),
                bl: corner_point(img, ctx, bl, x, y + 1),
                br: corner_point(img, ctx, br, x + 1, y + 1),
                tr: corner_point(img, ctx, tr, x + 1, y),
            },
        ),
        _ => None,
    }
}

/// How far a projection has come: what the map holds, and whether the
/// projection has been given up.
pub struct Progress {
    pub raster: RasterView,
    pub failed: bool,
}

/// The progress `p` after the source pixel in column `x` and row `y`: its
/// quad is painted on the map for `eye`, without averaging. Where the pixel
/// has no quad the projection is given up, and once it is given up nothing
/// is painted any more.
pub open spec fn scatter_pixel(
    p: Progress,
    img: RasterView,
    corners: Seq<Vec<Option<LatLon>>>,
    ctx: MapContext,
    eye: Eye,
    x: int,
    y: int,
) -> Progress {
    if p.failed {
        p
    } else {
        match quad_at(img, corners, ctx, x, y) {
            Some(q) => Progress { raster: paint_quad_spec(p.raster, q, false, eye), failed: false },
            None => Progress { raster: p.raster, failed: true },
        }
    }
}

/// The progress `p` after the projected pixels of column `x` above row
/// `y_end`, from the top down.
pub open spec fn scatter_column(
    p: Progress,
    img: RasterView,
    corners: Seq<Vec<Option<LatLon>>>,
    ctx: MapContext,
    eye: Eye,
    x: int,
    y_end: int,
) -> Progress
    decreases y_end,
{
    if y_end <= MARGIN {
        p
    } else {
        scatter_pixel(
            scatter_column(p, img, corners, ctx, eye, x, y_end - 1),
            img,
            corners,
            ctx,
            eye,
            x,
            y_end - 1,
        )
    }
}

/// The progress `p` after the projected pixels of the columns left of
/// `x_end`, column by column from the left.
pub open spec fn scatter_columns(
    p: Progress,
    img: RasterView,
    corners: Seq<Vec<Option<LatLon>>>,
    ctx: MapContext,
    eye: Eye,
    x_end: int,
) -> Progress
    decreases x_end,
{
    if x_end <= MARGIN {
        p
    } else {
        scatter_column(
            scatter_columns(p, img, corners, ctx, eye, x_end - 1),
            img,
            corners,
            ctx,
            eye,
            x_end - 1,
            interior_end(img.height as int),
        )
    }
}

/// The map `v` after the whole of the image has been projected on it, and
/// whether the projection was given up on the way.
pub open spec fn scatter_image(
    v: RasterView,
    img: RasterView,
    corners: Seq<Vec<Option<LatLon>>>,
    ctx: MapContext,
    eye: Eye,
) -> Progress {
    scatter_columns(
        Progress { raster: v, failed: false },
        img,
        corners,
        ctx,
        eye,
        interior_end(img.width as int),
    )
}

/// A projection that has been given up stays as it is to the end of the
/// column.
pub proof fn lemma_failed_column(
    p: Progress,
    img: RasterView,
    corners: Seq<Vec<Option<LatLon>>>,
    ctx: MapContext,
    eye: Eye,
    x: int,
    y_end: int,
)
    requires
        p.failed,
    ensures
        scatter_column(p, img, corners, ctx, eye, x, y_end) == p,
    decreases y_end,
{
    if y_end > MARGIN {
        lemma_failed_column(p, img, corners, ctx, eye, x, y_end - 1);
    }
}

/// A projection that is given up in a column stays as it is from there to
/// the end of the column.
pub proof fn lemma_failed_in_column(
    p: Progress,
    img: RasterView,
    corners: Seq<Vec<Option<LatLon>>>,
    ctx: MapContext,
    eye: Eye,
    x: int,
    y: int,
    y_end: int,
)
    requires
        MARGIN <= y <= y_end,
        scatter_column(p, img, corners, ctx, eye, x, y).failed,
    ensures
        scatter_column(p, img, corners, ctx, eye, x, y_end) == scatter_column(
            p,
            img,
            corners,
            ctx,
            eye,
            x,
            y,
        ),
    decreases y_end,
{
    if y_end > y {
        lemma_failed_in_column(p, img, corners, ctx, eye, x, y, y_end - 1);
    }
}

/// A projection that has been given up stays as it is to the end of the
/// image.
pub proof fn lemma_failed_columns(
    p: Progress,
    img: RasterView,
    corners: Seq<Vec<Option<LatLon>>>,
    ctx: MapContext,
    eye: Eye,
    x: int,
    x_end: int,
)
    requires
        MARGIN <= x <= x_end,
        scatter_columns(p, img, corners, ctx, eye, x).failed,
    ensures
        scatter_columns(p, img, corners, ctx, eye, x_end) == scatter_columns(
            p,
            img,
            corners,
            ctx,
            eye,
            x,
        ),
    decreases x_end,
{
    if x_end > x {
        lemma_failed_columns(p, img, corners, ctx, eye, x, x_end - 1);
        lemma_failed_column(
            scatter_columns(p, img, corners, ctx, eye, x),
            img,
            corners,
            ctx,
            eye,
            x_end - 1,
            interior_end(img.height as int),
        );
    }
}

/// Projecting an image changes no pixel of the map in a channel that is not
/// of the eye, and keeps the extent of the map.
pub proof fn lemma_scatter_keeps_other_channels(
    v: RasterView,
    img: RasterView,
    corners: Seq<Vec<Option<LatLon>>>,
    ctx: MapContext,
    eye: Eye,
    px: int,
    py: int,
    channel: int,
)
    requires
        v.wf(),
        v.has(px, py),
        0 <= channel <= 2,
        !eye.writes(channel),
    ensures
        scatter_image(v, img, corners, ctx, eye).raster.wf(),
        scatter_image(v, img, corners, ctx, eye).raster.width == v.width,
        scatter_image(v, img, corners, ctx, eye).raster.height == v.height,
        scatter_image(v, img, corners, ctx, eye).raster.pixel(px, py).channel(channel) == v.pixel(
            px,
            py,
        ).channel(channel),
{
    lemma_columns_keep_other_channels(
        Progress { raster: v, failed: false },
        img,
        corners,
        ctx,
        eye,
        interior_end(img.width as int),
        px,
        py,
        channel,
    );
}

/// Painting a quad keeps a raster well formed and of the same extent, and
/// changes no pixel in a channel that is not of the eye.
pub proof fn lemma_quad_keeps_other_channels(
    v: RasterView,
    q: Quad,
    average: bool,
    eye: Eye,
    px: int,
    py: int,
    channel: int,
)
    requires
        v.wf(),
        v.has(px, py),
        0 <= channel <= 2,
        !eye.writes(channel),
    ensures
        paint_quad_spec(v, q, average, eye).wf(),
        paint_quad_spec(v, q, average, eye).width == v.width,
        paint_quad_spec(v, q, average, eye).height == v.height,
        paint_quad_spec(v, q, average, eye).pixel(px, py).channel(channel) == v.pixel(px, py).channel(
            channel,
        ),
{
    let t1 = upper_triangle(q.tl, q.bl, q.br, q.tr);
    let t2 = lower_triangle(q.tl, q.bl, q.br, q.tr);
    lemma_paint_tri_wf(v, t1, average, eye);
    lemma_paint_tri_wf(paint_tri_spec(v, t1, average, eye), t2, average, eye);
}

/// What one more source pixel does to a channel that is not of the eye.
proof fn lemma_pixel_keeps_other_channels(
    p: Progress,
    img: RasterView,
    corners: Seq<Vec<Option<LatLon>>>,
    ctx: MapContext,
    eye: Eye,
    x: int,
    y: int,
    px: int,
    py: int,
    channel: int,
)
    requires
        p.raster.wf(),
        p.raster.has(px, py),
        0 <= channel <= 2,
        !eye.writes(channel),
    ensures
        scatter_pixel(p, img, corners, ctx, eye, x, y).raster.wf(),
        scatter_pixel(p, img, corners, ctx, eye, x, y).raster.width == p.raster.width,
        scatter_pixel(p, img, corners, ctx, eye, x, y).raster.height == p.raster.height,
        scatter_pixel(p, img, corners, ctx, eye, x, y).raster.pixel(px, py).channel(channel)
            == p.raster.pixel(px, py).channel(channel),
{
    if !p.failed {
        match quad_at(img, corners, ctx, x, y) {
            Some(q) => {
                lemma_quad_keeps_other_channels(p.raster, q, false, eye, px, py, channel);
            },
            None => {},
        }
    }
}

/// What the pixels of a column do to a channel that is not of the eye.
proof fn lemma_column_keeps_other_channels(
    p: Progress,
    img: RasterView,
    corners: Seq<Vec<Option<LatLon>>>,
    ctx: MapContext,
    eye: Eye,
    x: int,
    y_end: int,
    px: int,
    py: int,
    channel: int,
)
    requires
        p.raster.wf(),
        p.raster.has(px, py),
        0 <= channel <= 2,
        !eye.writes(channel),
    ensures
        scatter_column(p, img, corners, ctx, eye, x, y_end).raster.wf(),
        scatter_column(p, img, corners, ctx, eye, x, y_end).raster.width == p.raster.width,
        scatter_column(p, img, corners, ctx, eye, x, y_end).raster.height == p.raster.height,
        scatter_column(p, img, corners, ctx, eye, x, y_end).raster.pixel(px, py).channel(channel)
            == p.raster.pixel(px, py).channel(channel),
    decreases y_end,
{
    if y_end > MARGIN {
        lemma_column_keeps_other_channels(p, img, corners, ctx, eye, x, y_end - 1, px, py, channel);
        lemma_pixel_keeps_other_channels(
            scatter_column(p, img, corners, ctx, eye, x, y_end - 1),
            img,
            corners,
            ctx,
            eye,
            x,
            y_end - 1,
            px,
            py,
            channel,
        );
    }
}

/// What the columns of an image do to a channel that is not of the eye.
proof fn lemma_columns_keep_other_channels(
    p: Progress,
    img: RasterView,
    corners: Seq<Vec<Option<LatLon>>>,
    ctx: MapContext,
    eye: Eye,
    x_end: int,
    px: int,
    py: int,
    channel: int,
)
    requires
        p.raster.wf(),
        p.raster.has(px, py),
        0 <= channel <= 2,
        !eye.writes(channel),
    ensures
        scatter_columns(p, img, corners, ctx, eye, x_end).raster.wf(),
        scatter_columns(p, img, corners, ctx, eye, x_end).raster.width == p.raster.width,
        scatter_columns(p, img, corners, ctx, eye, x_end).raster.height == p.raster.height,
        scatter_columns(p, img, corners, ctx, eye, x_end).raster.pixel(px, py).channel(channel)
            == p.raster.pixel(px, py).channel(channel),
    decreases x_end,
{
    if x_end > MARGIN {
        lemma_columns_keep_other_channels(p, img, corners, ctx, eye, x_end - 1, px, py, channel);
        lemma_column_keeps_other_channels(
            scatter_columns(p, img, corners, ctx, eye, x_end - 1),
            img,
            corners,
            ctx,
            eye,
            x_end - 1,
            interior_end(img.height as int),
            px,
            py,
            channel,
        );
    }
}

/// A camera that gives no ray for the first pixel inside the margin ends
/// the projection at once: it is given up, and the map stays as it was.
pub proof fn lemma_blind_camera_paints_nothing(
    v: RasterView,
    img: RasterView,
    corners: Seq<Vec<Option<LatLon>>>,
    ctx: MapContext,
    eye: Eye,
)
    requires
        in_interior(img, MARGIN as int, MARGIN as int),
        quad_at(img, corners, ctx, MARGIN as int, MARGIN as int).is_none(),
    ensures
        scatter_image(v, img, corners, ctx, eye) == (Progress { raster: v, failed: true }),
{
    let start = Progress { raster: v, failed: false };
    let y_end = interior_end(img.height as int);
    let x_end = interior_end(img.width as int);
    assert(scatter_columns(start, img, corners, ctx, eye, MARGIN as int) == start);
    assert(scatter_column(start, img, corners, ctx, eye, MARGIN as int, MARGIN as int) == start);
    let first = scatter_column(start, img, corners, ctx, eye, MARGIN as int, MARGIN + 1);
    assert(first == Progress { raster: v, failed: true });
    lemma_failed_in_column(start, img, corners, ctx, eye, MARGIN as int, MARGIN + 1, y_end);
    assert(scatter_columns(start, img, corners, ctx, eye, MARGIN + 1) == first);
    lemma_failed_columns(start, img, corners, ctx, eye, MARGIN + 1, x_end);
}

/// The place in the list of the first input that is not there; `None`
/// where every input is there. `present` tells of each input in turn
/// whether it exists. A run with a missing input ends before anything is
/// painted, as `MosaicError::InputNotFound`.
pub fn first_missing(present: &Vec<bool>) -> (missing: Option<usize>)
    ensures
        match missing {
            Some(i) => i < present@.len() && !present@[i as int] && forall|j: int|
                0 <= j < i ==> present@[j],
            None => forall|j: int| 0 <= j < present@.len() ==> present@[j],
        },
{
    let mut i: usize = 0;
    while i < present.len()
        invariant
            i <= present@.len(),
            forall|j: int| 0 <= j < i ==> present@[j],
        decreases present@.len() - i,
    {
        if !present[i] {
            return Some(i);
        }
        i = i + 1;
    }
    None
}

/// The direction of the corner in column `x` and row `y`, as the table
/// gives it.
pub fn corner(corners: &Vec<Vec<Option<LatLon>>>, x: usize, y: usize) -> (ll: Option<LatLon>)
    ensures
        ll == corner_at(corners@, x as int, y as int),
{
    if y < corners.len() {
        let row = &corners[y];
        if x < row.len() {
            return row[x];
        }
    }
    None
}

/// The first column or row past the projected part of an image of the given
/// extent.
pub fn interior_stop(extent: usize) -> (end: usize)
    ensures
        end == interior_end(extent as int),
        MARGIN <= end,
        end > MARGIN ==> end + MARGIN + 1 == extent,
{
    if extent > 2 * MARGIN + 1 {
        extent - MARGIN - 1
    } else {
        MARGIN
    }
}

/// The quad on the map of the source pixel in column `x` and row `y`.
pub fn project_pixel(
    img: &Raster,
    corners: &Vec<Vec<Option<LatLon>>>,
    ctx: &MapContext,
    x: usize,
    y: usize,
) -> (q: Option<Quad>)
    requires
        img.wf(),
        ctx.wf(),
        in_interior(img@, x as int, y as int),
    ensures
        q == quad_at(img@, corners@, *ctx, x as int, y as int),
        q matches Some(quad) ==> quad.wf(),
{
    proof {
        img.lemma_wf_view();
    }
    let c_tl = corner(corners, x, y);
    let c_tr = corner(corners, x + 1, y);
    let c_bl = corner(corners, x, y + 1);
    let c_br = corner(corners, x + 1, y + 1);
    match (c_tl, c_tr, c_bl, c_br) {
        (Some(tl), Some(tr), Some(bl), Some(br)) => {
            Some(
                Quad {
                    tl: place(img, ctx, &tl, x, y),
                    bl: place(img, ctx, &bl, x, y + 1),
                    br: place(img, ctx, &br, x + 1, y + 1),
                    tr: place(img, ctx, &tr, x + 1, y),
                },
            )
        },
        _ => None,
    }
}

/// The point on the map of the corner in column `x` and row `y` of the
/// source, which the camera sees in the direction `ll`.
fn place(img: &Raster, ctx: &MapContext, ll: &LatLon, x: usize, y: usize) -> (p: Point)
    requires
        img.wf(),
        ctx.wf(),
        img@.has(x as int, y as int),
    ensures
        p == corner_point(img@, *ctx, *ll, x as int, y as int),
        p.wf(),
{
    let (mx, my) = ctx.map_xy(ll);
    let c: Rgb = img.get(x, y);
    Point::create(mx, my, c.r, c.g, c.b)
}

/// Projects the image `img` on the map.
///
/// `corners` tells in which direction the camera sees each corner of the
/// pixel grid of the image, row by row; it is `None` for an image without a
/// usable camera model, and then nothing is painted. Otherwise the pixels
/// inside the margin are taken column by column from the left, each column
/// from the top down, and the quad of each is painted for `eye` without
/// averaging. The first pixel with a corner for which the camera gave no ray
/// ends the projection: what was painted before it stays.
pub fn process_file<D: Drawable>(
    img: &Raster,
    corners: &Option<Vec<Vec<Option<LatLon>>>>,
    map_context: &MapContext,
    map: &mut D,
    eye: Eye,
) -> (r: Result<(), MosaicError>)
    requires
        img.wf(),
        map_context.wf(),
        old(map).wf(),
    ensures
        final(map).wf(),
        final(map)@.width == old(map)@.width,
        final(map)@.height == old(map)@.height,
        match *corners {
            None => r == Err::<(), MosaicError>(MosaicError::MissingCameraModel) && final(map)@ == old(
                map,
            )@,
            Some(table) => {
                let done = scatter_image(old(map)@, img@, table@, *map_context, eye);
                &&& final(map)@ == done.raster
                &&& r == if done.failed {
                    Err::<(), MosaicError>(MosaicError::ProjectionFailure)
                } else {
                    Ok::<(), MosaicError>(())
                }
            },
        },
{
    let table = match corners {
        Some(t) => t,
        None => {
            return Err(MosaicError::MissingCameraModel);
        },
    };
    let ghost start = Progress { raster: map@, failed: false };
    proof {
        img.lemma_wf_view();
        map.lemma_wf_view();
    }
    let x_end = interior_stop(img.get_width());
    let y_end = interior_stop(img.get_height());
    let mut x: usize = MARGIN;
    while x < x_end
        invariant
            img.wf(),
            map_context.wf(),
            map.wf(),
            MARGIN <= x <= x_end,
            x_end == interior_end(img@.width as int),
            y_end == interior_end(img@.height as int),
            start == (Progress { raster: old(map)@, failed: false }),
            *corners == Some(*table),
            map@.width == old(map)@.width,
            map@.height == old(map)@.height,
            scatter_columns(start, img@, table@, *map_context, eye, x as int) == (Progress {
                raster: map@,
                failed: false,
            }),
        decreases x_end - x,
    {
        let ghost col_start = Progress { raster: map@, failed: false };
        let mut y: usize = MARGIN;
        while y < y_end
            invariant
                img.wf(),
                map_context.wf(),
                map.wf(),
                MARGIN <= x < x_end,
                MARGIN <= y <= y_end,
                x_end == interior_end(img@.width as int),
                y_end == interior_end(img@.height as int),
                start == (Progress { raster: old(map)@, failed: false }),
                *corners == Some(*table),
                map@.width == old(map)@.width,
                map@.height == old(map)@.height,
                scatter_columns(start, img@, table@, *map_context, eye, x as int) == col_start,
                scatter_column(col_start, img@, table@, *map_context, eye, x as int, y as int) == (
                Progress { raster: map@, failed: false }),
            decreases y_end - y,
        {
            match project_pixel(img, table, map_context, x, y) {
                Some(q) => {
                    map.paint_square(&q.tl, &q.bl, &q.br, &q.tr, false, eye);
                },
                None => {
                    proof {
                        let here = scatter_column(
                            col_start,
                            img@,
                            table@,
                            *map_context,
                            eye,
                            x as int,
                            y + 1,
                        );
                        assert(here == Progress { raster: map@, failed: true });
                        lemma_failed_in_column(
                            col_start,
                            img@,
                            table@,
                            *map_context,
                            eye,
                            x as int,
                            y + 1,
                            y_end as int,
                        );
                        assert(scatter_columns(start, img@, table@, *map_context, eye, x + 1)
                            == here);
                        lemma_failed_columns(
                            start,
                            img@,
                            table@,
                            *map_context,
                            eye,
                            x + 1,
                            x_end as int,
                        );
                    }
                    return Err(MosaicError::ProjectionFailure);
                },
            }
            y = y + 1;
        }
        x = x + 1;
    }
    Ok(())
}

} // verus!
