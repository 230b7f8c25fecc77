//! The geometry of the mosaic: which part of the sky it shows, and at what
//! resolution.
//!
//! Angles are fixed-point, in millionths of a degree.

use vstd::prelude::*;
use crate::arith::{
    floor_div, lemma_div_between, lemma_div_exact, lemma_div_shrinks, lemma_mul_bounded,
    lemma_mul_by_zero, lemma_mul_swaps,
};
use crate::error::MosaicError;
use crate::geometry::{COORD_MAX, MAX_EXTENT, SUBPIXELS};

verus! {

/// Number of angle units in one degree.
pub const MICRODEGREES: i32 = 1_000_000;

/// The south pole, the lowest latitude.
pub const MIN_LAT: i32 = -90_000_000;

/// The north pole, the highest latitude.
pub const MAX_LAT: i32 = 90_000_000;

/// The lowest longitude.
pub const MIN_LON: i32 = 0;

/// The highest longitude.
pub const MAX_LON: i32 = 360_000_000;

/// A direction on the cylinder: latitude and longitude, each in millionths
/// of a degree.
#[derive(Debug, Clone, Copy, PartialEq, Eq, Structural)]
pub struct LatLon {
    pub lat: i32,
    pub lon: i32,
}

/// What one camera contributes to the geometry of the map: the directions
/// of the sample points of its image, `None` where the camera model gave no
/// ray, and the angle that one of its pixels subtends horizontally.
#[derive(Debug)]
pub struct Footprint {
    pub samples: Vec<Option<LatLon>>,
    pub pixel_angle: i32,
}

/// The part of the cylinder seen so far, and the coarsest resolution met.
pub struct Extent {
    pub top: int,
    pub bottom: int,
    pub left: int,
    pub right: int,
    pub resolution: int,
}

impl Extent {
    /// The extent before anything has been seen: every bound sits at the
    /// far end of its range, so that the first sample sets all four.
    pub open spec fn empty() -> Extent {
        Extent {
            top: MIN_LAT as int,
            bottom: MAX_LAT as int,
            left: MAX_LON as int,
            right: -(MAX_LON as int),
            resolution: 0,
        }
    }

    /// The extent widened to hold the direction `s`.
    pub open spec fn with_sample(self, s: LatLon) -> Extent {
        Extent {
            top: if s.lat > self.top {
                s.lat as int
            } else {
                self.top
            },
            bottom: if s.lat < self.bottom {
                s.lat as int
            } else {
                self.bottom
            },
            left: if s.lon < self.left {
                s.lon as int
            } else {
                self.left
            },
            right: if s.lon > self.right {
                s.lon as int
            } else {
                self.right
            },
            resolution: self.resolution,
        }
    }

    /// The extent widened to hold every direction of `samples` that is
    /// there; the missing ones are passed over.
    pub open spec fn with_samples(self, samples: Seq<Option<LatLon>>) -> Extent
        decreases samples.len(),
    {
        if samples.len() == 0 {
            self
        } else {
            let before = self.with_samples(samples.drop_last());
            match samples.last() {
                Some(s) => before.with_sample(s),
                None => before,
            }
        }
    }

    /// The extent after one more camera: widened to hold its samples, and
    /// no finer than its pixels.
    pub open spec fn with_footprint(self, f: Footprint) -> Extent {
        let seen = self.with_samples(f.samples@);
        Extent {
            resolution: if f.pixel_angle > seen.resolution {
                f.pixel_angle as int
            } else {
                seen.resolution
            },
            ..seen
        }
    }

    /// The extent of all the cameras of `footprints`, images without a
    /// camera model passed over.
    pub open spec fn survey(footprints: Seq<Option<Footprint>>) -> Extent
        decreases footprints.len(),
    {
        if footprints.len() == 0 {
            Extent::empty()
        } else {
            let before = Extent::survey(footprints.drop_last());
            match footprints.last() {
                Some(f) => before.with_footprint(f),
                None => before,
            }
        }
    }

    /// The extent cut back to the cylinder: latitudes between the poles,
    /// longitudes within one turn.
    pub open spec fn clamped(self) -> Extent {
        Extent {
            top: if self.top > MAX_LAT {
                MAX_LAT as int
            } else {
                self.top
            },
            bottom: if self.bottom < MIN_LAT {
                MIN_LAT as int
            } else {
                self.bottom
            },
            left: if self.left < MIN_LON {
                MIN_LON as int
            } else {
                self.left
            },
            right: if self.right > MAX_LON {
                MAX_LON as int
            } else {
                self.right
            },
            resolution: self.resolution,
        }
    }

    /// Number of whole pixels across the extent; 0 where it has no width or
    /// no resolution.
    pub open spec fn columns(self) -> int {
        if self.resolution > 0 && self.right > self.left {
            (self.right - self.left) / self.resolution
        } else {
            0
        }
    }

    /// Number of whole pixels down the extent; 0 where it has no height or
    /// no resolution.
    pub open spec fn lines(self) -> int {
        if self.resolution > 0 && self.top > self.bottom {
            (self.top - self.bottom) / self.resolution
        } else {
            0
        }
    }
}

/// Whether any of the inputs has a camera model.
pub open spec fn any_usable(footprints: Seq<Option<Footprint>>) -> bool {
    exists|i: int| 0 <= i < footprints.len() && (#[trigger] footprints[i]).is_some()
}

/// The geometry of the mosaic: the latitudes of its top and bottom edges
/// and the longitudes of its left and right edges, its extent in pixels, and
/// the angle that one pixel covers. All angles are in millionths of a
/// degree.
#[derive(Debug, Clone, Copy, PartialEq, Eq, Structural)]
pub struct MapContext {
    pub top_lat: i32,
    pub bottom_lat: i32,
    pub left_lon: i32,
    pub right_lon: i32,
    pub width: usize,
    pub height: usize,
    pub degrees_per_pixel: i32,
}

impl MapContext {
    /// The invariant of a map that can be painted on: its bounds lie on the
    /// cylinder, its resolution is positive, and it is as many pixels wide
    /// and high as fit into its bounds, at least one each way. Such a map
    /// has no more pixels along either axis than there are angle units in a
    /// turn, which is well within the reach of coordinates.
    pub open spec fn wf(self) -> bool {
        &&& MIN_LAT <= self.bottom_lat <= self.top_lat <= MAX_LAT
        &&& MIN_LON <= self.left_lon <= self.right_lon <= MAX_LON
        &&& self.degrees_per_pixel > 0
        &&& self.width == (self.right_lon - self.left_lon) / (self.degrees_per_pixel as int)
        &&& self.height == (self.top_lat - self.bottom_lat) / (self.degrees_per_pixel as int)
        &&& 0 < self.width <= MAX_LON
        &&& 0 < self.height <= MAX_LON
    }

    /// The bounds and the resolution of the map.
    pub open spec fn extent(self) -> Extent {
        Extent {
            top: self.top_lat as int,
            bottom: self.bottom_lat as int,
            left: self.left_lon as int,
            right: self.right_lon as int,
            resolution: self.degrees_per_pixel as int,
        }
    }
}

impl MapContext {
    /// The map before anything has been seen.
    fn unseen() -> (ctx: MapContext)
        ensures
            ctx.extent() == Extent::empty(),
            ctx.width == 0,
            ctx.height == 0,
    {
        MapContext {
            top_lat: MIN_LAT,
            bottom_lat: MAX_LAT,
            left_lon: MAX_LON,
            right_lon: -MAX_LON,
            width: 0,
            height: 0,
            degrees_per_pixel: 0,
        }
    }

    /// Widens the bounds to hold the direction `s`.
    fn take_in(&mut self, s: &LatLon)
        ensures
            final(self).extent() == old(self).extent().with_sample(*s),
            final(self).width == old(self).width,
            final(self).height == old(self).height,
    {
        if s.lat < self.bottom_lat {
            self.bottom_lat = s.lat;
        }
        if s.lat > self.top_lat {
            self.top_lat = s.lat;
        }
        if s.lon < self.left_lon {
            self.left_lon = s.lon;
        }
        if s.lon > self.right_lon {
            self.right_lon = s.lon;
        }
    }

    /// Takes one more camera into the bounds and the resolution.
    fn take_in_footprint(&mut self, f: &Footprint)
        ensures
            final(self).extent() == old(self).extent().with_footprint(*f),
            final(self).width == old(self).width,
            final(self).height == old(self).height,
    {
        let ghost start = self.extent();
        let n = f.samples.len();
        let mut j: usize = 0;
        while j < n
            invariant
                j <= n,
                n == f.samples@.len(),
                self.extent() == start.with_samples(f.samples@.take(j as int)),
                self.width == old(self).width,
                self.height == old(self).height,
            decreases n - j,
        {
            proof {
                assert(f.samples@.take(j + 1).drop_last() =~= f.samples@.take(j as int));
            }
            match &f.samples[j] {
                Some(s) => {
                    self.take_in(s);
                },
                None => {},
            }
            j = j + 1;
        }
        proof {
            assert(f.samples@.take(n as int) =~= f.samples@);
        }
        if f.pixel_angle > self.degrees_per_pixel {
            self.degrees_per_pixel = f.pixel_angle;
        }
    }
}

/// The map coordinate of the angle `v` on an axis that runs from the angle
/// `lo` at coordinate 0 to the angle `hi` at the far edge of the last of
/// `extent` pixels: `(v - lo) / (hi - lo) * extent` pixels, in coordinate
/// units and rounded down.
pub open spec fn remap_spec(v: int, lo: int, hi: int, extent: int) -> int {
    ((v - lo) * extent * SUBPIXELS) / (hi - lo)
}

/// On an axis with no more pixels than angle units, an angle at most 2^32
/// units from the start of the axis has a coordinate within reach.
proof fn lemma_remap_in_reach(offset: int, extent: int, span: int)
    requires
        -0x1_0000_0000 <= offset <= 0x1_0000_0000,
        0 <= extent <= span,
        span > 0,
    ensures
        -0x1_0000_0000 * span <= offset * extent <= 0x1_0000_0000 * span,
        -COORD_MAX <= (offset * extent * SUBPIXELS) / span <= COORD_MAX,
{
    lemma_mul_bounded(offset, extent, 0x1_0000_0000, span);
    lemma_div_between(offset * extent * SUBPIXELS, span, -0x400_0000_0000, 0x400_0000_0000);
}

/// The map coordinate of the angle `v` on an axis from `lo` to `hi` that is
/// `extent` pixels long.
fn remap(v: i32, lo: i32, hi: i32, extent: usize) -> (c: i64)
    requires
        lo < hi,
        extent <= hi - lo,
    ensures
        c == remap_spec(v as int, lo as int, hi as int, extent as int),
        -COORD_MAX <= c <= COORD_MAX,
{
    let offset: i128 = v as i128 - lo as i128;
    let span: i128 = hi as i128 - lo as i128;
    proof {
        lemma_remap_in_reach(offset as int, extent as int, span as int);
    }
    let scaled: i128 = offset * (extent as i128);
    let q: i128 = floor_div(scaled * 1024, span);
    q as i64
}

impl MapContext {
    /// The map x coordinate of the longitude `lon`: 0 at the left bound,
    /// growing linearly to the width of the map at the right bound, and on
    /// in the same way beyond either bound.
    pub open spec fn map_x(self, lon: int) -> int {
        remap_spec(lon, self.left_lon as int, self.right_lon as int, self.width as int)
    }

    /// The map y coordinate of the latitude `lat`: 0 at the bottom bound,
    /// growing linearly to the height of the map at the top bound, and on
    /// in the same way beyond either bound.
    pub open spec fn map_y(self, lat: int) -> int {
        remap_spec(lat, self.bottom_lat as int, self.top_lat as int, self.height as int)
    }

    /// The place on the map of the direction `ll`, as x and y. Every
    /// direction has its place within the reach of coordinates.
    pub fn map_xy(&self, ll: &LatLon) -> (p: (i64, i64))
        requires
            self.wf(),
        ensures
            p.0 == self.map_x(ll.lon as int),
            p.1 == self.map_y(ll.lat as int),
            -COORD_MAX <= p.0 <= COORD_MAX,
            -COORD_MAX <= p.1 <= COORD_MAX,
    {
        proof {
            self.lemma_bounds_apart();
        }
        let x = remap(ll.lon, self.left_lon, self.right_lon, self.width);
        let y = remap(ll.lat, self.bottom_lat, self.top_lat, self.height);
        (x, y)
    }

    /// A map that can be painted on has its bounds apart, and no more
    /// pixels along either axis than angle units; so it is never wider or
    /// higher than coordinates reach.
    pub proof fn lemma_bounds_apart(self)
        requires
            self.wf(),
        ensures
            self.left_lon < self.right_lon,
            self.bottom_lat < self.top_lat,
            self.width <= self.right_lon - self.left_lon,
            self.height <= self.top_lat - self.bottom_lat,
            self.width <= MAX_LON,
            self.height <= MAX_LON,
            self.width <= MAX_EXTENT,
            self.height <= MAX_EXTENT,
    {
        lemma_div_shrinks(self.right_lon - self.left_lon, self.degrees_per_pixel as int);
        lemma_div_shrinks(self.top_lat - self.bottom_lat, self.degrees_per_pixel as int);
    }

    /// The left and bottom bounds of the map lie at coordinate 0, the right
    /// and top bounds at its width and height.
    pub proof fn lemma_map_corners(self)
        requires
            self.wf(),
        ensures
            self.map_x(self.left_lon as int) == 0,
            self.map_y(self.bottom_lat as int) == 0,
            self.map_x(self.right_lon as int) == self.width * SUBPIXELS,
            self.map_y(self.top_lat as int) == self.height * SUBPIXELS,
    {
        self.lemma_bounds_apart();
        let dx = self.right_lon - self.left_lon;
        let dy = self.top_lat - self.bottom_lat;
        let w = self.width as int;
        let h = self.height as int;
        lemma_mul_by_zero(0, w);
        lemma_mul_by_zero(0, h);
        lemma_mul_by_zero(0, dx);
        lemma_mul_by_zero(0, dy);
        lemma_div_exact(0, dx);
        lemma_div_exact(0, dy);
        lemma_mul_swaps(dx, w, SUBPIXELS as int);
        lemma_mul_swaps(dy, h, SUBPIXELS as int);
        lemma_div_exact(w * SUBPIXELS, dx);
        lemma_div_exact(h * SUBPIXELS, dy);
    }
}

/// The bounds of a survey hold every sample of every camera in it, and its
/// resolution is no finer than any of the cameras.
pub proof fn lemma_survey_encloses(footprints: Seq<Option<Footprint>>, i: int, j: int)
    requires
        0 <= i < footprints.len(),
        footprints[i].is_some(),
        0 <= j < footprints[i].unwrap().samples@.len(),
        footprints[i].unwrap().samples@[j].is_some(),
    ensures
        Extent::survey(footprints).bottom <= footprints[i].unwrap().samples@[j].unwrap().lat
            <= Extent::survey(footprints).top,
        Extent::survey(footprints).left <= footprints[i].unwrap().samples@[j].unwrap().lon
            <= Extent::survey(footprints).right,
        Extent::survey(footprints).resolution >= footprints[i].unwrap().pixel_angle,
    decreases footprints.len(),
{
    let before = Extent::survey(footprints.drop_last());
    if i == footprints.len() - 1 {
        let f = footprints[i].unwrap();
        lemma_samples_enclosed(before, f.samples@, j);
    } else {
        lemma_survey_encloses(footprints.drop_last(), i, j);
        match footprints.last() {
            Some(f) => {
                lemma_samples_widen(before, f.samples@);
            },
            None => {},
        }
    }
}

/// Taking samples in only ever widens an extent.
pub proof fn lemma_samples_widen(e: Extent, samples: Seq<Option<LatLon>>)
    ensures
        e.with_samples(samples).top >= e.top,
        e.with_samples(samples).bottom <= e.bottom,
        e.with_samples(samples).left <= e.left,
        e.with_samples(samples).right >= e.right,
        e.with_samples(samples).resolution == e.resolution,
    decreases samples.len(),
{
    if samples.len() > 0 {
        lemma_samples_widen(e, samples.drop_last());
    }
}

/// An extent that has taken samples in holds each of them.
pub proof fn lemma_samples_enclosed(e: Extent, samples: Seq<Option<LatLon>>, j: int)
    requires
        0 <= j < samples.len(),
        samples[j].is_some(),
    ensures
        e.with_samples(samples).bottom <= samples[j].unwrap().lat <= e.with_samples(samples).top,
        e.with_samples(samples).left <= samples[j].unwrap().lon <= e.with_samples(samples).right,
    decreases samples.len(),
{
    if j < samples.len() - 1 {
        lemma_samples_enclosed(e, samples.drop_last(), j);
    }
}

/// The image-space points at which a camera is sampled to find what an
/// image of the given extent shows: its four corners, and the middle of its
/// top and bottom edges. Each is a column and a row.
pub fn footprint_samples(width: usize, height: usize) -> (points: Vec<(usize, usize)>)
    ensures
        points@ == seq![
            (0usize, 0usize),
            (width, 0usize),
            (0usize, height),
            (width, height),
            ((width / 2) as usize, 0usize),
            ((width / 2) as usize, height),
        ],
{
    let mut points: Vec<(usize, usize)> = Vec::new();
    points.push((0, 0));
    points.push((width, 0));
    points.push((0, height));
    points.push((width, height));
    points.push((width / 2, 0));
    points.push((width / 2, height));
    proof {
        assert(points@ =~= seq![
            (0usize, 0usize),
            (width, 0usize),
            (0usize, height),
            (width, height),
            ((width / 2) as usize, 0usize),
            ((width / 2) as usize, height),
        ]);
    }
    points
}

/// What all the cameras of the inputs see, cut back to the cylinder, with
/// the number of whole pixels that fit into it across and down, and whether
/// any of the inputs has a camera model.
fn survey(footprints: &Vec<Option<Footprint>>) -> (r: (MapContext, bool))
    ensures
        r.0.extent() == Extent::survey(footprints@).clamped(),
        r.0.width == Extent::survey(footprints@).clamped().columns(),
        r.0.height == Extent::survey(footprints@).clamped().lines(),
        r.0.width <= MAX_LON,
        r.0.height <= MAX_LON,
        r.1 == any_usable(footprints@),
{
    let mut ctx = MapContext::unseen();
    let mut usable = false;
    let n = footprints.len();
    let mut i: usize = 0;
    while i < n
        invariant
            i <= n,
            n == footprints@.len(),
            ctx.extent() == Extent::survey(footprints@.take(i as int)),
            ctx.width == 0,
            ctx.height == 0,
            usable == any_usable(footprints@.take(i as int)),
        decreases n - i,
    {
        proof {
            let now = footprints@.take(i as int);
            let next = footprints@.take(i + 1);
            assert(next.drop_last() =~= now);
            if any_usable(now) {
                let k = choose|k: int| 0 <= k < now.len() && (#[trigger] now[k]).is_some();
                assert(next[k].is_some());
            }
            if footprints@[i as int].is_some() {
                assert(next[i as int].is_some());
            }
            if any_usable(next) {
                let k = choose|k: int| 0 <= k < next.len() && (#[trigger] next[k]).is_some();
                if k < i {
                    assert(now[k].is_some());
                }
            }
        }
        match &footprints[i] {
            Some(f) => {
                ctx.take_in_footprint(f);
                usable = true;
            },
            None => {},
        }
        i = i + 1;
    }
    proof {
        assert(footprints@.take(n as int) =~= footprints@);
    }
    if ctx.top_lat > MAX_LAT {
        ctx.top_lat = MAX_LAT;
    }
    if ctx.bottom_lat < MIN_LAT {
        ctx.bottom_lat = MIN_LAT;
    }
    if ctx.left_lon < MIN_LON {
        ctx.left_lon = MIN_LON;
    }
    if ctx.right_lon > MAX_LON {
        ctx.right_lon = MAX_LON;
    }
    if ctx.degrees_per_pixel > 0 {
        if ctx.right_lon > ctx.left_lon {
            proof {
                lemma_div_shrinks(ctx.right_lon - ctx.left_lon, ctx.degrees_per_pixel as int);
            }
            let across: i64 = (ctx.right_lon as i64 - ctx.left_lon as i64) / (
            ctx.degrees_per_pixel as i64);
            ctx.width = across as usize;
        }
        if ctx.top_lat > ctx.bottom_lat {
            proof {
                lemma_div_shrinks(ctx.top_lat - ctx.bottom_lat, ctx.degrees_per_pixel as int);
            }
            let down: i64 = (ctx.top_lat as i64 - ctx.bottom_lat as i64) / (
            ctx.degrees_per_pixel as i64);
            ctx.height = down as usize;
        }
    }
    (ctx, usable)
}

/// How many whole pixels wide and high the map of the given inputs comes
/// out: width first. Either is 0 where the cameras see no extent that way,
/// or have no resolution.
pub fn map_extent(footprints: &Vec<Option<Footprint>>) -> (e: (usize, usize))
    ensures
        e.0 == Extent::survey(footprints@).clamped().columns(),
        e.1 == Extent::survey(footprints@).clamped().lines(),
{
    let (ctx, _) = survey(footprints);
    (ctx.width, ctx.height)
}

/// The geometry of the mosaic of the given inputs, one entry for each
/// image: its footprint, or `None` where the image has no usable camera
/// model.
///
/// The bounds are those of all the samples of all the cameras, cut back to
/// the cylinder; the resolution is that of the coarsest camera; the map is
/// as many whole pixels wide and high as fit into the bounds. Without any
/// camera the map has no geometry, and a map of no width or no height is
/// refused.
pub fn determine_map_context(footprints: &Vec<Option<Footprint>>) -> (r: Result<
    MapContext,
    MosaicError,
>)
    ensures
        r.is_ok() <==> any_usable(footprints@) && Extent::survey(footprints@).clamped().columns() > 0
            && Extent::survey(footprints@).clamped().lines() > 0,
        match r {
            Ok(ctx) => {
                &&& ctx.wf()
                &&& ctx.extent() == Extent::survey(footprints@).clamped()
                &&& ctx.width == Extent::survey(footprints@).clamped().columns()
                &&& ctx.height == Extent::survey(footprints@).clamped().lines()
            },
            Err(e) => e == if any_usable(footprints@) {
                MosaicError::DegenerateMapGeometry
            } else {
                MosaicError::MissingGeometry
            },
        },
{
    let (ctx, usable) = survey(footprints);
    if !usable {
        return Err(MosaicError::MissingGeometry);
    }
    if ctx.width == 0 || ctx.height == 0 {
        return Err(MosaicError::DegenerateMapGeometry);
    }
    Ok(ctx)
}

} // verus!
