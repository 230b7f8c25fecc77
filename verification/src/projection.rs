//! The two ways of painting an image on the map, behind one interface.

use vstd::prelude::*;
use crate::anaglyph::{process_image, pull_image, ImageCoordinate};
use crate::color::Eye;
use crate::drawable::{Drawable, Raster};
use crate::error::MosaicError;
use crate::geometry::MAX_EXTENT;
use crate::mapcontext::{LatLon, MapContext};
use crate::mosaic::{process_file, scatter_image};

verus! {

/// How an image is painted on the map, with the table of the cameras that
/// the way needs.
pub enum Strategy {
    /// Every pixel of the image is carried to its place on the map. The
    /// table holds the direction of every corner of the pixel grid of the
    /// image, and is `None` for an image without a camera model.
    Scatter { corners: Option<Vec<Vec<Option<LatLon>>>>, map_context: MapContext },
    /// Every pixel of the map pulls its colour from the image. The table
    /// holds for every pixel of the map the place in the image that shows
    /// it.
    Pull { lookups: Vec<Vec<Option<ImageCoordinate>>> },
}

/// Paints the image `img` on the map in the given way, for `eye`.
///
/// Scattering fails where the image has no camera model, and where the
/// camera gives no ray for a corner of a pixel; pulling never fails. A map
/// that is painted by pulling is at most `MAX_EXTENT` pixels wide and high.
pub fn project<D: Drawable>(img: &Raster, map: &mut D, strategy: &Strategy, eye: Eye) -> (r: Result<
    (),
    MosaicError,
>)
    requires
        img.wf(),
        old(map).wf(),
        strategy matches Strategy::Scatter { map_context, .. } ==> map_context.wf(),
        strategy is Pull ==> old(map)@.width <= MAX_EXTENT && old(map)@.height <= MAX_EXTENT,
    ensures
        final(map).wf(),
        final(map)@.width == old(map)@.width,
        final(map)@.height == old(map)@.height,
        match *strategy {
            Strategy::Scatter { corners: None, .. } => {
                &&& r == Err::<(), MosaicError>(MosaicError::MissingCameraModel)
                &&& final(map)@ == old(map)@
            },
            Strategy::Scatter { corners: Some(table), map_context } => {
                let done = scatter_image(old(map)@, img@, table@, map_context, eye);
                &&& final(map)@ == done.raster
                &&& r == if done.failed {
                    Err::<(), MosaicError>(MosaicError::ProjectionFailure)
                } else {
                    Ok::<(), MosaicError>(())
                }
            },
            Strategy::Pull { lookups } => {
                &&& r == Ok::<(), MosaicError>(())
                &&& final(map)@ == pull_image(old(map)@, img@, lookups@, eye)
            },
        },
{
    match strategy {
        Strategy::Scatter { corners, map_context } => process_file(
            img,
            corners,
            map_context,
            map,
            eye,
        ),
        Strategy::Pull { lookups } => {
            process_image(img, map, lookups, eye);
            Ok(())
        },
    }
}

} // verus!
