//! Frames within an image.

use vstd::prelude::*;

verus! {

/// A rectangle of pixels within an image: the column and row of its first
/// pixel, and its extent.
#[derive(Debug, Clone, Copy, PartialEq, Eq, Structural)]
pub struct Crop {
    pub x: usize,
    pub y: usize,
    pub width: usize,
    pub height: usize,
}

impl Crop {
    /// Whether the rectangle lies within an image of the given extent.
    pub open spec fn fits(self, width: int, height: int) -> bool {
        self.x + self.width <= width && self.y + self.height <= height
    }
}

/// The part of a flat field that is laid over a raw image: `None` where the
/// flat field is no wider than the image and is used whole, else the frame
/// of the extent of the image in the middle of the flat field.
pub fn flat_crop(flat_width: usize, flat_height: usize, width: usize, height: usize) -> (c: Option<
    Crop,
>)
    requires
        flat_width > width ==> flat_height >= height,
    ensures
        c == if flat_width > width {
            Some(
                Crop {
                    x: ((flat_width - width) / 2) as usize,
                    y: ((flat_height - height) / 2) as usize,
                    width,
                    height,
                },
            )
        } else {
            None
        },
        c.is_some() ==> c.unwrap().fits(flat_width as int, flat_height as int),
{
    if flat_width > width {
        Some(Crop { x: (flat_width - width) / 2, y: (flat_height - height) / 2, width, height })
    } else {
        None
    }
}

} // verus!
