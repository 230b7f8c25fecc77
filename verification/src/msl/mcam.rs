//! The mast cameras.

use vstd::prelude::*;
use crate::enums::Instrument;
use crate::image::Crop;

verus! {

/// Which of the two mast cameras took an image, from the letter that marks
/// the side in its file name.
pub fn instrument_for_tag(tag: char) -> (instrument: Instrument)
    ensures
        instrument == if tag == 'R' {
            Instrument::MslMastcamRight
        } else {
            Instrument::MslMastcamLeft
        },
{
    if tag == 'R' {
        Instrument::MslMastcamRight
    } else {
        Instrument::MslMastcamLeft
    }
}

/// The frame to which a raw image of the given extent is cut before it is
/// flat-fielded: images 1536 pixels wide lose their dark columns, the others
/// are left whole.
pub fn raw_crop(width: usize, height: usize) -> (c: Option<Crop>)
    ensures
        c == if width == 1536 {
            Some(Crop { x: 161, y: 0, width: 1328, height })
        } else {
            None
        },
        c.is_some() ==> c.unwrap().fits(width as int, height as int),
{
    if width == 1536 {
        Some(Crop { x: 161, y: 0, width: 1328, height })
    } else {
        None
    }
}

/// Where on the sensor of `instrument` a subframe of the given extent
/// lies: the frame to which the flat field and the inpaint mask are cut.
/// `None` for an extent that is no known subframe, and for any other
/// camera.
pub open spec fn subframe_spec(instrument: Instrument, width: int, height: int) -> Option<Crop> {
    match instrument {
        Instrument::MslMastcamRight => if width == 1328 && height == 1184 {
            Some(Crop { x: 160, y: 16, width: 1328, height: 1184 })
        } else if width == 848 && height == 848 {
            Some(Crop { x: 400, y: 192, width: 848, height: 848 })
        } else if width == 1344 && height == 1200 {
            Some(Crop { x: 160, y: 0, width: 1344, height: 1200 })
        } else {
            None
        },
        Instrument::MslMastcamLeft => if width == 1328 && height == 1184 {
            Some(Crop { x: 160, y: 16, width: 1328, height: 1184 })
        } else if width == 1152 && height == 432 {
            Some(Crop { x: 305, y: 385, width: 1152, height: 432 })
        } else if width == 1600 && height == 1200 {
            Some(Crop { x: 33, y: 0, width: 1600, height: 1200 })
        } else if width == 1456 && height == 640 {
            Some(Crop { x: 96, y: 280, width: 1456, height: 640 })
        } else {
            None
        },
        _ => None,
    }
}

/// Where on the sensor of `instrument` a subframe of the given extent lies.
pub fn subframe(instrument: Instrument, width: usize, height: usize) -> (c: Option<Crop>)
    ensures
        c == subframe_spec(instrument, width as int, height as int),
        c.is_some() ==> c.unwrap().width == width && c.unwrap().height == height,
{
    match instrument {
        Instrument::MslMastcamRight => {
            if width == 1328 && height == 1184 {
                Some(Crop { x: 160, y: 16, width: 1328, height: 1184 })
            } else if width == 848 && height == 848 {
                Some(Crop { x: 400, y: 192, width: 848, height: 848 })
            } else if width == 1344 && height == 1200 {
                Some(Crop { x: 160, y: 0, width: 1344, height: 1200 })
            } else {
                None
            }
        },
        Instrument::MslMastcamLeft => {
            if width == 1328 && height == 1184 {
                Some(Crop { x: 160, y: 16, width: 1328, height: 1184 })
            } else if width == 1152 && height == 432 {
                Some(Crop { x: 305, y: 385, width: 1152, height: 432 })
            } else if width == 1600 && height == 1200 {
                Some(Crop { x: 33, y: 0, width: 1600, height: 1200 })
            } else if width == 1456 && height == 640 {
                Some(Crop { x: 96, y: 280, width: 1456, height: 640 })
            } else {
                None
            }
        },
        _ => None,
    }
}

/// The frame that is kept of a calibrated image of the given extent: all
/// but a border three pixels wide.
pub fn final_crop(width: usize, height: usize) -> (c: Crop)
    requires
        width >= 6,
        height >= 6,
    ensures
        c == (Crop { x: 3, y: 3, width: (width - 6) as usize, height: (height - 6) as usize }),
        c.fits(width as int, height as int),
{
    Crop { x: 3, y: 3, width: width - 6, height: height - 6 }
}

} // verus!
