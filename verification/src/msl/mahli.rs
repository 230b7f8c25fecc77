//! The hand lens imager.

use vstd::prelude::*;
use crate::enums::Instrument;
use crate::image::Crop;

verus! {

/// Calibration of the images of the hand lens imager.
#[derive(Debug, Clone, Copy)]
pub struct MslMahli {}

impl MslMahli {
    /// Whether images of `instrument` are calibrated here.
    pub fn accepts_instrument(&self, instrument: Instrument) -> (accepted: bool)
        ensures
            accepted == (instrument == Instrument::MslMAHLI),
    {
        match instrument {
            Instrument::MslMAHLI => true,
            _ => false,
        }
    }

    /// The frame to which a raw image of the given extent is cut before
    /// anything else is done: full frames lose their dark border, images of
    /// any other extent are left whole.
    pub fn raw_crop(&self, width: usize, height: usize) -> (c: Option<Crop>)
        ensures
            c == if width == 1632 && height == 1200 {
                Some(Crop { x: 32, y: 16, width: 1584, height: 1184 })
            } else if width == 1648 && height == 1200 {
                Some(Crop { x: 48, y: 16, width: 1584, height: 1184 })
            } else {
                None
            },
            c.is_some() ==> c.unwrap().fits(width as int, height as int),
    {
        if width == 1632 && height == 1200 {
            Some(Crop { x: 32, y: 16, width: 1584, height: 1184 })
        } else if width == 1648 && height == 1200 {
            Some(Crop { x: 48, y: 16, width: 1584, height: 1184 })
        } else {
            None
        }
    }

    /// The frame to which a flat field of the given extent is cut before it
    /// is fitted to the image.
    pub fn flat_frame(&self, width: usize, height: usize) -> (c: Option<Crop>)
        ensures
            c == if width == 1632 && height == 1200 {
                Some(Crop { x: 32, y: 16, width: 1584, height: 1184 })
            } else {
                None
            },
            c.is_some() ==> c.unwrap().fits(width as int, height as int),
    {
        if width == 1632 && height == 1200 {
            Some(Crop { x: 32, y: 16, width: 1584, height: 1184 })
        } else {
            None
        }
    }

    /// The frame that is kept of a calibrated image.
    pub fn final_crop(&self) -> (c: Crop)
        ensures
            c == (Crop { x: 2, y: 3, width: 1580, height: 1180 }),
    {
        Crop { x: 2, y: 3, width: 1580, height: 1180 }
    }
}

} // verus!
