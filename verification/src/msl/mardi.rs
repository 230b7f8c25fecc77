//! The descent imager.

use vstd::prelude::*;
use crate::enums::Instrument;
use crate::image::Crop;

verus! {

/// Calibration of the images of the descent imager.
#[derive(Debug, Clone, Copy)]
pub struct MslMardi {}

impl MslMardi {
    /// Whether images of `instrument` are calibrated here.
    pub fn accepts_instrument(&self, instrument: Instrument) -> (accepted: bool)
        ensures
            accepted == (instrument == Instrument::MslMARDI),
    {
        match instrument {
            Instrument::MslMARDI => true,
            _ => false,
        }
    }

    /// The frame that is kept of a calibrated image.
    pub fn final_crop(&self) -> (c: Crop)
        ensures
            c == (Crop { x: 24, y: 6, width: 1599, height: 1188 }),
    {
        Crop { x: 24, y: 6, width: 1599, height: 1188 }
    }
}

} // verus!
