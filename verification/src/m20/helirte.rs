//! The colour camera of the helicopter.

use vstd::prelude::*;
use crate::enums::Instrument;

verus! {

/// Calibration of the images of the colour camera of the helicopter.
#[derive(Debug, Clone, Copy)]
pub struct M20HeliRte {}

impl M20HeliRte {
    /// Whether images of `instrument` are calibrated here.
    pub fn accepts_instrument(&self, instrument: Instrument) -> (accepted: bool)
        ensures
            accepted == (instrument == Instrument::M20HeliRte),
    {
        match instrument {
            Instrument::M20HeliRte => true,
            _ => false,
        }
    }
}

} // verus!
