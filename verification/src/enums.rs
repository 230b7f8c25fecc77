//! The cameras whose images are handled.

use vstd::prelude::*;

verus! {

/// A camera of one of the missions.
#[derive(Debug, Clone, Copy, PartialEq, Eq, Structural)]
pub enum Instrument {
    MslMAHLI,
    MslMastcamLeft,
    MslMastcamRight,
    MslMARDI,
    M20MastcamZLeft,
    M20HeliRte,
}

} // verus!
