//! The ways in which a mosaic run fails.

use vstd::prelude::*;

verus! {

/// Why a mosaic could not be built.
#[derive(Debug, Clone, Copy, PartialEq, Eq, Structural)]
pub enum MosaicError {
    /// None of the inputs has a usable camera model, so the map has no
    /// geometry.
    MissingGeometry,
    /// An input image has no usable camera model.
    MissingCameraModel,
    /// The map would be zero pixels wide or high.
    DegenerateMapGeometry,
    /// The camera model gave no viewing ray for a pixel.
    ProjectionFailure,
    /// A listed input file does not exist.
    InputNotFound,
}

impl MosaicError {
    /// The status with which a run that failed in this way ends.
    pub open spec fn exit_status_spec(self) -> i32 {
        match self {
            MosaicError::MissingCameraModel => 2,
            MosaicError::ProjectionFailure => 101,
            MosaicError::MissingGeometry => 1,
            MosaicError::DegenerateMapGeometry => 1,
            MosaicError::InputNotFound => 1,
        }
    }

    /// The status with which a run that failed in this way ends.
    pub fn exit_status(&self) -> (status: i32)
        ensures
            status == self.exit_status_spec(),
            status != 0,
    {
        match self {
            MosaicError::MissingCameraModel => 2,
            MosaicError::ProjectionFailure => 101,
            MosaicError::MissingGeometry => 1,
            MosaicError::DegenerateMapGeometry => 1,
            MosaicError::InputNotFound => 1,
        }
    }
}

} // verus!
