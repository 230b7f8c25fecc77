//! The InSight mission.

pub mod latest;
