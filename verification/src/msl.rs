//! Cameras of the Mars Science Laboratory mission.

pub mod mahli;
pub mod mardi;
pub mod mcam;
