//! What the image service of the mission reports as its latest holdings.

use vstd::prelude::*;

verus! {

/// The latest holdings of the image service.
#[derive(Debug, Clone)]
pub struct LatestData {
    pub latest: String,
    pub latest_sol: u16,
    pub latest_sols: Vec<u16>,
    pub new_count: u16,
    pub sol_count: u16,
    pub total: u32,
}

/// The answer of the image service to a request for its latest holdings.
#[derive(Debug, Clone)]
pub struct Latest {
    pub success: bool,
    pub latest_data: LatestData,
}

} // verus!
