//! Bounded-memory pipeline that turns arrival and disruption records of a
//! transport line into text regions for a small display.

use vstd::prelude::*;

pub mod api_requests;
pub mod channels;
pub mod display_task;
pub mod string_utilities;
pub mod text;

verus! {

/// Number of predictions that the channel to the display holds.
pub const TFL_API_PREDICTION_CHANNEL_SIZE: usize = 3;

/// Number of status reports that the channel to the display holds.
pub const TFL_API_DISRUPTION_CHANNEL_SIZE: usize = 1;

} // verus!
