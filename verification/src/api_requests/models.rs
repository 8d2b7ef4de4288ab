//! The records that the remote service describes.

use vstd::prelude::*;

pub mod line_status;
pub mod prediction;
pub mod prediction_timing;
pub mod status;

verus! {

/// Most bytes in a short text field.
pub const TFL_API_FIELD_SHORT_STR_SIZE: usize = 32;

/// Most bytes in an ordinary text field.
pub const TFL_API_FIELD_STR_SIZE: usize = 64;

/// Most bytes in a long text field.
pub const TFL_API_FIELD_LONG_STR_SIZE: usize = 128;

} // verus!
