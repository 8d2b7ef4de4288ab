//! The status of a line as the service reports it.

use vstd::prelude::*;

use crate::api_requests::models::line_status::LineStatus;
use crate::api_requests::models::TFL_API_FIELD_LONG_STR_SIZE;
use crate::text::Text;

verus! {

/// Most statuses that a response on one line may hold.
pub const ARRAY_MAX_SIZE_STATUS_MODEL: usize = 1;

/// The status report of a line, with at most one status of interest.
pub struct Status {
    pub _type: Text,
    pub line_statuses: Option<LineStatus>,
}

impl Status {
    /// Every field is within the length that the record allows for it.
    pub open spec fn well_formed(&self) -> bool {
        &&& self._type@.len() <= TFL_API_FIELD_LONG_STR_SIZE
        &&& match self.line_statuses {
            Some(line_status) => line_status.well_formed(),
            None => true,
        }
    }

    /// Whether every field is within its length.
    pub fn within_capacity(&self) -> (ok: bool)
        ensures
            ok == self.well_formed(),
    {
        self._type.len() <= TFL_API_FIELD_LONG_STR_SIZE && match &self.line_statuses {
            Some(line_status) => line_status.within_capacity(),
            None => true,
        }
    }
}

} // verus!
