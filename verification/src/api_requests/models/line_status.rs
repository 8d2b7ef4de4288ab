//! The state of service on a line.

use vstd::prelude::*;

use crate::api_requests::models::{TFL_API_FIELD_LONG_STR_SIZE, TFL_API_FIELD_SHORT_STR_SIZE};
use crate::text::Text;

verus! {

/// One status of a line: its kind, and how severe the disruption is, in
/// words.
pub struct LineStatus {
    pub _type: Text,
    pub status_severity_description: Text,
}

impl LineStatus {
    /// Every field is within the length that the record allows for it.
    pub open spec fn well_formed(&self) -> bool {
        &&& self._type@.len() <= TFL_API_FIELD_LONG_STR_SIZE
        &&& self.status_severity_description@.len() <= TFL_API_FIELD_SHORT_STR_SIZE
    }

    /// Whether every field is within its length.
    pub fn within_capacity(&self) -> (ok: bool)
        ensures
            ok == self.well_formed(),
    {
        self._type.len() <= TFL_API_FIELD_LONG_STR_SIZE && self.status_severity_description.len()
            <= TFL_API_FIELD_SHORT_STR_SIZE
    }
}

} // verus!
