//! When a prediction was made and passed on.

use vstd::prelude::*;

use crate::api_requests::models::{TFL_API_FIELD_LONG_STR_SIZE, TFL_API_FIELD_STR_SIZE};
use crate::text::Text;

verus! {

/// The timestamps that the service attaches to a prediction.
pub struct PredictionTiming {
    pub _type: Text,
    pub countdown_server_adjustment: Text,
    pub source: Text,
    pub insert: Text,
    pub read: Text,
    pub sent: Text,
    pub received: Text,
}

impl PredictionTiming {
    /// Every field is within the length that the record allows for it.
    pub open spec fn well_formed(&self) -> bool {
        &&& self._type@.len() <= TFL_API_FIELD_LONG_STR_SIZE
        &&& self.countdown_server_adjustment@.len() <= TFL_API_FIELD_STR_SIZE
        &&& self.source@.len() <= TFL_API_FIELD_STR_SIZE
        &&& self.insert@.len() <= TFL_API_FIELD_STR_SIZE
        &&& self.read@.len() <= TFL_API_FIELD_STR_SIZE
        &&& self.sent@.len() <= TFL_API_FIELD_STR_SIZE
        &&& self.received@.len() <= TFL_API_FIELD_STR_SIZE
    }

    /// Whether every field is within its length.
    pub fn within_capacity(&self) -> (ok: bool)
        ensures
            ok == self.well_formed(),
    {
        self._type.len() <= TFL_API_FIELD_LONG_STR_SIZE
            && self.countdown_server_adjustment.len() <= TFL_API_FIELD_STR_SIZE
            && self.source.len() <= TFL_API_FIELD_STR_SIZE
            && self.insert.len() <= TFL_API_FIELD_STR_SIZE
            && self.read.len() <= TFL_API_FIELD_STR_SIZE
            && self.sent.len() <= TFL_API_FIELD_STR_SIZE
            && self.received.len() <= TFL_API_FIELD_STR_SIZE
    }
}

} // verus!
