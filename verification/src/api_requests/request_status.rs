//! What becomes of a decoded status report before it is handed on.

use vstd::prelude::*;

use crate::api_requests::models::status::Status;

verus! {

/// The report that goes on: the decoded one, if it holds a status.
pub open spec fn usable_status(decoded: Option<Status>) -> Option<Status> {
    match decoded {
        Some(status) => if status.line_statuses.is_some() {
            decoded
        } else {
            None
        },
        None => None,
    }
}

/// Takes the status report of a decoded response.
///
/// A response holds at most one report. It goes on as it is; a response
/// without a report, or with a report that holds no status, counts as one
/// that could not be decoded.
pub fn request_status(decoded: Option<Status>) -> (r: Option<Status>)
    ensures
        r == usable_status(decoded),
{
    match decoded {
        Some(status) => {
            if status.line_statuses.is_some() {
                Some(status)
            } else {
                None
            }
        },
        None => None,
    }
}

} // verus!
