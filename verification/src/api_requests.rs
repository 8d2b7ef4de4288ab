//! Acquisition of records: what is done with a response once it is decoded,
//! and how its records are handed on.

pub mod models;
pub mod request_prediction;
pub mod request_status;
pub mod request_task;
