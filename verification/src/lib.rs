//! Turns batches of timestamped meter readings into annotated CSV for bulk
//! loading into a time-series store, spreading each batch's timestamps over a
//! fixed fifteen-day window that starts twenty days before a reference time.

pub mod batcher;
pub mod instant;
pub mod output;
pub mod pipeline;
pub mod remap;
pub mod rfc3339;
pub mod row;
