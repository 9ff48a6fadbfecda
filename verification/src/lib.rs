//! Telemetry capture and delivery for HTTP exchanges.
//!
//! The crate turns each completed HTTP exchange into an immutable structured
//! record, normalizes concrete resource identifiers in request paths into
//! templated resource paths, batches the serialized records in a bounded
//! in-memory buffer with dual flush triggers, and decides how a delivery
//! attempt against the remote ingestion endpoint is retried.

pub mod batch;
pub mod config;
pub mod delivery;
pub mod json;
pub mod middleware;
pub mod path;
pub mod record;
