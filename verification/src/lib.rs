//! Host telemetry snapshots and a thin inference-proxy core.
//!
//! The library gathers CPU, memory, disk and network readings from the host,
//! formats them into a single point-in-time snapshot, and frames the
//! request/response bodies exchanged with a local language-model inference
//! endpoint.

pub mod host;
pub mod inference;
pub mod numfmt;
pub mod snapshot;
