//! Filtering of an encoder's progress telemetry.
//!
//! A datagram carries newline-separated `key=value` lines. The library keeps
//! the lines whose key is one of five progress fields, notes whether any line
//! carries the end marker, and decides what the ingestion loop does next.

pub mod lines;
pub mod scan;
pub mod decode;
pub mod frame;
pub mod payload;
pub mod ingest;
pub mod laws;
