//! Archiver core for live DASH media streams.
//!
//! A live stream publishes numbered segments through a periodically refreshed
//! manifest.  The modules here hold the verified logic of an archiver for such
//! streams: manifest parsing into typed records, discovery of newly published
//! segment indices, an order-preserving drain over a bounded set of concurrent
//! downloads, deterministic artifact naming with atomic materialization,
//! incremental playlist emission, and shared progress counters.
//!
//! Network transport, file writes and process management are collaborators:
//! they live outside this crate and exchange plain values with it.

pub mod dash;
pub mod ffmpeg;
pub mod hls;
pub mod numstr;
pub mod worker;
pub mod player_response;
pub mod strops;
pub mod reorder;
pub mod stats;
pub mod util;
