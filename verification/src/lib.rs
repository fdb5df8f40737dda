//! Verified core of a churn-measurement experiment for a Kademlia-style DHT.
//!
//! The library publishes nothing and probes nothing itself: the surrounding
//! program drives the network through an external DHT client and hands every
//! observation (a per-record count of storing nodes) to the engine here, which
//! owns the working set, the per-record state machine, the three output row
//! streams, and the stopping conditions.

pub mod config;
pub mod engine;
pub mod keyfile;
pub mod laws;
pub mod model;
pub mod publisher;
pub mod record;
pub mod rows;
pub mod sampling;
