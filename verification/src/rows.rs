//! The three output row streams that the engine accumulates.
//!
//! The engine appends rows to in-memory streams; the surrounding program
//! serializes them to durable storage. Modelling the streams here is what
//! lets the row-level guarantees (one churn row per record, strictly
//! decreasing global samples, no redundant decay rows) be proved.

use vstd::prelude::*;

verus! {

/// Mathematical image of one churn event row.
#[verifier::ext_equal]
pub ghost struct ChurnRowModel {
    pub id: Seq<u8>,
    /// Elapsed seconds between publish and first churn; `0` means the record
    /// was never observed to churn.
    pub time_s: u64,
}

/// One churn event row: `pubkey,time_s`.
pub struct ChurnRow {
    pub record_id: Vec<u8>,
    pub time_s: u64,
}

impl View for ChurnRow {
    type V = ChurnRowModel;

    open spec fn view(&self) -> ChurnRowModel {
        ChurnRowModel { id: self.record_id@, time_s: self.time_s }
    }
}

/// Mathematical image of one per-record decay row.
#[verifier::ext_equal]
pub ghost struct DecayRowModel {
    /// Seconds since the monitoring phase started.
    pub timestamp_s: u64,
    pub id: Seq<u8>,
    pub nodes_count: u8,
}

/// One per-record node-count row: `timestamp_s,pubkey,nodes_count`,
/// appended only when the count changed.
pub struct DecayRow {
    pub timestamp_s: u64,
    pub record_id: Vec<u8>,
    pub nodes_count: u8,
}

impl View for DecayRow {
    type V = DecayRowModel;

    open spec fn view(&self) -> DecayRowModel {
        DecayRowModel {
            timestamp_s: self.timestamp_s,
            id: self.record_id@,
            nodes_count: self.nodes_count,
        }
    }
}

/// One global decay sample: `node_count,timestamp`, appended only when the
/// aggregate count across all records decreased below the previous sample.
#[derive(Clone, Copy, Debug, PartialEq, Eq, Structural)]
pub struct GlobalRow {
    pub node_count: u64,
    /// Seconds since the monitoring phase started.
    pub timestamp_s: u64,
}

/// Why the monitoring loop stopped.
#[derive(Clone, Copy, Debug, PartialEq, Eq, Structural)]
pub enum StopReason {
    /// Cancellation was requested from outside.
    Cancelled,
    /// The churned fraction reached the configured stop fraction.
    FractionReached,
    /// The configured maximum duration elapsed.
    MaxDurationReached,
}

} // verus!
