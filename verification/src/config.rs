//! Run configuration for one churn-measurement invocation.

use vstd::prelude::*;

verus! {

/// Configuration of one experiment run.
///
/// The stop fraction is kept as a rational number `stop_num / stop_den`
/// (monitoring stops once `churned * stop_den >= stop_num * working_set_size`),
/// so that the engine never touches floating point.
///
/// Two policies that earlier experiment variants disagreed on are explicit
/// switches here:
/// - `recovery_enabled`: whether a record whose probe count rises above zero
///   again leaves the churned state. Whatever the switch, a churn event row is
///   emitted only for the first transition to churned (first churn wins).
/// - `shuffle_enabled`: whether the caller should reshuffle the working set
///   between sweeps to avoid position bias.
#[derive(Clone, Copy, Debug, PartialEq, Eq, Structural)]
pub struct Config {
    /// Numerator of the stop fraction.
    pub stop_num: u64,
    /// Denominator of the stop fraction; must be positive.
    pub stop_den: u64,
    /// Hard ceiling on the monitoring phase, in seconds.
    pub max_duration_s: u64,
    /// Whether a positive probe count clears the churned marker again.
    pub recovery_enabled: bool,
    /// Whether the working set should be reshuffled between sweeps.
    pub shuffle_enabled: bool,
    /// Number of records requested for the publish phase.
    pub num_records: usize,
    /// Time-to-live handed to the publish call, in seconds.
    pub ttl_s: u32,
    /// Delay between two probes inside one sweep, in milliseconds.
    pub sleep_duration_ms: u64,
    /// Pause between two sweeps, in seconds.
    pub sweep_pause_s: u64,
    /// Number of parallel worker partitions.
    pub threads: usize,
}

impl Config {
    /// Bounds under which the engine's stop-fraction arithmetic cannot
    /// overflow a `u64`.
    pub open spec fn valid(self) -> bool {
        &&& 0 < self.stop_den <= 0xFFFF_FFFFu64
        &&& self.stop_num <= 0xFFFF_FFFFu64
    }

    /// Checks the bounds that `valid` states.
    pub fn is_valid(&self) -> (r: bool)
        ensures
            r == self.valid(),
    {
        0 < self.stop_den && self.stop_den <= 0xFFFF_FFFF && self.stop_num <= 0xFFFF_FFFF
    }
}

} // verus!
