//! Randomness at the library's boundary.
//!
//! Random draws come from outside; everything the logic does with a draw —
//! reducing it to a record index, reordering the working set — is verified
//! for every possible value of the draw.

use vstd::prelude::*;

verus! {

/// Relies on rand::random, the thread-local generator. Nothing is promised
/// of a random draw.
#[verifier::external_body]
pub(crate) fn draw_u64() -> u64 {
    rand::random()
}

/// Relies on getrandom::u64, the system's preferred randomness source.
/// Nothing is promised of a draw; the call fails only when that source does.
#[verifier::external_body]
fn os_draw_u64() -> (r: Option<u64>) {
    getrandom::u64().ok()
}

/// The record index a random draw selects: the draw reduced modulo the
/// working set's size.
pub fn sample_index(seed: u64, len: usize) -> (r: usize)
    requires
        1 <= len,
    ensures
        r == seed as int % len as int,
        r < len,
{
    (seed % (len as u64)) as usize
}

/// Picks a record index uniformly for one spot-check resolve, or nothing
/// when the system's randomness source fails.
pub fn random_record_index(len: usize) -> (r: Option<usize>)
    requires
        1 <= len,
    ensures
        r matches Some(i) ==> i < len,
{
    match os_draw_u64() {
        None => None,
        Some(seed) => Some(sample_index(seed, len)),
    }
}

} // verus!
