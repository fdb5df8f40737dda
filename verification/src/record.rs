//! One published record's identity and lifecycle state.

use vstd::prelude::*;

verus! {

/// Mathematical image of one record handle.
#[verifier::ext_equal]
pub ghost struct RecordModel {
    /// The record's public identifier (a fixed-size byte key).
    pub id: Seq<u8>,
    /// Time of the successful publish, in seconds.
    pub published_at: u64,
    /// `Some(t)` while the record counts as churned, with `t` the time of the
    /// probe that churned it.
    pub churned_at: Option<u64>,
    /// Elapsed seconds between publish and the first churn, set at most once
    /// (first churn wins); the memory behind the record's single churn event.
    pub churn_time: Option<u64>,
    /// Last probe count seen for this record, used to suppress redundant
    /// decay rows.
    pub last_observed: Option<u8>,
}

impl RecordModel {
    /// A record that a successful publish at `published_at` creates.
    pub open spec fn fresh(id: Seq<u8>, published_at: u64) -> RecordModel {
        RecordModel {
            id,
            published_at,
            churned_at: None,
            churn_time: None,
            last_observed: None,
        }
    }
}

/// Copies a record identifier.
pub(crate) fn clone_id(v: &Vec<u8>) -> (r: Vec<u8>)
    ensures
        r@ == v@,
{
    let r = v.clone();
    proof {
        assert(r@ =~= v@);
    }
    r
}

/// Identity and lifecycle state for one published record.
///
/// A handle exists only for a record whose publish succeeded; it starts
/// available and is thereafter mutated only by the churn engine.
pub struct PublishedKey {
    /// The record's public identifier.
    pub record_id: Vec<u8>,
    /// Time of the successful publish, in seconds.
    pub published_at: u64,
    /// `Some(t)` while the record counts as churned.
    pub churned_at: Option<u64>,
    /// Elapsed seconds between publish and first churn, set at most once.
    pub churn_time: Option<u64>,
    /// Last probe count seen for this record.
    pub last_observed: Option<u8>,
}

impl View for PublishedKey {
    type V = RecordModel;

    open spec fn view(&self) -> RecordModel {
        RecordModel {
            id: self.record_id@,
            published_at: self.published_at,
            churned_at: self.churned_at,
            churn_time: self.churn_time,
            last_observed: self.last_observed,
        }
    }
}

impl PublishedKey {
    /// A fresh handle for a record published at `published_at`.
    pub fn new(record_id: Vec<u8>, published_at: u64) -> (r: PublishedKey)
        ensures
            r@ == RecordModel::fresh(record_id@, published_at),
    {
        PublishedKey {
            record_id,
            published_at,
            churned_at: None,
            churn_time: None,
            last_observed: None,
        }
    }

    /// The record's public identifier.
    pub fn public_key(&self) -> (r: &Vec<u8>)
        ensures
            r@ == self@.id,
    {
        &self.record_id
    }

    /// Whether the record currently counts as churned.
    pub fn is_churned(&self) -> (r: bool)
        ensures
            r == self@.churned_at.is_some(),
    {
        self.churned_at.is_some()
    }

    /// Marks the record churned as of `now`.
    pub fn mark_as_churned(&mut self, now: u64)
        ensures
            final(self)@ == (RecordModel { churned_at: Some(now), ..old(self)@ }),
    {
        self.churned_at = Some(now);
    }

    /// Clears the churned marker, making the record count as available again.
    pub fn mark_as_available(&mut self)
        ensures
            final(self)@ == (RecordModel { churned_at: None, ..old(self)@ }),
    {
        self.churned_at = None;
    }

    /// An independent copy of the handle.
    pub fn duplicate(&self) -> (r: PublishedKey)
        ensures
            r@ == self@,
    {
        PublishedKey {
            record_id: clone_id(&self.record_id),
            published_at: self.published_at,
            churned_at: self.churned_at,
            churn_time: self.churn_time,
            last_observed: self.last_observed,
        }
    }
}

} // verus!
