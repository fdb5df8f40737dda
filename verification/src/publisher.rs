//! Bookkeeping of the publish phase.
//!
//! The surrounding program signs and publishes each record through the
//! external DHT client; this module owns the batch's accounting — requests
//! that fail to sign or publish are skipped, never fatal — together with the
//! sharding of a requested count across parallel workers, the partitioning of
//! a working set, and the merging of the workers' results.

use vstd::prelude::*;

use crate::model::distinct_ids;
use crate::record::{PublishedKey, RecordModel};

verus! {

/// The concatenation of a sequence of record batches, in order.
pub open spec fn flat_records(bs: Seq<Seq<RecordModel>>) -> Seq<RecordModel>
    decreases bs.len(),
{
    if bs.len() == 0 {
        Seq::<RecordModel>::empty()
    } else {
        flat_records(bs.drop_last()) + bs.last()
    }
}

pub proof fn lemma_flat_records_push(bs: Seq<Seq<RecordModel>>, c: Seq<RecordModel>)
    ensures
        flat_records(bs.push(c)) == flat_records(bs) + c,
{
    assert(bs.push(c).drop_last() =~= bs);
}

/// The sum of a sequence of per-worker record counts.
pub open spec fn sum_counts(s: Seq<usize>) -> int
    decreases s.len(),
{
    if s.len() == 0 {
        0
    } else {
        sum_counts(s.drop_last()) + s.last()
    }
}

/// Collects the handles of one publish batch: each attempt either yields a
/// published record or is counted as a failure and skipped.
pub struct Publisher {
    /// Number of records the batch was asked for.
    pub requested: usize,
    /// Number of attempts made so far.
    pub attempted: usize,
    /// Number of attempts that failed to sign or publish.
    pub failed: usize,
    /// Handles of the records whose publish succeeded, in publish order.
    pub records: Vec<PublishedKey>,
}

impl Publisher {
    /// Every attempt is accounted for exactly once: it either produced a
    /// handle or was counted as a failure. In particular the batch never
    /// produces more records than were requested.
    pub open spec fn wf(&self) -> bool {
        self.records@.len() + self.failed == self.attempted <= self.requested
    }

    /// The batch's handles, mathematically.
    pub open spec fn models(&self) -> Seq<RecordModel> {
        self.records@.map_values(|x: PublishedKey| x@)
    }

    /// Starts a batch that will attempt `requested` records.
    pub fn new(requested: usize) -> (r: Publisher)
        ensures
            r.wf(),
            r.requested == requested,
            r.attempted == 0,
            r.failed == 0,
            r.models() == Seq::<RecordModel>::empty(),
    {
        let p = Publisher { requested, attempted: 0, failed: 0, records: Vec::new() };
        proof {
            assert(p.models() =~= Seq::<RecordModel>::empty());
        }
        p
    }

    /// Whether every requested record has been attempted.
    pub fn is_done(&self) -> (r: bool)
        ensures
            r == (self.attempted == self.requested),
    {
        self.attempted == self.requested
    }

    /// Accounts for one successful publish: a fresh handle joins the batch.
    pub fn record_success(&mut self, record_id: Vec<u8>, published_at: u64)
        requires
            old(self).wf(),
            old(self).attempted < old(self).requested,
        ensures
            final(self).wf(),
            final(self).requested == old(self).requested,
            final(self).attempted == old(self).attempted + 1,
            final(self).failed == old(self).failed,
            final(self).models() == old(self).models().push(
                RecordModel::fresh(record_id@, published_at),
            ),
    {
        self.records.push(PublishedKey::new(record_id, published_at));
        self.attempted = self.attempted + 1;
        proof {
            assert(self.models() =~= old(self).models().push(
                RecordModel::fresh(record_id@, published_at),
            ));
        }
    }

    /// Accounts for one attempt that failed to sign or publish: the record
    /// is dropped, the batch goes on.
    pub fn record_failure(&mut self)
        requires
            old(self).wf(),
            old(self).attempted < old(self).requested,
        ensures
            final(self).wf(),
            final(self).requested == old(self).requested,
            final(self).attempted == old(self).attempted + 1,
            final(self).failed == old(self).failed + 1,
            final(self).models() == old(self).models(),
    {
        self.attempted = self.attempted + 1;
        self.failed = self.failed + 1;
    }

    /// Hands the batch's handles over; never more than were requested.
    pub fn into_records(self) -> (r: Vec<PublishedKey>)
        requires
            self.wf(),
        ensures
            r@.map_values(|x: PublishedKey| x@) == self.models(),
            r@.len() <= self.requested,
    {
        self.records
    }
}

/// Splits a requested record count across `threads` workers: every worker
/// owns a disjoint sub-range, and together they cover the whole count.
pub fn shard_counts(num_records: usize, threads: usize) -> (r: Vec<usize>)
    requires
        1 <= threads,
    ensures
        r@.len() == threads,
        sum_counts(r@) == num_records,
{
    let base = num_records / threads;
    let rem = num_records % threads;
    let mut r: Vec<usize> = Vec::new();
    let mut i: usize = 0;
    proof {
        assert(num_records == threads * base + rem && rem < threads) by (nonlinear_arith)
            requires
                threads >= 1,
                base == num_records / threads,
                rem == num_records % threads,
        ;
    }
    while i < threads
        invariant
            0 <= i <= threads,
            rem < threads,
            num_records == threads * base + rem,
            r@.len() == i,
            sum_counts(r@) == i * base + (if i <= rem {
                i as int
            } else {
                rem as int
            }),
            base <= num_records,
            i * base + rem <= num_records,
        decreases threads - i,
    {
        proof {
            assert((i + 1) * base == i * base + base) by (nonlinear_arith);
            assert(i * base + base + rem <= threads * base + rem) by (nonlinear_arith)
                requires
                    i + 1 <= threads,
                    base >= 0,
            ;
        }
        let ghost prev = r@;
        if i < rem {
            r.push(base + 1);
        } else {
            r.push(base);
        }
        proof {
            assert(r@.drop_last() =~= prev);
        }
        i = i + 1;
    }
    proof {
        assert(i * base + (if i <= rem {
            i as int
        } else {
            rem as int
        }) == num_records) by (nonlinear_arith)
            requires
                i == threads,
                rem < threads,
                num_records == threads * base + rem,
        ;
    }
    r
}

/// Checks that the records' identifiers are pairwise distinct, as the churn
/// engine's constructor requires of a working set.
pub fn ids_distinct(records: &Vec<PublishedKey>) -> (r: bool)
    ensures
        r == distinct_ids(records@.map_values(|x: PublishedKey| x@)),
{
    let ghost m = records@.map_values(|x: PublishedKey| x@);
    let n = records.len();
    let mut i: usize = 0;
    while i < n
        invariant
            m == records@.map_values(|x: PublishedKey| x@),
            n == records@.len(),
            0 <= i <= n,
            forall|p: int, q: int|
                #![trigger m[p], m[q]]
                0 <= p < q < n && p < i ==> m[p].id != m[q].id,
        decreases n - i,
    {
        let mut j: usize = i + 1;
        while j < n
            invariant
                m == records@.map_values(|x: PublishedKey| x@),
                n == records@.len(),
                0 <= i < n,
                i < j <= n,
                forall|q: int| i < q < j ==> m[i as int].id != (#[trigger] m[q]).id,
            decreases n - j,
        {
            if vecs_equal(&records[i].record_id, &records[j].record_id) {
                proof {
                    assert(m[i as int].id == m[j as int].id);
                }
                return false;
            }
            j = j + 1;
        }
        i = i + 1;
    }
    true
}

/// Compares two identifiers byte for byte.
fn vecs_equal(a: &Vec<u8>, b: &Vec<u8>) -> (r: bool)
    ensures
        r == (a@ == b@),
{
    if a.len() != b.len() {
        return false;
    }
    let mut i: usize = 0;
    while i < a.len()
        invariant
            a@.len() == b@.len(),
            0 <= i <= a@.len(),
            forall|k: int| 0 <= k < i ==> a@[k] == b@[k],
        decreases a@.len() - i,
    {
        if a[i] != b[i] {
            return false;
        }
        i = i + 1;
    }
    proof {
        assert(a@ =~= b@);
    }
    true
}

/// Partitions a working set into chunks of `len / threads` records (at least
/// one), in order: concatenating the chunks gives back the working set.
pub fn partition_records(records: Vec<PublishedKey>, threads: usize) -> (r: Vec<
    Vec<PublishedKey>,
>)
    requires
        1 <= threads,
    ensures
        flat_records(
            r@.map_values(|c: Vec<PublishedKey>| c@.map_values(|x: PublishedKey| x@)),
        ) == records@.map_values(|x: PublishedKey| x@),
        forall|k: int| 0 <= k < r@.len() ==> 1 <= (#[trigger] r@[k])@.len(),
{
    let ghost orig = records@.map_values(|x: PublishedKey| x@);
    let total = records.len();
    let chunk_size = if total / threads == 0 {
        1
    } else {
        total / threads
    };
    let mut rest = records;
    let mut out: Vec<Vec<PublishedKey>> = Vec::new();
    let mut chunk: Vec<PublishedKey> = Vec::new();
    proof {
        assert(flat_records(
            out@.map_values(|c: Vec<PublishedKey>| c@.map_values(|x: PublishedKey| x@)),
        ) + chunk@.map_values(|x: PublishedKey| x@) + rest@.map_values(|x: PublishedKey| x@)
            =~= orig);
    }
    while rest.len() > 0
        invariant
            flat_records(
                out@.map_values(|c: Vec<PublishedKey>| c@.map_values(|x: PublishedKey| x@)),
            ) + chunk@.map_values(|x: PublishedKey| x@) + rest@.map_values(
                |x: PublishedKey| x@,
            ) == orig,
            forall|k: int| 0 <= k < out@.len() ==> 1 <= (#[trigger] out@[k])@.len(),
            chunk@.len() < chunk_size,
            1 <= chunk_size,
        decreases rest@.len(),
    {
        let ghost pre_rest = rest@.map_values(|x: PublishedKey| x@);
        let ghost pre_chunk = chunk@.map_values(|x: PublishedKey| x@);
        let ghost pre_flat = flat_records(
            out@.map_values(|c: Vec<PublishedKey>| c@.map_values(|x: PublishedKey| x@)),
        );
        let rec = rest.remove(0);
        chunk.push(rec);
        proof {
            assert(rest@.map_values(|x: PublishedKey| x@) =~= pre_rest.drop_first());
            assert(chunk@.map_values(|x: PublishedKey| x@) =~= pre_chunk.push(pre_rest[0]));
            assert(pre_flat + pre_chunk.push(pre_rest[0]) + pre_rest.drop_first() =~= pre_flat
                + pre_chunk + pre_rest);
        }
        if chunk.len() == chunk_size {
            let ghost pre_out = out@.map_values(
                |c: Vec<PublishedKey>| c@.map_values(|x: PublishedKey| x@),
            );
            let ghost full_chunk = chunk@.map_values(|x: PublishedKey| x@);
            out.push(chunk);
            chunk = Vec::new();
            proof {
                assert(out@.map_values(
                    |c: Vec<PublishedKey>| c@.map_values(|x: PublishedKey| x@),
                ) =~= pre_out.push(full_chunk));
                lemma_flat_records_push(pre_out, full_chunk);
                assert(chunk@.map_values(|x: PublishedKey| x@) =~= Seq::<RecordModel>::empty());
                assert(flat_records(pre_out.push(full_chunk)) + Seq::<RecordModel>::empty()
                    + rest@.map_values(|x: PublishedKey| x@) =~= flat_records(pre_out)
                    + full_chunk + rest@.map_values(|x: PublishedKey| x@));
            }
        }
    }
    if chunk.len() > 0 {
        let ghost pre_out = out@.map_values(
            |c: Vec<PublishedKey>| c@.map_values(|x: PublishedKey| x@),
        );
        let ghost full_chunk = chunk@.map_values(|x: PublishedKey| x@);
        out.push(chunk);
        proof {
            assert(out@.map_values(|c: Vec<PublishedKey>| c@.map_values(|x: PublishedKey| x@))
                =~= pre_out.push(full_chunk));
            lemma_flat_records_push(pre_out, full_chunk);
            assert(flat_records(pre_out.push(full_chunk)) =~= orig);
        }
    } else {
        proof {
            assert(flat_records(
                out@.map_values(|c: Vec<PublishedKey>| c@.map_values(|x: PublishedKey| x@)),
            ) =~= orig);
        }
    }
    out
}

/// Merges the batches that parallel publish workers produced, in worker
/// order, preserving each batch's publish order.
pub fn merge_batches(batches: &Vec<Vec<PublishedKey>>) -> (r: Vec<PublishedKey>)
    ensures
        r@.map_values(|x: PublishedKey| x@) == flat_records(
            batches@.map_values(|c: Vec<PublishedKey>| c@.map_values(|x: PublishedKey| x@)),
        ),
{
    let ghost bm = batches@.map_values(|c: Vec<PublishedKey>| c@.map_values(|x: PublishedKey| x@));
    let mut out: Vec<PublishedKey> = Vec::new();
    let mut i: usize = 0;
    proof {
        assert(out@.map_values(|x: PublishedKey| x@) =~= flat_records(bm.take(0)));
    }
    while i < batches.len()
        invariant
            bm == batches@.map_values(|c: Vec<PublishedKey>| c@.map_values(|x: PublishedKey| x@)),
            0 <= i <= batches@.len(),
            out@.map_values(|x: PublishedKey| x@) == flat_records(bm.take(i as int)),
        decreases batches@.len() - i,
    {
        let ghost pre = out@.map_values(|x: PublishedKey| x@);
        let batch = &batches[i];
        let mut j: usize = 0;
        while j < batch.len()
            invariant
                bm == batches@.map_values(
                    |c: Vec<PublishedKey>| c@.map_values(|x: PublishedKey| x@),
                ),
                0 <= i < batches@.len(),
                0 <= j <= batch@.len(),
                batch == batches@[i as int],
                out@.map_values(|x: PublishedKey| x@) == pre + bm[i as int].take(j as int),
            decreases batch@.len() - j,
        {
            let ghost mid = out@.map_values(|x: PublishedKey| x@);
            out.push(batch[j].duplicate());
            proof {
                assert(out@.map_values(|x: PublishedKey| x@) =~= mid.push(bm[i as int][j as int]));
                assert(mid.push(bm[i as int][j as int]) =~= pre + bm[i as int].take(j as int + 1));
            }
            j = j + 1;
        }
        proof {
            assert(bm.take(i as int + 1).drop_last() =~= bm.take(i as int));
            assert(bm.take(i as int + 1).last() == bm[i as int]);
            assert(bm[i as int].take(batch@.len() as int) =~= bm[i as int]);
            assert(out@.map_values(|x: PublishedKey| x@) =~= flat_records(bm.take(i as int + 1)));
        }
        i = i + 1;
    }
    proof {
        assert(bm.take(batches@.len() as int) =~= bm);
    }
    out
}

} // verus!
