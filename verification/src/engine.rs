//! The churn-monitoring engine: working set, per-record state machine,
//! output row streams, and stopping conditions.
//!
//! The engine never touches the network. The surrounding program obtains each
//! probe count from the external DHT client (a timeout or transport error
//! counts as zero storing nodes, by design) and hands it to `record_probe`;
//! at each sweep boundary it asks `end_sweep` for the stop decision, and on
//! stop or cancellation runs `finalize`, the terminal flush.

use vstd::pervasive::VecAdditionalExecFns;
use vstd::prelude::*;

use crate::config::Config;
use crate::model::{
    cancel_step, count_churned, count_emitted, distinct_ids, end_sweep_step, finalize_step,
    global_count, initial_model, lemma_count_churned_at_least_one, lemma_count_churned_bounds,
    lemma_count_churned_remove, lemma_count_emitted_remove, lemma_end_sweep_wf, lemma_finalize_wf,
    lemma_global_count_bounds, lemma_initial_wf, lemma_probe_step_wf, probe_step, rows_with_id,
    stop_reason, sweep_from, sweep_steps, terminal_rows, wf, EngineModel,
};
use crate::sampling::{draw_u64, sample_index};
use crate::record::{clone_id, PublishedKey, RecordModel};
use crate::rows::{ChurnRow, ChurnRowModel, DecayRow, GlobalRow, StopReason};

verus! {

/// The run state of one monitoring invocation.
///
/// Mutated only through the methods below, each of which computes exactly the
/// corresponding step function of the model (`probe_step`, `end_sweep_step`,
/// `finalize_step`) and preserves the state's well-formedness.
pub struct ChurnEngine {
    config: Config,
    records: Vec<PublishedKey>,
    start_time: u64,
    sweep_index: u64,
    churned_count: u64,
    cancel_requested: bool,
    terminated: bool,
    finalized: bool,
    churn_rows: Vec<ChurnRow>,
    decay_rows: Vec<DecayRow>,
    global_rows: Vec<GlobalRow>,
    last_recorded_global: Option<u64>,
}

impl View for ChurnEngine {
    type V = EngineModel;

    closed spec fn view(&self) -> EngineModel {
        EngineModel {
            config: self.config,
            records: self.records@.map_values(|r: PublishedKey| r@),
            start_time: self.start_time,
            sweep_index: self.sweep_index,
            churned_count: self.churned_count as int,
            cancel_requested: self.cancel_requested,
            terminated: self.terminated,
            finalized: self.finalized,
            churn_rows: self.churn_rows@.map_values(|r: ChurnRow| r@),
            decay_rows: self.decay_rows@.map_values(|r: DecayRow| r@),
            global_rows: self.global_rows@,
            last_recorded_global: self.last_recorded_global,
        }
    }
}

impl ChurnEngine {
    /// Starts a monitoring run over a working set of freshly published
    /// records with pairwise distinct identifiers.
    pub fn new(config: Config, records: Vec<PublishedKey>, start_time: u64) -> (r: ChurnEngine)
        requires
            config.valid(),
            records@.len() <= 0xFFFF_FFFF,
            distinct_ids(records@.map_values(|r: PublishedKey| r@)),
            forall|i: int| 0 <= i < records@.len() ==> (#[trigger] records@[i])@.published_at
                <= start_time,
            forall|i: int| 0 <= i < records@.len() ==> (#[trigger] records@[i])@.churned_at
                .is_none(),
            forall|i: int| 0 <= i < records@.len() ==> (#[trigger] records@[i])@.churn_time
                .is_none(),
        ensures
            r@ == initial_model(config, records@.map_values(|x: PublishedKey| x@), start_time),
            wf(r@),
    {
        let ghost rs = records@.map_values(|x: PublishedKey| x@);
        let e = ChurnEngine {
            config,
            records,
            start_time,
            sweep_index: 0,
            churned_count: 0,
            cancel_requested: false,
            terminated: false,
            finalized: false,
            churn_rows: Vec::new(),
            decay_rows: Vec::new(),
            global_rows: Vec::new(),
            last_recorded_global: None,
        };
        proof {
            assert forall|i: int| 0 <= i < rs.len() implies (#[trigger] rs[i]).published_at
                <= start_time && rs[i].churned_at.is_none() && rs[i].churn_time.is_none() by {
                assert(rs[i] == e.records@[i]@);
            }
            lemma_initial_wf(config, rs, start_time);
            assert(e@ =~= initial_model(config, rs, start_time));
        }
        e
    }

    /// One probe observation for the record at position `i` of the working
    /// set: appends a decay row if the count changed, then applies the churn
    /// policy, exactly as `probe_step` describes.
    pub fn record_probe(&mut self, i: usize, nodes_count: u8, now: u64)
        requires
            wf(old(self)@),
            !old(self)@.finalized,
            i < old(self)@.records.len(),
            old(self)@.start_time <= now,
        ensures
            final(self)@ == probe_step(old(self)@, i as int, nodes_count, now),
            wf(final(self)@),
    {
        proof {
            assert(old(self)@.records[i as int] == self.records@[i as int]@);
            lemma_count_churned_bounds(old(self)@.records);
        }
        let published_at = self.records[i].published_at;
        let churned_at = self.records[i].churned_at;
        let churn_time = self.records[i].churn_time;
        let last_observed = self.records[i].last_observed;

        let changed = match last_observed {
            Some(c) => c != nodes_count,
            None => true,
        };
        if changed {
            let id = clone_id(&self.records[i].record_id);
            self.decay_rows.push(
                DecayRow { timestamp_s: now - self.start_time, record_id: id, nodes_count },
            );
        }

        let mut new_churned_at = churned_at;
        let mut new_churn_time = churn_time;
        if nodes_count == 0 {
            if churned_at.is_none() {
                new_churned_at = Some(now);
                self.churned_count = self.churned_count + 1;
            }
            if churn_time.is_none() {
                let elapsed = now - published_at;
                new_churn_time = Some(elapsed);
                let id = clone_id(&self.records[i].record_id);
                self.churn_rows.push(ChurnRow { record_id: id, time_s: elapsed });
            }
        } else {
            if self.config.recovery_enabled && churned_at.is_some() {
                new_churned_at = None;
                proof {
                    lemma_count_churned_at_least_one(old(self)@.records, i as int);
                }
                self.churned_count = self.churned_count - 1;
            }
        }

        let id = clone_id(&self.records[i].record_id);
        let rec = PublishedKey {
            record_id: id,
            published_at,
            churned_at: new_churned_at,
            churn_time: new_churn_time,
            last_observed: Some(nodes_count),
        };
        self.records.set(i, rec);
        proof {
            lemma_probe_step_wf(old(self)@, i as int, nodes_count, now);
            assert(self@ =~= probe_step(old(self)@, i as int, nodes_count, now));
        }
    }

    /// One full sweep, handed each record's probe count, aborted at the top
    /// of an iteration once cancellation was requested.
    pub fn run_sweep(&mut self, counts: &Vec<u8>, now: u64)
        requires
            wf(old(self)@),
            !old(self)@.finalized,
            counts@.len() == old(self)@.records.len(),
            old(self)@.start_time <= now,
        ensures
            final(self)@ == sweep_steps(old(self)@, counts@, now),
            wf(final(self)@),
    {
        let n = counts.len();
        let mut k: usize = 0;
        while k < n
            invariant
                wf(self@),
                !self@.finalized,
                self@.start_time == old(self)@.start_time,
                self@.start_time <= now,
                self@.records.len() == old(self)@.records.len(),
                counts@.len() == old(self)@.records.len(),
                n == counts@.len(),
                0 <= k <= n,
                sweep_from(old(self)@, counts@, now, 0) == sweep_from(self@, counts@, now, k as int),
            decreases n - k,
        {
            if self.cancel_requested {
                proof {
                    assert(sweep_from(self@, counts@, now, k as int) == self@);
                }
                return ;
            }
            let ghost prev = self@;
            self.record_probe(k, counts[k], now);
            proof {
                assert(sweep_from(prev, counts@, now, k as int) == sweep_from(
                    self@,
                    counts@,
                    now,
                    k as int + 1,
                ));
            }
            k = k + 1;
        }
    }

    /// Raises the cooperative cancellation flag; checked at the top of every
    /// per-record iteration and at every sweep boundary.
    pub fn request_cancel(&mut self)
        requires
            wf(old(self)@),
        ensures
            final(self)@ == cancel_step(old(self)@),
            wf(final(self)@),
    {
        self.cancel_requested = true;
        proof {
            assert(self@ =~= cancel_step(old(self)@));
        }
    }

    /// Whether cancellation has been requested.
    pub fn cancel_requested(&self) -> (r: bool)
        ensures
            r == self@.cancel_requested,
    {
        self.cancel_requested
    }

    /// A sweep boundary: records a global decay sample if the aggregate node
    /// count dropped below the previous sample, counts the sweep, and returns
    /// the stop decision, exactly as `end_sweep_step` and `stop_reason`
    /// describe.
    pub fn end_sweep(&mut self, now: u64) -> (r: Option<StopReason>)
        requires
            wf(old(self)@),
            !old(self)@.finalized,
            old(self)@.start_time <= now,
            old(self)@.sweep_index < 0xFFFF_FFFF_FFFF_FFFFu64,
        ensures
            final(self)@ == end_sweep_step(old(self)@, now),
            r == stop_reason(old(self)@, now),
            wf(final(self)@),
    {
        let n = self.records.len();
        let mut total: u64 = 0;
        let mut j: usize = 0;
        proof {
            lemma_global_count_bounds(old(self)@.records);
        }
        while j < n
            invariant
                wf(self@),
                self@ == old(self)@,
                n == self@.records.len(),
                n <= 0xFFFF_FFFF,
                0 <= j <= n,
                total == global_count(self@.records.take(j as int)),
                total <= 255 * j,
            decreases n - j,
        {
            let c: u8 = match self.records[j].last_observed {
                Some(c) => c,
                None => 0,
            };
            proof {
                assert(self@.records.take(j as int + 1).drop_last() =~= self@.records.take(
                    j as int,
                ));
                assert(self@.records.take(j as int + 1).last() == self@.records[j as int]);
                assert(self@.records[j as int] == self.records@[j as int]@);
            }
            total = total + c as u64;
            j = j + 1;
        }
        proof {
            assert(self@.records.take(n as int) =~= self@.records);
        }

        let decreased = match self.last_recorded_global {
            Some(prev) => total < prev,
            None => false,
        };
        if decreased {
            self.global_rows.push(GlobalRow { node_count: total, timestamp_s: now - self.start_time });
            self.last_recorded_global = Some(total);
        } else if self.last_recorded_global.is_none() {
            self.last_recorded_global = Some(total);
        }
        self.sweep_index = self.sweep_index + 1;

        proof {
            lemma_count_churned_bounds(old(self)@.records);
            let a = self.churned_count as int;
            let d = self.config.stop_den as int;
            let s = self.config.stop_num as int;
            let nn = n as int;
            assert(a * d <= 0xFFFF_FFFF * 0xFFFF_FFFF && s * nn <= 0xFFFF_FFFF * 0xFFFF_FFFF)
                by (nonlinear_arith)
                requires
                    0 <= a <= 0xFFFF_FFFF,
                    0 <= d <= 0xFFFF_FFFF,
                    0 <= s <= 0xFFFF_FFFF,
                    0 <= nn <= 0xFFFF_FFFF,
            ;
        }
        let reason: Option<StopReason> = if self.cancel_requested {
            Some(StopReason::Cancelled)
        } else if self.churned_count * self.config.stop_den >= self.config.stop_num * (
        n as u64) {
            Some(StopReason::FractionReached)
        } else if now - self.start_time >= self.config.max_duration_s {
            Some(StopReason::MaxDurationReached)
        } else {
            None
        };
        self.terminated = reason.is_some();

        proof {
            lemma_end_sweep_wf(old(self)@, now);
            assert(self@ =~= end_sweep_step(old(self)@, now));
        }
        reason
    }

    /// The terminal flush: appends one `time_s = 0` churn row for every
    /// record whose churn event was never emitted, so that the churn stream
    /// ends with exactly one row per record of the working set.
    pub fn finalize(&mut self)
        requires
            wf(old(self)@),
            !old(self)@.finalized,
        ensures
            final(self)@ == finalize_step(old(self)@),
            wf(final(self)@),
            final(self)@.churn_rows.len() == old(self)@.records.len(),
    {
        let n = self.records.len();
        let mut j: usize = 0;
        proof {
            assert(old(self)@.churn_rows + terminal_rows(old(self)@.records.take(0)) =~= old(
                self,
            )@.churn_rows);
        }
        while j < n
            invariant
                n == self@.records.len(),
                0 <= j <= n,
                self@.records == old(self)@.records,
                self@.config == old(self)@.config,
                self@.start_time == old(self)@.start_time,
                self@.sweep_index == old(self)@.sweep_index,
                self@.churned_count == old(self)@.churned_count,
                self@.cancel_requested == old(self)@.cancel_requested,
                self@.terminated == old(self)@.terminated,
                self@.finalized == old(self)@.finalized,
                self@.decay_rows == old(self)@.decay_rows,
                self@.global_rows == old(self)@.global_rows,
                self@.last_recorded_global == old(self)@.last_recorded_global,
                self@.churn_rows == old(self)@.churn_rows + terminal_rows(
                    old(self)@.records.take(j as int),
                ),
            decreases n - j,
        {
            proof {
                assert(old(self)@.records.take(j as int + 1).drop_last() =~= old(
                    self,
                )@.records.take(j as int));
                assert(old(self)@.records.take(j as int + 1).last() == old(
                    self,
                )@.records[j as int]);
                assert(old(self)@.records[j as int] == self.records@[j as int]@);
            }
            let ghost pre_rows = self@.churn_rows;
            if self.records[j].churn_time.is_none() {
                let id = clone_id(&self.records[j].record_id);
                self.churn_rows.push(ChurnRow { record_id: id, time_s: 0 });
                proof {
                    let row = ChurnRowModel { id: old(self)@.records[j as int].id, time_s: 0 };
                    assert(self@.churn_rows =~= pre_rows.push(row));
                    assert(terminal_rows(old(self)@.records.take(j as int + 1)) == terminal_rows(
                        old(self)@.records.take(j as int),
                    ).push(row));
                    assert(pre_rows.push(row) =~= old(self)@.churn_rows + terminal_rows(
                        old(self)@.records.take(j as int),
                    ).push(row));
                    assert(self@.churn_rows =~= old(self)@.churn_rows + terminal_rows(
                        old(self)@.records.take(j as int + 1),
                    ));
                }
            } else {
                proof {
                    assert(terminal_rows(old(self)@.records.take(j as int + 1)) == terminal_rows(
                        old(self)@.records.take(j as int),
                    ));
                    assert(self@.churn_rows =~= old(self)@.churn_rows + terminal_rows(
                        old(self)@.records.take(j as int + 1),
                    ));
                }
            }
            j = j + 1;
        }
        self.terminated = true;
        self.finalized = true;
        proof {
            assert(old(self)@.records.take(n as int) =~= old(self)@.records);
            lemma_finalize_wf(old(self)@);
            assert(self@ =~= finalize_step(old(self)@));
        }
    }

    /// Reorders the working set at random, for runs whose configuration asks
    /// for a reshuffle between sweeps to avoid position bias. Whatever the
    /// draws, the working set afterwards holds exactly the same records, and
    /// nothing else of the run state changes.
    pub fn shuffle_working_set(&mut self)
        requires
            wf(old(self)@),
            !old(self)@.finalized,
        ensures
            wf(final(self)@),
            final(self)@ == (EngineModel { records: final(self)@.records, ..old(self)@ }),
            final(self)@.records.to_multiset() == old(self)@.records.to_multiset(),
            final(self)@.records.len() == old(self)@.records.len(),
    {
        let ghost orig = old(self)@.records;
        let ghost rows = old(self)@.churn_rows;
        let ghost start = old(self)@.start_time;
        let mut src: Vec<PublishedKey> = Vec::new();
        core::mem::swap(&mut src, &mut self.records);
        let mut dst: Vec<PublishedKey> = Vec::new();
        proof {
            broadcast use vstd::seq_lib::group_to_multiset_ensures;

            assert(src@.map_values(|x: PublishedKey| x@) == orig);
            assert(dst@.map_values(|x: PublishedKey| x@) =~= Seq::<RecordModel>::empty());
            assert(Seq::<RecordModel>::empty().to_multiset().add(orig.to_multiset())
                =~= orig.to_multiset());
            assert forall|j: int| 0 <= j < src@.len() implies ((#[trigger] src@[j])@).published_at
                <= start && rows_with_id(rows, src@[j]@.id) == (if src@[j]@.churn_time.is_some() {
                1int
            } else {
                0int
            }) by {
                assert(src@[j]@ == orig[j]);
            }
        }
        while src.len() > 0
            invariant
                dst@.len() + src@.len() == orig.len(),
                count_churned(dst@.map_values(|x: PublishedKey| x@)) + count_churned(
                    src@.map_values(|x: PublishedKey| x@),
                ) == count_churned(orig),
                count_emitted(dst@.map_values(|x: PublishedKey| x@)) + count_emitted(
                    src@.map_values(|x: PublishedKey| x@),
                ) == count_emitted(orig),
                dst@.map_values(|x: PublishedKey| x@).to_multiset().add(
                    src@.map_values(|x: PublishedKey| x@).to_multiset(),
                ) == orig.to_multiset(),
                distinct_ids(dst@.map_values(|x: PublishedKey| x@)),
                distinct_ids(src@.map_values(|x: PublishedKey| x@)),
                forall|p: int, q: int|
                    0 <= p < dst@.len() && 0 <= q < src@.len() ==> ((#[trigger] dst@[p])@).id
                        != ((#[trigger] src@[q])@).id,
                forall|j: int| 0 <= j < dst@.len() ==> ((#[trigger] dst@[j])@).published_at
                    <= start,
                forall|j: int| 0 <= j < src@.len() ==> ((#[trigger] src@[j])@).published_at
                    <= start,
                forall|j: int|
                    0 <= j < dst@.len() ==> rows_with_id(rows, ((#[trigger] dst@[j])@).id) == (
                    if dst@[j]@.churn_time.is_some() {
                        1int
                    } else {
                        0int
                    }),
                forall|j: int|
                    0 <= j < src@.len() ==> rows_with_id(rows, ((#[trigger] src@[j])@).id) == (
                    if src@[j]@.churn_time.is_some() {
                        1int
                    } else {
                        0int
                    }),
            decreases src@.len(),
        {
            let seed = draw_u64();
            let k = sample_index(seed, src.len());
            let ghost sp = src@.map_values(|x: PublishedKey| x@);
            let ghost dp = dst@.map_values(|x: PublishedKey| x@);
            let ghost picked = sp[k as int];
            let rec = src.remove(k);
            dst.push(rec);
            proof {
                broadcast use vstd::seq_lib::group_to_multiset_ensures;

                let s2 = src@.map_values(|x: PublishedKey| x@);
                let d2 = dst@.map_values(|x: PublishedKey| x@);
                assert(s2 =~= sp.remove(k as int));
                assert(d2 =~= dp.push(picked));
                lemma_count_churned_remove(sp, k as int);
                lemma_count_emitted_remove(sp, k as int);
                assert(d2.drop_last() =~= dp);
                assert(sp.contains(picked));
                assert(d2.to_multiset().add(s2.to_multiset()) =~= orig.to_multiset());
                assert forall|p: int, q: int|
                    #![trigger s2[p], s2[q]]
                    0 <= p < q < s2.len() implies s2[p].id != s2[q].id by {
                    let p0: int = if p < k as int {
                        p
                    } else {
                        p + 1
                    };
                    let q0: int = if q < k as int {
                        q
                    } else {
                        q + 1
                    };
                    assert(s2[p] == sp[p0]);
                    assert(s2[q] == sp[q0]);
                }
                assert forall|p: int, q: int|
                    #![trigger d2[p], d2[q]]
                    0 <= p < q < d2.len() implies d2[p].id != d2[q].id by {
                    assert(d2[p] == dp[p]);
                    if q < d2.len() - 1 {
                        assert(d2[q] == dp[q]);
                        assert(dp[p] == dst@[p]@ && dp[q] == dst@[q]@);
                    } else {
                        assert(d2[q] == picked);
                        assert(dp[p].id != sp[k as int].id);
                    }
                }
                assert forall|p: int, q: int|
                    0 <= p < dst@.len() && 0 <= q < src@.len() implies ((#[trigger] dst@[p])@).id
                    != ((#[trigger] src@[q])@).id by {
                    let q0: int = if q < k as int {
                        q
                    } else {
                        q + 1
                    };
                    assert(src@[q]@ == s2[q] && s2[q] == sp[q0]);
                    if p < dst@.len() - 1 {
                        assert(dst@[p]@ == dp[p]);
                    } else {
                        assert(dst@[p]@ == picked);
                        if q0 < k as int {
                            assert(sp[q0].id != sp[k as int].id);
                        } else {
                            assert(sp[k as int].id != sp[q0].id);
                        }
                    }
                }
                assert forall|j: int| 0 <= j < src@.len() implies ((#[trigger] src@[j])@).published_at
                    <= start && rows_with_id(rows, src@[j]@.id) == (
                if src@[j]@.churn_time.is_some() {
                    1int
                } else {
                    0int
                }) by {
                    let j0: int = if j < k as int {
                        j
                    } else {
                        j + 1
                    };
                    assert(src@[j]@ == s2[j] && s2[j] == sp[j0]);
                }
                assert forall|j: int| 0 <= j < dst@.len() implies ((#[trigger] dst@[j])@).published_at
                    <= start && rows_with_id(rows, dst@[j]@.id) == (
                if dst@[j]@.churn_time.is_some() {
                    1int
                } else {
                    0int
                }) by {
                    if j < dst@.len() - 1 {
                        assert(dst@[j]@ == dp[j]);
                    } else {
                        assert(dst@[j]@ == picked);
                    }
                }
            }
        }
        self.records = dst;
        proof {
            broadcast use vstd::seq_lib::group_to_multiset_ensures;

            let d = self@.records;
            let s = src@.map_values(|x: PublishedKey| x@);
            assert(s =~= Seq::<RecordModel>::empty());
            assert(d.to_multiset().add(s.to_multiset()) =~= d.to_multiset());
            assert forall|j: int| 0 <= j < d.len() implies (#[trigger] d[j]).published_at
                <= self@.start_time && rows_with_id(self@.churn_rows, d[j].id) == (
            if d[j].churn_time.is_some() {
                1int
            } else {
                0int
            }) by {
                assert(d[j] == dst@[j]@);
            }
            assert(self@ =~= (EngineModel { records: d, ..old(self)@ }));
        }
    }


    /// Number of records in the working set.
    pub fn working_set_size(&self) -> (r: usize)
        ensures
            r == self@.records.len(),
    {
        self.records.len()
    }

    /// Number of records currently churned.
    pub fn churned_count(&self) -> (r: u64)
        ensures
            r == self@.churned_count,
    {
        self.churned_count
    }

    /// Number of completed sweeps.
    pub fn sweep_index(&self) -> (r: u64)
        ensures
            r == self@.sweep_index,
    {
        self.sweep_index
    }

    /// Whether a sweep boundary has decided to stop.
    pub fn is_terminated(&self) -> (r: bool)
        ensures
            r == self@.terminated,
    {
        self.terminated
    }

    /// The run configuration.
    pub fn config(&self) -> (r: &Config)
        ensures
            r == self@.config,
    {
        &self.config
    }

    /// The working set.
    pub fn records(&self) -> (r: &Vec<PublishedKey>)
        ensures
            r@.map_values(|x: PublishedKey| x@) == self@.records,
    {
        &self.records
    }

    /// The churn event rows accumulated so far.
    pub fn churn_rows(&self) -> (r: &Vec<ChurnRow>)
        ensures
            r@.map_values(|x: ChurnRow| x@) == self@.churn_rows,
    {
        &self.churn_rows
    }

    /// The per-record decay rows accumulated so far.
    pub fn decay_rows(&self) -> (r: &Vec<DecayRow>)
        ensures
            r@.map_values(|x: DecayRow| x@) == self@.decay_rows,
    {
        &self.decay_rows
    }

    /// The global decay samples accumulated so far.
    pub fn global_rows(&self) -> (r: &Vec<GlobalRow>)
        ensures
            r@ == self@.global_rows,
    {
        &self.global_rows
    }
}

} // verus!
