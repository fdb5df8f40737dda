//! Mathematical model of the churn engine.
//!
//! Every step the engine takes — one probe observation, one sweep boundary,
//! the terminal flush — is a pure function from model to model here; the
//! executable engine proves that it computes exactly these functions, and the
//! row-level guarantees are proved once, about the model.

use vstd::prelude::*;

use crate::config::Config;
use crate::record::RecordModel;
use crate::rows::{ChurnRowModel, DecayRowModel, GlobalRow, StopReason};

verus! {

/// Mathematical image of the whole run state.
#[verifier::ext_equal]
pub ghost struct EngineModel {
    pub config: Config,
    /// The working set, fixed in cardinality once monitoring starts.
    pub records: Seq<RecordModel>,
    /// Time the monitoring phase started, in seconds.
    pub start_time: u64,
    /// Number of completed sweeps.
    pub sweep_index: u64,
    /// Number of records currently churned.
    pub churned_count: int,
    pub cancel_requested: bool,
    /// Set once a sweep boundary decided to stop.
    pub terminated: bool,
    /// Set once the terminal flush has run.
    pub finalized: bool,
    pub churn_rows: Seq<ChurnRowModel>,
    pub decay_rows: Seq<DecayRowModel>,
    pub global_rows: Seq<GlobalRow>,
    /// The last recorded global sample, the baseline for the
    /// monotone-decrease logging policy.
    pub last_recorded_global: Option<u64>,
}

/// Number of records currently churned.
pub open spec fn count_churned(s: Seq<RecordModel>) -> int
    decreases s.len(),
{
    if s.len() == 0 {
        0
    } else {
        count_churned(s.drop_last()) + if s.last().churned_at.is_some() {
            1int
        } else {
            0int
        }
    }
}

/// Number of records whose single churn event has been emitted.
pub open spec fn count_emitted(s: Seq<RecordModel>) -> int
    decreases s.len(),
{
    if s.len() == 0 {
        0
    } else {
        count_emitted(s.drop_last()) + if s.last().churn_time.is_some() {
            1int
        } else {
            0int
        }
    }
}

/// Number of records carrying identifier `id` whose churn event is still
/// pending.
pub open spec fn count_pending_with_id(s: Seq<RecordModel>, id: Seq<u8>) -> int
    decreases s.len(),
{
    if s.len() == 0 {
        0
    } else {
        count_pending_with_id(s.drop_last(), id) + if s.last().id == id
            && s.last().churn_time.is_none() {
            1int
        } else {
            0int
        }
    }
}

/// The node count behind one observation; an unprobed record contributes 0.
pub open spec fn observed(o: Option<u8>) -> int {
    match o {
        Some(n) => n as int,
        None => 0,
    }
}

/// Total node count across all records, from the last observation of each.
pub open spec fn global_count(s: Seq<RecordModel>) -> int
    decreases s.len(),
{
    if s.len() == 0 {
        0
    } else {
        global_count(s.drop_last()) + observed(s.last().last_observed)
    }
}

/// Number of churn rows carrying identifier `id`.
pub open spec fn rows_with_id(rows: Seq<ChurnRowModel>, id: Seq<u8>) -> int
    decreases rows.len(),
{
    if rows.len() == 0 {
        0
    } else {
        rows_with_id(rows.drop_last(), id) + if rows.last().id == id {
            1int
        } else {
            0int
        }
    }
}

/// The records' identifiers are pairwise distinct.
pub open spec fn distinct_ids(s: Seq<RecordModel>) -> bool {
    forall|i: int, j: int|
        #![trigger s[i], s[j]]
        0 <= i < j < s.len() ==> s[i].id != s[j].id
}

/// Well-formedness of the run state; established at construction and
/// preserved by every step.
pub open spec fn wf(m: EngineModel) -> bool {
    &&& m.config.valid()
    &&& m.records.len() <= 0xFFFF_FFFF
    &&& distinct_ids(m.records)
    &&& forall|i: int|
        0 <= i < m.records.len() ==> (#[trigger] m.records[i]).published_at <= m.start_time
    &&& m.churned_count == count_churned(m.records)
    &&& m.churn_rows.len() == (if m.finalized {
        m.records.len() as int
    } else {
        count_emitted(m.records)
    })
    &&& forall|i: int|
        0 <= i < m.records.len() ==> rows_with_id(m.churn_rows, (#[trigger] m.records[i]).id)
            == (if m.finalized {
            1int
        } else if m.records[i].churn_time.is_some() {
            1int
        } else {
            0int
        })
    &&& forall|i: int, j: int|
        #![trigger m.global_rows[i], m.global_rows[j]]
        0 <= i < j < m.global_rows.len() ==> m.global_rows[j].node_count
            < m.global_rows[i].node_count
    &&& m.global_rows.len() > 0 ==> m.last_recorded_global == Some(
        m.global_rows.last().node_count,
    )
    &&& m.last_recorded_global.is_none() ==> m.global_rows.len() == 0
}

/// One probe observation for the record at index `i`: the per-record decay
/// row on change, then the churn policy.
///
/// The churn policy is: a zero count churns an available record as of `now`
/// and emits its churn event if none was emitted before (first churn wins); a
/// positive count clears the churned marker only under `recovery_enabled`,
/// and never emits anything.
pub open spec fn probe_step(m: EngineModel, i: int, count: u8, now: u64) -> EngineModel {
    let r = m.records[i];
    let decay2 = if r.last_observed != Some(count) {
        m.decay_rows.push(
            DecayRowModel {
                timestamp_s: (now - m.start_time) as u64,
                id: r.id,
                nodes_count: count,
            },
        )
    } else {
        m.decay_rows
    };
    if count == 0 {
        let elapsed = (now - r.published_at) as u64;
        let r2 = RecordModel {
            last_observed: Some(count),
            churned_at: if r.churned_at.is_none() {
                Some(now)
            } else {
                r.churned_at
            },
            churn_time: if r.churn_time.is_none() {
                Some(elapsed)
            } else {
                r.churn_time
            },
            ..r
        };
        EngineModel {
            records: m.records.update(i, r2),
            churned_count: m.churned_count + if r.churned_at.is_none() {
                1int
            } else {
                0int
            },
            churn_rows: if r.churn_time.is_none() {
                m.churn_rows.push(ChurnRowModel { id: r.id, time_s: elapsed })
            } else {
                m.churn_rows
            },
            decay_rows: decay2,
            ..m
        }
    } else {
        let recovering = m.config.recovery_enabled && r.churned_at.is_some();
        let r2 = RecordModel {
            last_observed: Some(count),
            churned_at: if recovering {
                None
            } else {
                r.churned_at
            },
            ..r
        };
        EngineModel {
            records: m.records.update(i, r2),
            churned_count: m.churned_count - if recovering {
                1int
            } else {
                0int
            },
            decay_rows: decay2,
            ..m
        }
    }
}

/// One sweep from record index `k` on, aborted at the top of an iteration
/// once cancellation is requested.
pub open spec fn sweep_from(m: EngineModel, counts: Seq<u8>, now: u64, k: int) -> EngineModel
    decreases counts.len() - k,
{
    if k < 0 || k >= counts.len() || m.cancel_requested {
        m
    } else {
        sweep_from(probe_step(m, k, counts[k], now), counts, now, k + 1)
    }
}

/// One full sweep over the working set, given each record's probe count.
pub open spec fn sweep_steps(m: EngineModel, counts: Seq<u8>, now: u64) -> EngineModel {
    sweep_from(m, counts, now, 0)
}

/// Whether the churned fraction has reached the configured stop fraction.
pub open spec fn fraction_reached(m: EngineModel) -> bool {
    m.churned_count * m.config.stop_den >= m.config.stop_num * m.records.len()
}

/// Whether the configured maximum monitoring duration has elapsed.
pub open spec fn duration_reached(m: EngineModel, now: u64) -> bool {
    now - m.start_time >= m.config.max_duration_s
}

/// The stop decision taken at a sweep boundary.
pub open spec fn stop_reason(m: EngineModel, now: u64) -> Option<StopReason> {
    if m.cancel_requested {
        Some(StopReason::Cancelled)
    } else if fraction_reached(m) {
        Some(StopReason::FractionReached)
    } else if duration_reached(m, now) {
        Some(StopReason::MaxDurationReached)
    } else {
        None
    }
}

/// A sweep boundary: record a global decay sample if the aggregate dropped
/// below the previous sample (the first sweep only sets the baseline), count
/// the sweep, and take the stop decision.
pub open spec fn end_sweep_step(m: EngineModel, now: u64) -> EngineModel {
    let g = global_count(m.records);
    let decreased = match m.last_recorded_global {
        None => false,
        Some(prev) => g < prev,
    };
    EngineModel {
        sweep_index: (m.sweep_index + 1) as u64,
        global_rows: if decreased {
            m.global_rows.push(
                GlobalRow { node_count: g as u64, timestamp_s: (now - m.start_time) as u64 },
            )
        } else {
            m.global_rows
        },
        last_recorded_global: if decreased || m.last_recorded_global.is_none() {
            Some(g as u64)
        } else {
            m.last_recorded_global
        },
        terminated: stop_reason(m, now).is_some(),
        ..m
    }
}

/// The terminal rows of the flush: one `time_s = 0` row for every record
/// whose churn event was never emitted, in working-set order.
pub open spec fn terminal_rows(s: Seq<RecordModel>) -> Seq<ChurnRowModel>
    decreases s.len(),
{
    if s.len() == 0 {
        Seq::<ChurnRowModel>::empty()
    } else if s.last().churn_time.is_none() {
        terminal_rows(s.drop_last()).push(ChurnRowModel { id: s.last().id, time_s: 0 })
    } else {
        terminal_rows(s.drop_last())
    }
}

/// The terminal flush: after it, the churn stream holds exactly one row per
/// record of the working set.
pub open spec fn finalize_step(m: EngineModel) -> EngineModel {
    EngineModel {
        churn_rows: m.churn_rows + terminal_rows(m.records),
        terminated: true,
        finalized: true,
        ..m
    }
}

/// Requesting cancellation only raises the flag.
pub open spec fn cancel_step(m: EngineModel) -> EngineModel {
    EngineModel { cancel_requested: true, ..m }
}

pub proof fn lemma_count_churned_bounds(s: Seq<RecordModel>)
    ensures
        0 <= count_churned(s) <= s.len(),
    decreases s.len(),
{
    if s.len() > 0 {
        lemma_count_churned_bounds(s.drop_last());
    }
}

pub proof fn lemma_count_emitted_bounds(s: Seq<RecordModel>)
    ensures
        0 <= count_emitted(s) <= s.len(),
    decreases s.len(),
{
    if s.len() > 0 {
        lemma_count_emitted_bounds(s.drop_last());
    }
}

pub proof fn lemma_count_churned_update(s: Seq<RecordModel>, i: int, r: RecordModel)
    requires
        0 <= i < s.len(),
    ensures
        count_churned(s.update(i, r)) == count_churned(s) - (if s[i].churned_at.is_some() {
            1int
        } else {
            0int
        }) + (if r.churned_at.is_some() {
            1int
        } else {
            0int
        }),
    decreases s.len(),
{
    if i == s.len() - 1 {
        assert(s.update(i, r).drop_last() =~= s.drop_last());
    } else {
        assert(s.update(i, r).drop_last() =~= s.drop_last().update(i, r));
        lemma_count_churned_update(s.drop_last(), i, r);
    }
}

pub proof fn lemma_count_emitted_update(s: Seq<RecordModel>, i: int, r: RecordModel)
    requires
        0 <= i < s.len(),
    ensures
        count_emitted(s.update(i, r)) == count_emitted(s) - (if s[i].churn_time.is_some() {
            1int
        } else {
            0int
        }) + (if r.churn_time.is_some() {
            1int
        } else {
            0int
        }),
    decreases s.len(),
{
    if i == s.len() - 1 {
        assert(s.update(i, r).drop_last() =~= s.drop_last());
    } else {
        assert(s.update(i, r).drop_last() =~= s.drop_last().update(i, r));
        lemma_count_emitted_update(s.drop_last(), i, r);
    }
}

pub proof fn lemma_count_churned_remove(s: Seq<RecordModel>, i: int)
    requires
        0 <= i < s.len(),
    ensures
        count_churned(s.remove(i)) == count_churned(s) - (if s[i].churned_at.is_some() {
            1int
        } else {
            0int
        }),
    decreases s.len(),
{
    if i == s.len() - 1 {
        assert(s.remove(i) =~= s.drop_last());
    } else {
        assert(s.remove(i).drop_last() =~= s.drop_last().remove(i));
        assert(s.remove(i).last() == s.last());
        lemma_count_churned_remove(s.drop_last(), i);
    }
}

pub proof fn lemma_count_emitted_remove(s: Seq<RecordModel>, i: int)
    requires
        0 <= i < s.len(),
    ensures
        count_emitted(s.remove(i)) == count_emitted(s) - (if s[i].churn_time.is_some() {
            1int
        } else {
            0int
        }),
    decreases s.len(),
{
    if i == s.len() - 1 {
        assert(s.remove(i) =~= s.drop_last());
    } else {
        assert(s.remove(i).drop_last() =~= s.drop_last().remove(i));
        assert(s.remove(i).last() == s.last());
        lemma_count_emitted_remove(s.drop_last(), i);
    }
}

pub proof fn lemma_count_churned_zero(s: Seq<RecordModel>)
    requires
        forall|i: int| 0 <= i < s.len() ==> (#[trigger] s[i]).churned_at.is_none(),
    ensures
        count_churned(s) == 0,
    decreases s.len(),
{
    if s.len() > 0 {
        lemma_count_churned_zero(s.drop_last());
    }
}

pub proof fn lemma_count_emitted_zero(s: Seq<RecordModel>)
    requires
        forall|i: int| 0 <= i < s.len() ==> (#[trigger] s[i]).churn_time.is_none(),
    ensures
        count_emitted(s) == 0,
    decreases s.len(),
{
    if s.len() > 0 {
        lemma_count_emitted_zero(s.drop_last());
    }
}

pub proof fn lemma_count_churned_at_least_one(s: Seq<RecordModel>, i: int)
    requires
        0 <= i < s.len(),
        s[i].churned_at.is_some(),
    ensures
        count_churned(s) >= 1,
    decreases s.len(),
{
    if i == s.len() - 1 {
        lemma_count_churned_bounds(s.drop_last());
    } else {
        assert(s.drop_last()[i] == s[i]);
        lemma_count_churned_at_least_one(s.drop_last(), i);
        lemma_count_churned_bounds(s);
    }
}

pub proof fn lemma_global_count_bounds(s: Seq<RecordModel>)
    ensures
        0 <= global_count(s) <= 255 * s.len(),
    decreases s.len(),
{
    if s.len() > 0 {
        lemma_global_count_bounds(s.drop_last());
    }
}

pub proof fn lemma_rows_with_id_push(rows: Seq<ChurnRowModel>, row: ChurnRowModel, id: Seq<u8>)
    ensures
        rows_with_id(rows.push(row), id) == rows_with_id(rows, id) + (if row.id == id {
            1int
        } else {
            0int
        }),
{
    assert(rows.push(row).drop_last() =~= rows);
}

pub proof fn lemma_rows_with_id_concat(a: Seq<ChurnRowModel>, b: Seq<ChurnRowModel>, id: Seq<u8>)
    ensures
        rows_with_id(a + b, id) == rows_with_id(a, id) + rows_with_id(b, id),
    decreases b.len(),
{
    if b.len() == 0 {
        assert(a + b =~= a);
    } else {
        assert((a + b).drop_last() =~= a + b.drop_last());
        lemma_rows_with_id_concat(a, b.drop_last(), id);
    }
}

pub proof fn lemma_rows_with_id_empty(rows: Seq<ChurnRowModel>, id: Seq<u8>)
    requires
        rows.len() == 0,
    ensures
        rows_with_id(rows, id) == 0,
{
}

pub proof fn lemma_terminal_rows_len(s: Seq<RecordModel>)
    ensures
        terminal_rows(s).len() == s.len() - count_emitted(s),
    decreases s.len(),
{
    lemma_count_emitted_bounds(s);
    if s.len() > 0 {
        lemma_terminal_rows_len(s.drop_last());
    }
}

pub proof fn lemma_terminal_rows_id(s: Seq<RecordModel>, id: Seq<u8>)
    ensures
        rows_with_id(terminal_rows(s), id) == count_pending_with_id(s, id),
    decreases s.len(),
{
    if s.len() > 0 {
        lemma_terminal_rows_id(s.drop_last(), id);
        if s.last().churn_time.is_none() {
            lemma_rows_with_id_push(
                terminal_rows(s.drop_last()),
                ChurnRowModel { id: s.last().id, time_s: 0 },
                id,
            );
        }
    }
}

pub proof fn lemma_count_pending_unique(s: Seq<RecordModel>, j: int)
    requires
        distinct_ids(s),
        0 <= j < s.len(),
    ensures
        count_pending_with_id(s, s[j].id) == (if s[j].churn_time.is_none() {
            1int
        } else {
            0int
        }),
    decreases s.len(),
{
    if j == s.len() - 1 {
        lemma_count_pending_absent(s.drop_last(), s[j].id);
    } else {
        assert(s.drop_last()[j] == s[j]);
        lemma_count_pending_unique(s.drop_last(), j);
        assert(s.last().id != s[j].id);
    }
}

pub proof fn lemma_count_pending_absent(s: Seq<RecordModel>, id: Seq<u8>)
    requires
        forall|i: int| 0 <= i < s.len() ==> (#[trigger] s[i]).id != id,
    ensures
        count_pending_with_id(s, id) == 0,
    decreases s.len(),
{
    if s.len() > 0 {
        lemma_count_pending_absent(s.drop_last(), id);
    }
}

/// A freshly constructed engine is well formed.
pub proof fn lemma_initial_wf(config: Config, records: Seq<RecordModel>, start_time: u64)
    requires
        config.valid(),
        records.len() <= 0xFFFF_FFFF,
        distinct_ids(records),
        forall|i: int| 0 <= i < records.len() ==> (#[trigger] records[i]).published_at
            <= start_time,
        forall|i: int| 0 <= i < records.len() ==> (#[trigger] records[i]).churned_at.is_none(),
        forall|i: int| 0 <= i < records.len() ==> (#[trigger] records[i]).churn_time.is_none(),
    ensures
        wf(initial_model(config, records, start_time)),
{
    let m = initial_model(config, records, start_time);
    lemma_count_churned_zero(records);
    lemma_count_emitted_zero(records);
    assert forall|i: int| 0 <= i < records.len() implies rows_with_id(
        m.churn_rows,
        (#[trigger] records[i]).id,
    ) == 0 by {
        lemma_rows_with_id_empty(m.churn_rows, records[i].id);
    }
}

/// One probe observation preserves well-formedness and the working set's
/// cardinality and identifiers.
pub proof fn lemma_probe_step_wf(m: EngineModel, i: int, count: u8, now: u64)
    requires
        wf(m),
        !m.finalized,
        0 <= i < m.records.len(),
        m.start_time <= now,
    ensures
        wf(probe_step(m, i, count, now)),
        probe_step(m, i, count, now).records.len() == m.records.len(),
        forall|k: int| 0 <= k < m.records.len() ==> (#[trigger] probe_step(
            m,
            i,
            count,
            now,
        ).records[k]).id == m.records[k].id,
{
    let m2 = probe_step(m, i, count, now);
    let r = m.records[i];
    let r2 = m2.records[i];
    assert(m2.records == m.records.update(i, r2));
    lemma_count_churned_update(m.records, i, r2);
    lemma_count_emitted_update(m.records, i, r2);
    if count == 0 && r.churn_time.is_none() {
        let row = ChurnRowModel { id: r.id, time_s: (now - r.published_at) as u64 };
        assert forall|j: int| 0 <= j < m2.records.len() implies rows_with_id(
            m2.churn_rows,
            (#[trigger] m2.records[j]).id,
        ) == (if m2.records[j].churn_time.is_some() {
            1int
        } else {
            0int
        }) by {
            lemma_rows_with_id_push(m.churn_rows, row, m2.records[j].id);
        }
    } else {
        assert(m2.churn_rows == m.churn_rows);
        assert forall|j: int| 0 <= j < m2.records.len() implies rows_with_id(
            m2.churn_rows,
            (#[trigger] m2.records[j]).id,
        ) == (if m2.records[j].churn_time.is_some() {
            1int
        } else {
            0int
        }) by {
            assert(m2.records[j].id == m.records[j].id);
        }
    }
}

/// A sweep boundary preserves well-formedness; in particular a new global
/// sample is strictly below every earlier one.
pub proof fn lemma_end_sweep_wf(m: EngineModel, now: u64)
    requires
        wf(m),
        m.start_time <= now,
    ensures
        wf(end_sweep_step(m, now)),
        end_sweep_step(m, now).records == m.records,
        end_sweep_step(m, now).churn_rows == m.churn_rows,
{
    lemma_global_count_bounds(m.records);
}

/// The terminal flush preserves well-formedness, and afterwards the churn
/// stream holds exactly one row per record.
pub proof fn lemma_finalize_wf(m: EngineModel)
    requires
        wf(m),
        !m.finalized,
    ensures
        wf(finalize_step(m)),
        finalize_step(m).churn_rows.len() == m.records.len(),
{
    let m2 = finalize_step(m);
    lemma_terminal_rows_len(m.records);
    lemma_count_emitted_bounds(m.records);
    assert forall|j: int| 0 <= j < m.records.len() implies rows_with_id(
        m2.churn_rows,
        (#[trigger] m.records[j]).id,
    ) == 1int by {
        lemma_rows_with_id_concat(m.churn_rows, terminal_rows(m.records), m.records[j].id);
        lemma_terminal_rows_id(m.records, m.records[j].id);
        lemma_count_pending_unique(m.records, j);
    }
}

/// An uncancelled sweep records each probe count as the record's last
/// observation and touches no earlier index.
pub proof fn lemma_sweep_sets_observed(m: EngineModel, counts: Seq<u8>, now: u64, k: int)
    requires
        counts.len() == m.records.len(),
        0 <= k <= counts.len(),
        !m.cancel_requested,
    ensures
        sweep_from(m, counts, now, k).records.len() == m.records.len(),
        !sweep_from(m, counts, now, k).cancel_requested,
        forall|j: int| k <= j < counts.len() ==> (#[trigger] sweep_from(
            m,
            counts,
            now,
            k,
        ).records[j]).last_observed == Some(counts[j]),
        forall|j: int| 0 <= j < k ==> (#[trigger] sweep_from(m, counts, now, k).records[j])
            == m.records[j],
    decreases counts.len() - k,
{
    if k < counts.len() {
        lemma_sweep_sets_observed(probe_step(m, k, counts[k], now), counts, now, k + 1);
    }
}

/// A sweep whose every probe count equals the record's last observation
/// appends no decay row: no change means no write.
pub proof fn lemma_sweep_no_observation_change(m: EngineModel, counts: Seq<u8>, now: u64, k: int)
    requires
        counts.len() == m.records.len(),
        0 <= k <= counts.len(),
        forall|j: int| k <= j < counts.len() ==> (#[trigger] m.records[j]).last_observed == Some(
            counts[j],
        ),
    ensures
        sweep_from(m, counts, now, k).decay_rows == m.decay_rows,
    decreases counts.len() - k,
{
    if k < counts.len() && !m.cancel_requested {
        lemma_sweep_no_observation_change(probe_step(m, k, counts[k], now), counts, now, k + 1);
    }
}

/// The model of a freshly constructed engine.
pub open spec fn initial_model(
    config: Config,
    records: Seq<RecordModel>,
    start_time: u64,
) -> EngineModel {
    EngineModel {
        config,
        records,
        start_time,
        sweep_index: 0,
        churned_count: 0,
        cancel_requested: false,
        terminated: false,
        finalized: false,
        churn_rows: Seq::<ChurnRowModel>::empty(),
        decay_rows: Seq::<DecayRowModel>::empty(),
        global_rows: Seq::<GlobalRow>::empty(),
        last_recorded_global: None,
    }
}

} // verus!
