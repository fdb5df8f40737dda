//! The engine's run-level guarantees, stated and proved over the model.

use vstd::prelude::*;

use crate::model::{
    finalize_step, lemma_count_churned_bounds, lemma_finalize_wf, lemma_sweep_no_observation_change,
    lemma_sweep_sets_observed, probe_step, rows_with_id, sweep_steps, wf, EngineModel,
};

verus! {

/// In every well-formed run state — in particular at every sweep boundary —
/// the number of churned records never exceeds the size of the working set.
pub proof fn lemma_churned_count_bounded(m: EngineModel)
    requires
        wf(m),
    ensures
        0 <= m.churned_count <= m.records.len(),
{
    lemma_count_churned_bounds(m.records);
}

/// A record transitions to churned exactly on a probe that returned zero
/// storing nodes: a zero count always leaves the record churned, as of that
/// probe's completion time if it was available before; a positive count never
/// marks a record churned — it clears the marker when recovery is enabled and
/// otherwise leaves the churned state untouched.
pub proof fn lemma_churned_iff_zero_probe(m: EngineModel, i: int, count: u8, now: u64)
    requires
        0 <= i < m.records.len(),
    ensures
        count == 0 ==> probe_step(m, i, count, now).records[i].churned_at.is_some(),
        count == 0 && m.records[i].churned_at.is_none() ==> probe_step(
            m,
            i,
            count,
            now,
        ).records[i].churned_at == Some(now),
        count > 0 && m.config.recovery_enabled ==> probe_step(
            m,
            i,
            count,
            now,
        ).records[i].churned_at.is_none(),
        count > 0 && !m.config.recovery_enabled ==> probe_step(
            m,
            i,
            count,
            now,
        ).records[i].churned_at == m.records[i].churned_at,
        count > 0 ==> !(m.records[i].churned_at.is_none() && probe_step(
            m,
            i,
            count,
            now,
        ).records[i].churned_at.is_some()),
{
}

/// After the terminal flush the churn stream holds exactly one row per
/// record of the working set: no record omitted, none duplicated.
pub proof fn lemma_terminal_flush_covers_working_set(m: EngineModel)
    requires
        wf(m),
        !m.finalized,
    ensures
        finalize_step(m).churn_rows.len() == m.records.len(),
        forall|j: int| 0 <= j < m.records.len() ==> rows_with_id(
            finalize_step(m).churn_rows,
            (#[trigger] m.records[j]).id,
        ) == 1,
{
    lemma_finalize_wf(m);
}

/// Global decay samples are strictly decreasing in their node count, in the
/// order they were recorded.
pub proof fn lemma_global_rows_strictly_decreasing(m: EngineModel, i: int, j: int)
    requires
        wf(m),
        0 <= i < j < m.global_rows.len(),
    ensures
        m.global_rows[j].node_count < m.global_rows[i].node_count,
{
}

/// One sweep is idempotent on a stable network: a second sweep that probes
/// the very counts the first one recorded appends nothing to the decay
/// stream — no change means no write.
pub proof fn lemma_stable_sweep_writes_no_decay(
    m: EngineModel,
    counts: Seq<u8>,
    t1: u64,
    t2: u64,
)
    requires
        counts.len() == m.records.len(),
    ensures
        sweep_steps(sweep_steps(m, counts, t1), counts, t2).decay_rows == sweep_steps(
            m,
            counts,
            t1,
        ).decay_rows,
{
    let m1 = sweep_steps(m, counts, t1);
    if m.cancel_requested {
        assert(m1 == m);
    } else {
        lemma_sweep_sets_observed(m, counts, t1, 0);
        lemma_sweep_no_observation_change(m1, counts, t2, 0);
    }
}

} // verus!
