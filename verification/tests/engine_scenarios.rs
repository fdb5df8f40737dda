use dht_churn::config::Config;
use dht_churn::engine::ChurnEngine;
use dht_churn::record::PublishedKey;
use dht_churn::rows::StopReason;

fn test_config() -> Config {
    Config {
        stop_num: 9,
        stop_den: 10,
        max_duration_s: 1_000_000,
        recovery_enabled: true,
        shuffle_enabled: false,
        num_records: 10,
        ttl_s: 604_800,
        sleep_duration_ms: 0,
        sweep_pause_s: 0,
        threads: 1,
    }
}

fn make_records(n: usize, published_at: u64) -> Vec<PublishedKey> {
    let mut records = Vec::new();
    for i in 0..n {
        let id = vec![i as u8; 32];
        records.push(PublishedKey::new(id, published_at));
    }
    records
}

#[test]
fn half_churn_after_second_sweep() {
    let records = make_records(10, 1000);
    let mut engine = ChurnEngine::new(test_config(), records, 1000);

    let sweep1: Vec<u8> = vec![3; 10];
    engine.run_sweep(&sweep1, 1060);
    assert_eq!(engine.end_sweep(1060), None);
    assert_eq!(engine.churned_count(), 0);

    let sweep2: Vec<u8> = vec![0, 0, 0, 0, 0, 3, 3, 3, 3, 3];
    engine.run_sweep(&sweep2, 1120);
    assert_eq!(engine.churned_count(), 5);
    // churn fraction is exactly one half
    assert_eq!(engine.churned_count() as usize * 2, engine.working_set_size());

    let rows = engine.churn_rows();
    assert_eq!(rows.len(), 5);
    for (i, row) in rows.iter().enumerate() {
        assert_eq!(row.record_id, vec![i as u8; 32]);
        // elapsed time between publish and the churning probe of sweep 2
        assert_eq!(row.time_s, 120);
    }
    for i in 0..5 {
        assert!(engine.records()[i].is_churned());
    }
    for i in 5..10 {
        assert!(!engine.records()[i].is_churned());
    }
}

#[test]
fn stop_fraction_crossing_terminates_and_pads_rows() {
    let mut config = test_config();
    config.num_records = 20;
    let records = make_records(20, 1000);
    let mut engine = ChurnEngine::new(config, records, 1000);

    let mut counts: Vec<u8> = vec![0; 18];
    counts.push(4);
    counts.push(4);
    engine.run_sweep(&counts, 1300);
    assert_eq!(engine.churned_count(), 18);
    // 18/20 >= 9/10: the sweep that crosses the threshold stops the loop.
    assert_eq!(engine.end_sweep(1300), Some(StopReason::FractionReached));
    assert!(engine.is_terminated());

    engine.finalize();
    let rows = engine.churn_rows();
    assert_eq!(rows.len(), 20);
    let zero_rows: Vec<_> = rows.iter().filter(|r| r.time_s == 0).collect();
    assert_eq!(zero_rows.len(), 2);
    assert_eq!(zero_rows[0].record_id, vec![18u8; 32]);
    assert_eq!(zero_rows[1].record_id, vec![19u8; 32]);
}

#[test]
fn zero_max_duration_stops_after_one_sweep() {
    let mut config = test_config();
    config.max_duration_s = 0;
    let records = make_records(10, 1000);
    let mut engine = ChurnEngine::new(config, records, 1000);

    let counts: Vec<u8> = vec![3; 10];
    engine.run_sweep(&counts, 1000);
    // No churn at all, yet the engine stops after the very first sweep.
    assert_eq!(engine.end_sweep(1000), Some(StopReason::MaxDurationReached));

    engine.finalize();
    let rows = engine.churn_rows();
    assert_eq!(rows.len(), 10);
    for row in rows.iter() {
        assert_eq!(row.time_s, 0);
    }
}

#[test]
fn cancellation_mid_sweep_still_flushes_every_record() {
    let records = make_records(10, 1000);
    let mut engine = ChurnEngine::new(test_config(), records, 1000);

    // The driving loop probes the first five records, then sees the
    // cancellation flag at the top of the sixth iteration and aborts.
    for i in 0..5 {
        assert!(!engine.cancel_requested());
        engine.record_probe(i, 0, 1100);
    }
    engine.request_cancel();
    assert!(engine.cancel_requested());

    assert_eq!(engine.end_sweep(1100), Some(StopReason::Cancelled));
    engine.finalize();

    let rows = engine.churn_rows();
    assert_eq!(rows.len(), 10);
    let churned: Vec<_> = rows.iter().filter(|r| r.time_s == 100).collect();
    let defaulted: Vec<_> = rows.iter().filter(|r| r.time_s == 0).collect();
    assert_eq!(churned.len(), 5);
    assert_eq!(defaulted.len(), 5);
}

#[test]
fn stable_network_second_sweep_writes_no_decay_rows() {
    let records = make_records(4, 1000);
    let mut engine = ChurnEngine::new(test_config(), records, 1000);

    let counts: Vec<u8> = vec![5, 4, 3, 2];
    engine.run_sweep(&counts, 1050);
    // The first sweep observes every record for the first time.
    assert_eq!(engine.decay_rows().len(), 4);
    assert_eq!(engine.end_sweep(1050), None);

    engine.run_sweep(&counts, 1100);
    // No change anywhere: not a single new row.
    assert_eq!(engine.decay_rows().len(), 4);
}

#[test]
fn decay_rows_written_only_on_change() {
    let records = make_records(2, 1000);
    let mut engine = ChurnEngine::new(test_config(), records, 1000);

    engine.record_probe(0, 7, 1010);
    engine.record_probe(1, 7, 1010);
    engine.record_probe(0, 7, 1020);
    engine.record_probe(1, 6, 1020);
    let rows = engine.decay_rows();
    assert_eq!(rows.len(), 3);
    assert_eq!(rows[0].timestamp_s, 10);
    assert_eq!(rows[0].nodes_count, 7);
    assert_eq!(rows[2].timestamp_s, 20);
    assert_eq!(rows[2].record_id, vec![1u8; 32]);
    assert_eq!(rows[2].nodes_count, 6);
}

#[test]
fn global_rows_record_only_decreases_below_last_sample() {
    let records = make_records(2, 1000);
    let mut engine = ChurnEngine::new(test_config(), records, 1000);

    // sweep 1: total 6; only sets the baseline.
    engine.run_sweep(&vec![3, 3], 1010);
    assert_eq!(engine.end_sweep(1010), None);
    assert_eq!(engine.global_rows().len(), 0);

    // sweep 2: total 4 < 6; recorded.
    engine.run_sweep(&vec![2, 2], 1020);
    assert_eq!(engine.end_sweep(1020), None);
    assert_eq!(engine.global_rows().len(), 1);
    assert_eq!(engine.global_rows()[0].node_count, 4);
    assert_eq!(engine.global_rows()[0].timestamp_s, 20);

    // sweep 3: total 6 again; above the last sample, not recorded.
    engine.run_sweep(&vec![3, 3], 1030);
    assert_eq!(engine.end_sweep(1030), None);
    assert_eq!(engine.global_rows().len(), 1);

    // sweep 4: total 2 < 4; recorded, strictly below the previous sample.
    engine.run_sweep(&vec![1, 1], 1040);
    assert_eq!(engine.end_sweep(1040), None);
    let rows = engine.global_rows();
    assert_eq!(rows.len(), 2);
    assert!(rows[1].node_count < rows[0].node_count);
    assert_eq!(rows[1].node_count, 2);
}

#[test]
fn recovery_clears_marker_but_keeps_first_churn_event() {
    let records = make_records(1, 1000);
    let mut engine = ChurnEngine::new(test_config(), records, 1000);

    engine.record_probe(0, 0, 1100);
    assert_eq!(engine.churned_count(), 1);
    assert_eq!(engine.churn_rows().len(), 1);
    assert_eq!(engine.churn_rows()[0].time_s, 100);

    // The record resolves again: with recovery enabled the marker clears,
    // but the single churn event stays (first churn wins).
    engine.record_probe(0, 2, 1200);
    assert_eq!(engine.churned_count(), 0);
    assert!(!engine.records()[0].is_churned());
    assert_eq!(engine.churn_rows().len(), 1);

    // Churning again emits no second event.
    engine.record_probe(0, 0, 1300);
    assert_eq!(engine.churned_count(), 1);
    assert_eq!(engine.churn_rows().len(), 1);
    engine.finalize();
    assert_eq!(engine.churn_rows().len(), 1);
}

#[test]
fn without_recovery_a_churned_record_stays_churned() {
    let mut config = test_config();
    config.recovery_enabled = false;
    let records = make_records(1, 1000);
    let mut engine = ChurnEngine::new(config, records, 1000);

    engine.record_probe(0, 0, 1100);
    assert!(engine.records()[0].is_churned());
    engine.record_probe(0, 5, 1200);
    assert!(engine.records()[0].is_churned());
    assert_eq!(engine.churned_count(), 1);
}

#[test]
fn positive_count_never_churns_a_record() {
    let records = make_records(3, 1000);
    let mut engine = ChurnEngine::new(test_config(), records, 1000);
    engine.record_probe(0, 1, 1050);
    engine.record_probe(1, 255, 1050);
    engine.record_probe(2, 3, 1050);
    assert_eq!(engine.churned_count(), 0);
    for rec in engine.records().iter() {
        assert!(!rec.is_churned());
    }
    assert_eq!(engine.churn_rows().len(), 0);
}

#[test]
fn churn_time_is_elapsed_since_publish() {
    let records = make_records(1, 500);
    let mut engine = ChurnEngine::new(test_config(), records, 700);
    engine.record_probe(0, 0, 1234);
    assert_eq!(engine.churn_rows()[0].time_s, 734);
}

#[test]
fn empty_working_set_stops_at_first_boundary() {
    let records = make_records(0, 1000);
    let mut engine = ChurnEngine::new(test_config(), records, 1000);
    engine.run_sweep(&Vec::new(), 1000);
    // 0 * stop_den >= stop_num * 0 holds, so an empty working set stops at
    // the first sweep boundary.
    assert_eq!(engine.end_sweep(1000), Some(StopReason::FractionReached));
    engine.finalize();
    assert_eq!(engine.churn_rows().len(), 0);
}

#[test]
fn shuffle_keeps_exactly_the_same_records() {
    let records = make_records(16, 1000);
    let mut engine = ChurnEngine::new(test_config(), records, 1000);
    engine.record_probe(0, 0, 1100);
    assert_eq!(engine.churned_count(), 1);

    engine.shuffle_working_set();
    assert_eq!(engine.working_set_size(), 16);
    assert_eq!(engine.churned_count(), 1);

    let mut seen: Vec<u8> = engine.records().iter().map(|r| r.record_id[0]).collect();
    seen.sort();
    let expected: Vec<u8> = (0..16u8).collect();
    assert_eq!(seen, expected);

    // The engine keeps working on the reshuffled set.
    let counts: Vec<u8> = vec![2; 16];
    engine.run_sweep(&counts, 1200);
    assert_eq!(engine.end_sweep(1200), None);
}

#[test]
fn cancellation_outranks_other_stop_reasons() {
    let mut config = test_config();
    config.max_duration_s = 0;
    let records = make_records(2, 1000);
    let mut engine = ChurnEngine::new(config, records, 1000);
    // Both the stop fraction and the duration ceiling are met, but a
    // requested cancellation is what the boundary reports.
    engine.run_sweep(&vec![0, 0], 1500);
    engine.request_cancel();
    assert_eq!(engine.end_sweep(1500), Some(StopReason::Cancelled));
}

#[test]
fn sweep_counter_advances_per_boundary() {
    let records = make_records(1, 1000);
    let mut engine = ChurnEngine::new(test_config(), records, 1000);
    assert_eq!(engine.sweep_index(), 0);
    engine.run_sweep(&vec![1], 1010);
    engine.end_sweep(1010);
    assert_eq!(engine.sweep_index(), 1);
    engine.run_sweep(&vec![1], 1020);
    engine.end_sweep(1020);
    assert_eq!(engine.sweep_index(), 2);
}
