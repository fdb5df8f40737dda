use dht_churn::config::Config;
use dht_churn::record::PublishedKey;

#[test]
fn new_record_starts_available() {
    let rec = PublishedKey::new(vec![7u8; 32], 42);
    assert_eq!(rec.public_key(), &vec![7u8; 32]);
    assert_eq!(rec.published_at, 42);
    assert!(!rec.is_churned());
    assert_eq!(rec.churn_time, None);
    assert_eq!(rec.last_observed, None);
}

#[test]
fn marking_churned_and_available_round_trips() {
    let mut rec = PublishedKey::new(vec![1u8; 32], 10);
    rec.mark_as_churned(99);
    assert!(rec.is_churned());
    assert_eq!(rec.churned_at, Some(99));
    rec.mark_as_available();
    assert!(!rec.is_churned());
    assert_eq!(rec.churned_at, None);
}

#[test]
fn duplicate_copies_every_field() {
    let mut rec = PublishedKey::new(vec![3u8; 32], 10);
    rec.mark_as_churned(20);
    let copy = rec.duplicate();
    assert_eq!(copy.record_id, rec.record_id);
    assert_eq!(copy.published_at, 10);
    assert_eq!(copy.churned_at, Some(20));
}

#[test]
fn config_validity_bounds_the_stop_fraction() {
    let mut config = Config {
        stop_num: 9,
        stop_den: 10,
        max_duration_s: 3600,
        recovery_enabled: false,
        shuffle_enabled: false,
        num_records: 100,
        ttl_s: 604_800,
        sleep_duration_ms: 1000,
        sweep_pause_s: 60,
        threads: 1,
    };
    assert!(config.is_valid());
    config.stop_den = 0;
    assert!(!config.is_valid());
    config.stop_den = u64::MAX;
    assert!(!config.is_valid());
}
