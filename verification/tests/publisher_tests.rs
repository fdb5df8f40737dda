use dht_churn::publisher::{
    ids_distinct, merge_batches, partition_records, shard_counts, Publisher,
};
use dht_churn::record::PublishedKey;
use dht_churn::sampling::{random_record_index, sample_index};

fn make_records(n: usize) -> Vec<PublishedKey> {
    let mut records = Vec::new();
    for i in 0..n {
        records.push(PublishedKey::new(vec![i as u8; 32], 1000));
    }
    records
}

#[test]
fn publisher_accounts_for_every_attempt() {
    let mut p = Publisher::new(4);
    assert!(!p.is_done());
    p.record_success(vec![1u8; 32], 100);
    p.record_failure();
    p.record_success(vec![2u8; 32], 120);
    p.record_failure();
    assert!(p.is_done());
    assert_eq!(p.attempted, 4);
    assert_eq!(p.failed, 2);
    let records = p.into_records();
    assert_eq!(records.len(), 2);
    assert_eq!(records[0].record_id, vec![1u8; 32]);
    assert_eq!(records[0].published_at, 100);
    assert!(!records[0].is_churned());
    assert_eq!(records[1].record_id, vec![2u8; 32]);
}

#[test]
fn publisher_never_produces_more_than_requested() {
    let mut p = Publisher::new(3);
    p.record_success(vec![1u8; 32], 1);
    p.record_success(vec![2u8; 32], 2);
    p.record_success(vec![3u8; 32], 3);
    let records = p.into_records();
    assert!(records.len() <= 3);
    assert_eq!(records.len(), 3);
}

#[test]
fn shard_counts_cover_the_requested_total() {
    let shards = shard_counts(10, 3);
    assert_eq!(shards, vec![4, 3, 3]);
    let shards = shard_counts(5, 5);
    assert_eq!(shards, vec![1, 1, 1, 1, 1]);
    let shards = shard_counts(3, 5);
    assert_eq!(shards.iter().sum::<usize>(), 3);
    assert_eq!(shards.len(), 5);
    let shards = shard_counts(0, 4);
    assert_eq!(shards, vec![0, 0, 0, 0]);
    let shards = shard_counts(1024, 1);
    assert_eq!(shards, vec![1024]);
}

#[test]
fn partition_preserves_order_and_records() {
    let records = make_records(5);
    let chunks = partition_records(records, 2);
    assert_eq!(chunks.len(), 3);
    assert_eq!(chunks[0].len(), 2);
    assert_eq!(chunks[1].len(), 2);
    assert_eq!(chunks[2].len(), 1);
    let mut flat = Vec::new();
    for chunk in &chunks {
        for rec in chunk {
            flat.push(rec.record_id[0]);
        }
    }
    assert_eq!(flat, vec![0, 1, 2, 3, 4]);
}

#[test]
fn partition_with_more_threads_than_records() {
    let records = make_records(2);
    let chunks = partition_records(records, 8);
    assert_eq!(chunks.len(), 2);
    for chunk in &chunks {
        assert_eq!(chunk.len(), 1);
    }
}

#[test]
fn merge_batches_concatenates_in_worker_order() {
    let records = make_records(5);
    let chunks = partition_records(records, 2);
    let merged = merge_batches(&chunks);
    assert_eq!(merged.len(), 5);
    for (i, rec) in merged.iter().enumerate() {
        assert_eq!(rec.record_id, vec![i as u8; 32]);
    }
}

#[test]
fn distinct_ids_detects_a_duplicate() {
    let mut records = make_records(3);
    assert!(ids_distinct(&records));
    records.push(PublishedKey::new(vec![1u8; 32], 1000));
    assert!(!ids_distinct(&records));
}

#[test]
fn sample_index_reduces_modulo_len() {
    assert_eq!(sample_index(7, 3), 1);
    assert_eq!(sample_index(9, 3), 0);
    assert_eq!(sample_index(0, 5), 0);
    assert_eq!(sample_index(u64::MAX, 2), 1);
}

#[test]
fn random_record_index_is_in_range() {
    for _ in 0..32 {
        if let Some(i) = random_record_index(4) {
            assert!(i < 4);
        }
    }
}
