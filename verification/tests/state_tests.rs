use korra::clock::seconds_of;
use korra::state::{StateStore, SNAPSHOT_LIMIT};

#[test]
fn new_store_is_empty() {
    let store = StateStore::new();
    assert_eq!(store.size(), 0);
    assert!(store.keys().is_empty());
    assert!(store.snapshot_timestamps().is_empty());
    assert_eq!(store.get("k"), None);
    assert_eq!(SNAPSHOT_LIMIT, 10);
}

#[test]
fn set_then_get() {
    let mut store = StateStore::new();
    store.set("k", b"v");
    assert_eq!(store.get("k"), Some(b"v".to_vec()));
    assert_eq!(store.get("other"), None);
    assert_eq!(store.size(), 1);
}

#[test]
fn set_overwrites() {
    let mut store = StateStore::new();
    store.set("k", b"v1");
    store.set("j", b"w");
    store.set("k", b"v2");
    assert_eq!(store.get("k"), Some(b"v2".to_vec()));
    assert_eq!(store.get("j"), Some(b"w".to_vec()));
    assert_eq!(store.size(), 2);
}

#[test]
fn delete_then_get_is_absent() {
    let mut store = StateStore::new();
    store.set("k", b"v");
    store.set("j", b"w");
    assert!(store.delete("k"));
    assert_eq!(store.get("k"), None);
    assert_eq!(store.get("j"), Some(b"w".to_vec()));
    assert!(!store.delete("k"));
    assert_eq!(store.size(), 1);
}

#[test]
fn delete_of_absent_key_returns_false() {
    let mut store = StateStore::new();
    assert!(!store.delete("nothing"));
}

#[test]
fn keys_lists_each_key_once() {
    let mut store = StateStore::new();
    store.set("b", b"1");
    store.set("a", b"2");
    store.set("b", b"3");
    let mut keys = store.keys();
    keys.sort();
    assert_eq!(keys, vec!["a".to_string(), "b".to_string()]);
}

#[test]
fn clear_removes_values_and_keeps_snapshots() {
    let mut store = StateStore::new();
    store.set("k", b"v");
    store.snapshot_at(5);
    store.clear();
    assert_eq!(store.size(), 0);
    assert_eq!(store.get("k"), None);
    assert_eq!(store.snapshot_timestamps(), vec![5]);
    assert!(store.rollback(5));
    assert_eq!(store.get("k"), Some(b"v".to_vec()));
}

#[test]
fn rollback_restores_the_snapshot() {
    let mut store = StateStore::new();
    store.set("k", b"v1");
    store.snapshot_at(100);
    store.set("k", b"v2");
    store.set("extra", b"x");
    store.snapshot_at(200);
    store.snapshot_at(300);
    assert!(store.rollback(100));
    assert_eq!(store.get("k"), Some(b"v1".to_vec()));
    assert_eq!(store.get("extra"), None);
    assert_eq!(store.snapshot_timestamps(), vec![100]);
    assert!(!store.rollback(200));
    assert!(!store.rollback(300));
}

#[test]
fn rollback_keeps_earlier_snapshots() {
    let mut store = StateStore::new();
    store.snapshot_at(1);
    store.set("k", b"v");
    store.snapshot_at(2);
    store.snapshot_at(3);
    assert!(store.rollback(2));
    assert_eq!(store.snapshot_timestamps(), vec![1, 2]);
    assert!(store.rollback(1));
    assert_eq!(store.get("k"), None);
    assert_eq!(store.snapshot_timestamps(), vec![1]);
}

#[test]
fn rollback_to_unknown_timestamp_changes_nothing() {
    let mut store = StateStore::new();
    store.set("k", b"v");
    store.snapshot_at(1);
    store.set("k", b"w");
    assert!(!store.rollback(2));
    assert_eq!(store.get("k"), Some(b"w".to_vec()));
    assert_eq!(store.snapshot_timestamps(), vec![1]);
}

#[test]
fn rollback_takes_the_oldest_of_equal_timestamps() {
    let mut store = StateStore::new();
    store.set("k", b"first");
    store.snapshot_at(7);
    store.set("k", b"second");
    store.snapshot_at(7);
    assert!(store.rollback(7));
    assert_eq!(store.get("k"), Some(b"first".to_vec()));
    assert_eq!(store.snapshot_timestamps(), vec![7]);
}

#[test]
fn one_snapshot_over_the_limit_evicts_the_oldest() {
    let mut store = StateStore::new();
    for t in 0..=(SNAPSHOT_LIMIT as u64) {
        store.snapshot_at(t);
    }
    let stamps = store.snapshot_timestamps();
    assert_eq!(stamps.len(), SNAPSHOT_LIMIT);
    assert_eq!(stamps, (1..=10).collect::<Vec<u64>>());
    assert!(!store.rollback(0));
}

#[test]
fn snapshots_up_to_the_limit_all_stay() {
    let mut store = StateStore::new();
    for t in 0..10u64 {
        store.snapshot_at(t);
    }
    assert_eq!(store.snapshot_timestamps(), (0..10).collect::<Vec<u64>>());
}

#[test]
fn create_snapshot_returns_its_timestamp() {
    let mut store = StateStore::new();
    store.set("k", b"v1");
    let s1 = store.create_snapshot();
    assert!(s1 > 1_600_000_000);
    assert_eq!(store.snapshot_timestamps(), vec![s1]);
    store.set("k", b"v2");
    assert!(store.rollback(s1));
    assert_eq!(store.get("k"), Some(b"v1".to_vec()));
}

#[test]
fn snapshot_is_a_copy() {
    let mut store = StateStore::new();
    store.set("k", b"v1");
    store.snapshot_at(1);
    store.set("k", b"v2");
    store.delete("k");
    assert!(store.rollback(1));
    assert_eq!(store.get("k"), Some(b"v1".to_vec()));
}

#[test]
fn clock_before_the_epoch_reads_as_zero() {
    assert_eq!(seconds_of(None), 0);
    assert_eq!(seconds_of(Some(0)), 0);
    assert_eq!(seconds_of(Some(1_700_000_000)), 1_700_000_000);
    assert_eq!(seconds_of(Some(u64::MAX)), u64::MAX);
}
