use fncache::backends::memory::{MemoryBackend, MemoryBackendConfig};
use fncache::backends::CacheBackend;
use fncache::error::Error;

fn backend_with(max_capacity: usize, policy: &str) -> MemoryBackend {
    MemoryBackend::with_config(MemoryBackendConfig {
        max_capacity,
        eviction_policy: policy.to_string(),
    })
}

fn k(n: u32) -> String {
    n.to_string()
}

#[test]
fn ttl_boundary_is_exact() {
    let mut b = MemoryBackend::new();
    b.set_at("t".to_string(), vec![1], Some(100), 1_000);
    assert_eq!(b.get_at(&"t".to_string(), 1_099), Some(vec![1]));
    assert_eq!(b.get_at(&"t".to_string(), 1_100), None);
    // the expired entry was swept out and counted as an eviction
    assert_eq!(b.get_store_len(), 0);
    assert_eq!(b.metrics().evictions(), 1);
    assert_eq!(b.metrics().entry_count(), 0);
    assert_eq!(b.metrics().total_bytes(), 0);
}

#[test]
fn ttl_beyond_the_clock_never_expires() {
    let mut b = MemoryBackend::new();
    b.set_at("t".to_string(), vec![1], Some(u64::MAX), 10);
    assert_eq!(b.get_at(&"t".to_string(), u64::MAX), Some(vec![1]));
}

#[test]
fn capacity_holds_after_every_set() {
    for policy in ["lru", "lfu"] {
        let mut b = backend_with(3, policy);
        for i in 0..20u32 {
            b.set(k(i % 7), vec![i as u8], None).unwrap();
            assert!(b.get_store_len() <= 3);
        }
    }
}

#[test]
fn capacity_shrunk_afterwards_is_restored_by_the_next_set() {
    let mut b = MemoryBackend::new();
    for i in 0..5u32 {
        b.set(k(i), vec![1], None).unwrap();
    }
    let mut b = b.with_capacity(2);
    assert_eq!(b.get_store_len(), 5);
    b.set(k(9), vec![1], None).unwrap();
    assert!(b.get_store_len() <= 2);
}

#[test]
fn lru_order_scenario() {
    let mut b = backend_with(2, "lru");
    b.set(k(1), vec![1], None).unwrap();
    b.set(k(2), vec![2], None).unwrap();
    b.get(&k(1)).unwrap();
    b.set(k(3), vec![3], None).unwrap();
    assert!(b.contains_key(&k(1)).unwrap());
    assert!(!b.contains_key(&k(2)).unwrap());
    assert!(b.contains_key(&k(3)).unwrap());
}

#[test]
fn lfu_order_scenario() {
    let mut b = backend_with(2, "lfu");
    b.set(k(1), vec![1], None).unwrap();
    b.set(k(2), vec![2], None).unwrap();
    b.get(&k(1)).unwrap();
    b.get(&k(1)).unwrap();
    b.set(k(3), vec![3], None).unwrap();
    assert!(!b.contains_key(&k(2)).unwrap());
    assert!(b.contains_key(&k(1)).unwrap());
}

#[test]
fn remove_absent_and_twice() {
    let mut b = MemoryBackend::new();
    b.set("a".to_string(), vec![1], None).unwrap();
    assert!(b.remove(&"missing".to_string()).is_ok());
    assert_eq!(b.get_store_len(), 1);
    assert_eq!(b.metrics().entry_count(), 1);
    b.remove(&"a".to_string()).unwrap();
    b.remove(&"a".to_string()).unwrap();
    assert_eq!(b.get_store_len(), 0);
    assert_eq!(b.metrics().entry_count(), 0);
    assert_eq!(b.get(&"a".to_string()).unwrap(), None);
}

#[test]
fn overwrite_returns_second_value() {
    let mut b = backend_with(1, "lru");
    b.set("k".to_string(), vec![1, 1], None).unwrap();
    b.set("k".to_string(), vec![2], None).unwrap();
    assert_eq!(b.get(&"k".to_string()).unwrap(), Some(vec![2]));
    assert_eq!(b.get_store_len(), 1);
    assert_eq!(b.metrics().evictions(), 0);
}

#[test]
fn clear_removes_everything() {
    let mut b = backend_with(10, "lfu");
    for i in 0..5u32 {
        b.set(k(i), vec![1], None).unwrap();
    }
    b.clear().unwrap();
    for i in 0..5u32 {
        assert!(!b.contains_key(&k(i)).unwrap());
    }
    assert_eq!(b.metrics().entry_count(), 0);
    assert_eq!(b.metrics().total_bytes(), 0);
    // the policy forgot the old keys too: filling again evicts only new ones
    for i in 10..21u32 {
        b.set(k(i), vec![1], None).unwrap();
    }
    assert_eq!(b.get_store_len(), 10);
    assert_eq!(b.metrics().evictions(), 1);
}

#[test]
fn every_read_counts_once() {
    let mut b = MemoryBackend::new();
    b.set("a".to_string(), vec![1], None).unwrap();
    let reads = ["a", "b", "a", "c", "a"];
    for r in reads {
        b.get(&r.to_string()).unwrap();
    }
    assert_eq!(b.metrics().hits() + b.metrics().misses(), reads.len() as u64);
    assert_eq!(b.metrics().hits(), 3);
}

#[test]
fn hit_rate_of_no_reads_is_zero() {
    let b = MemoryBackend::new();
    let (hits, misses) = (b.metrics().hits(), b.metrics().misses());
    let rate = if hits + misses == 0 { 0.0 } else { hits as f64 / (hits + misses) as f64 };
    assert_eq!(rate, 0.0);
    assert!(!rate.is_nan());
}

#[test]
fn end_to_end_scenario() {
    let mut b = backend_with(2, "lru");
    b.set("a".to_string(), vec![1], None).unwrap();
    b.set("b".to_string(), vec![2], None).unwrap();
    assert_eq!(b.get(&"a".to_string()).unwrap(), Some(vec![1]));
    b.set("c".to_string(), vec![3], None).unwrap();
    assert!(!b.contains_key(&"b".to_string()).unwrap());
    assert!(b.contains_key(&"a".to_string()).unwrap());
    assert!(b.contains_key(&"c".to_string()).unwrap());
    assert_eq!(b.metrics().evictions(), 1);
}

#[test]
fn contains_key_is_not_an_access() {
    let mut b = backend_with(2, "lru");
    b.set("a".to_string(), vec![1], None).unwrap();
    b.set("b".to_string(), vec![2], None).unwrap();
    assert!(b.contains_key(&"a".to_string()).unwrap());
    b.set("c".to_string(), vec![3], None).unwrap();
    assert!(!b.contains_key(&"a".to_string()).unwrap());
    assert_eq!(b.metrics().hits() + b.metrics().misses(), 0);
}

#[test]
fn sizes_use_the_encoded_length() {
    let mut b = MemoryBackend::new();
    b.set("a".to_string(), vec![1, 2, 3], None).unwrap();
    assert_eq!(b.metrics().total_bytes(), 11);
}

#[test]
fn switching_policy_keeps_entries_tracked() {
    let mut b = backend_with(2, "lru");
    b.set("a".to_string(), vec![1], None).unwrap();
    b.set("b".to_string(), vec![2], None).unwrap();
    let mut b = b.with_eviction_policy("lfu");
    b.get(&"a".to_string()).unwrap();
    b.set("c".to_string(), vec![3], None).unwrap();
    assert!(b.contains_key(&"a".to_string()).unwrap());
    assert!(!b.contains_key(&"b".to_string()).unwrap());
}

#[test]
fn error_constructors() {
    assert_eq!(Error::backend("disk".to_string()), Error::Backend("disk".to_string()));
    assert_eq!(Error::other("x".to_string()), Error::Other("x".to_string()));
}

#[test]
fn trimming_over_capacity_evicts_the_lowest_ranked_and_counts_each() {
    let mut b = backend_with(0, "lru");
    for i in 0..5u32 {
        b.set(k(i), vec![1], None).unwrap();
    }
    b.get(&k(0)).unwrap();
    let mut b = b.with_capacity(2);
    // the existing key 4 is rewritten: no displacement, then 3 entries go
    b.set(k(4), vec![2], None).unwrap();
    assert_eq!(b.get_store_len(), 2);
    assert_eq!(b.metrics().evictions(), 3);
    assert_eq!(b.metrics().entry_count(), 2);
    assert_eq!(b.metrics().total_bytes(), 18);
    assert!(b.contains_key(&k(0)).unwrap());
    assert!(b.contains_key(&k(4)).unwrap());
    for i in 1..4u32 {
        assert!(!b.contains_key(&k(i)).unwrap());
    }
}

#[test]
fn compression_level_is_capped() {
    let c = fncache::optimization::Compression::new(u32::MAX);
    let data = vec![3u8; 64];
    let packed = c.compress(&data).unwrap();
    assert_eq!(c.decompress(&packed).unwrap(), data);
}
