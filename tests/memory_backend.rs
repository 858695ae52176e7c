use fncache::backends::memory::{MemoryBackend, MemoryBackendConfig};
use fncache::backends::CacheBackend;
use std::time::Duration;

fn backend_with(max_capacity: usize, policy: &str) -> MemoryBackend {
    MemoryBackend::with_config(MemoryBackendConfig {
        max_capacity,
        eviction_policy: policy.to_string(),
    })
}

#[test]
fn memory_test_get_set() {
    let mut backend = MemoryBackend::new();
    let key = "test_key".to_string();
    let value = b"test_value".to_vec();

    backend.set(key.clone(), value.clone(), None).unwrap();
    let result = backend.get(&key).unwrap();
    assert_eq!(result, Some(value));
}

#[test]
fn memory_test_ttl() {
    let mut backend = MemoryBackend::new();
    let key = "test_ttl".to_string();
    let value = b"test_value".to_vec();

    // the clock is given explicitly: 100 ms of life, read at 0 ms and at 150 ms
    backend.set_at(key.clone(), value, Some(Duration::from_millis(100).as_nanos() as u64), 0);
    assert!(backend.get_at(&key, 0).is_some());
    assert!(backend.get_at(&key, Duration::from_millis(150).as_nanos() as u64).is_none());
}

#[test]
fn memory_test_metrics() {
    let mut backend = MemoryBackend::new();
    let key = "test_metrics".to_string();
    let value = b"test_value".to_vec();

    assert_eq!(backend.metrics().hits(), 0);
    assert_eq!(backend.metrics().misses(), 0);

    assert!(backend.get(&key).unwrap().is_none());
    assert_eq!(backend.metrics().misses(), 1);

    backend.set(key.clone(), value, None).unwrap();
    assert!(backend.get(&key).unwrap().is_some());
    assert_eq!(backend.metrics().hits(), 1);
}

#[test]
fn test_lru_eviction_with_capacity_limit() {
    let mut backend = backend_with(2, "lru");

    backend.set("key1".to_string(), vec![1, 2, 3], None).unwrap();
    backend.set("key2".to_string(), vec![4, 5, 6], None).unwrap();

    backend.get(&"key1".to_string()).unwrap();

    backend.set("key3".to_string(), vec![7, 8, 9], None).unwrap();

    assert!(backend.contains_key(&"key1".to_string()).unwrap());
    assert!(!backend.contains_key(&"key2".to_string()).unwrap());
    assert!(backend.contains_key(&"key3".to_string()).unwrap());
}

#[test]
fn test_lfu_eviction_with_capacity_limit() {
    let mut backend = backend_with(2, "lfu");

    backend.set("key1".to_string(), vec![1, 2, 3], None).unwrap();

    backend.get(&"key1".to_string()).unwrap();
    backend.get(&"key1".to_string()).unwrap();

    backend.set("key2".to_string(), vec![4, 5, 6], None).unwrap();
    backend.set("key3".to_string(), vec![7, 8, 9], None).unwrap();

    let store_len = backend.get_store_len();

    assert_eq!(
        store_len, 2,
        "Cache should have exactly 2 items, found {}",
        store_len
    );

    assert!(backend.contains_key(&"key1".to_string()).unwrap());
    assert!(!backend.contains_key(&"key2".to_string()).unwrap());
    assert!(backend.contains_key(&"key3".to_string()).unwrap());
}

#[test]
fn test_eviction_policy_change() {
    let mut backend = backend_with(2, "lfu");

    backend.set("key1".to_string(), vec![1, 2, 3], None).unwrap();
    backend.set("key2".to_string(), vec![4, 5, 6], None).unwrap();

    backend.get(&"key2".to_string()).unwrap();
    backend.get(&"key2".to_string()).unwrap();

    backend.set("key3".to_string(), vec![7, 8, 9], None).unwrap();

    let store_len = backend.get_store_len();
    assert_eq!(
        store_len, 2,
        "Cache should have exactly 2 items, found {}",
        store_len
    );

    assert!(!backend.contains_key(&"key1".to_string()).unwrap());
    assert!(backend.contains_key(&"key2".to_string()).unwrap());
    assert!(backend.contains_key(&"key3".to_string()).unwrap());
}

#[test]
fn test_ttl_with_eviction_policy() {
    let mut backend = backend_with(3, "lru");
    let ms = |n: u64| Duration::from_millis(n).as_nanos() as u64;

    backend.set_at("key1".to_string(), vec![1, 2, 3], Some(ms(50)), 0);
    backend.set_at("key2".to_string(), vec![4, 5, 6], Some(ms(150)), 0);
    backend.set_at("key3".to_string(), vec![7, 8, 9], None, 0);

    let now = ms(75);

    assert!(!backend.contains_key_at(&"key1".to_string(), now));
    assert!(backend.contains_key_at(&"key2".to_string(), now));
    assert!(backend.contains_key_at(&"key3".to_string(), now));

    backend.set_at("key4".to_string(), vec![10, 11, 12], None, now);

    assert!(!backend.contains_key_at(&"key1".to_string(), now));
    assert!(backend.contains_key_at(&"key2".to_string(), now));
    assert!(backend.contains_key_at(&"key3".to_string(), now));
    assert!(backend.contains_key_at(&"key4".to_string(), now));
}

#[test]
fn test_thread_safe_lru_eviction() {
    let mut backend = backend_with(2, "lru");

    backend.clear().unwrap();

    let key1 = "key1".to_string();
    let key2 = "key2".to_string();
    let key3 = "key3".to_string();
    let val1 = vec![1, 2, 3];
    let val2 = vec![4, 5, 6];
    let val3 = vec![7, 8, 9];

    backend.set(key1.clone(), val1.clone(), None).unwrap();
    backend.set(key2.clone(), val2.clone(), None).unwrap();

    let result1 = backend.get(&key1).unwrap().unwrap();
    let result2 = backend.get(&key2).unwrap().unwrap();
    assert_eq!(result1, val1);
    assert_eq!(result2, val2);

    let _ = backend.get(&key1).unwrap();

    backend.set(key3.clone(), val3.clone(), None).unwrap();

    let result1_again = backend.get(&key1).unwrap();
    assert!(result1_again.is_some(), "Key1 should still be in cache");
    assert_eq!(result1_again.unwrap(), val1);
    let result3 = backend.get(&key3).unwrap();
    assert!(result3.is_some(), "Key3 should be in cache");
    assert_eq!(result3.unwrap(), val3);

    let result2_again = backend.get(&key2).unwrap();
    assert!(result2_again.is_none(), "Key2 should have been evicted");
}

#[test]
fn test_thread_safe_lfu_eviction() {
    let mut backend = backend_with(2, "lfu");

    backend.clear().unwrap();

    let key1 = "key1".to_string();
    let key2 = "key2".to_string();
    let key3 = "key3".to_string();
    let val1 = vec![1, 2, 3];
    let val2 = vec![4, 5, 6];
    let val3 = vec![7, 8, 9];

    backend.set(key1.clone(), val1.clone(), None).unwrap();
    backend.set(key2.clone(), val2.clone(), None).unwrap();

    let result1 = backend.get(&key1).unwrap().unwrap();
    let result2 = backend.get(&key2).unwrap().unwrap();
    assert_eq!(result1, val1);
    assert_eq!(result2, val2);

    let _ = backend.get(&key2).unwrap();
    let _ = backend.get(&key2).unwrap();

    backend.set(key3.clone(), val3.clone(), None).unwrap();

    let result2_again = backend.get(&key2).unwrap();
    assert!(result2_again.is_some(), "Key2 should still be in cache");
    assert_eq!(result2_again.unwrap(), val2);
    let result3 = backend.get(&key3).unwrap();
    assert!(result3.is_some(), "Key3 should be in cache");
    assert_eq!(result3.unwrap(), val3);

    let result1_again = backend.get(&key1).unwrap();
    assert!(result1_again.is_none(), "Key1 should have been evicted");
}

#[test]
fn test_advanced_metrics() {
    let mut backend = backend_with(10, "lru");

    let metrics = backend.metrics();
    assert_eq!(metrics.entry_count(), 0);
    assert_eq!(metrics.total_bytes(), 0);

    backend.set("key1".to_string(), vec![1, 2, 3], None).unwrap();
    backend.set("key2".to_string(), vec![4, 5, 6], None).unwrap();

    let metrics = backend.metrics();
    assert_eq!(metrics.entry_count(), 2);
    assert!(metrics.total_bytes() > 0, "Total bytes should be non-zero");
    assert!(
        metrics.average_entry_size() > 0,
        "Average entry size should be non-zero"
    );

    assert_eq!(metrics.get_latency().count, 0);
    assert!(metrics.set_latency().count >= 2);

    let _value = backend.get(&"key1".to_string()).unwrap();

    let metrics = backend.metrics();
    assert_eq!(metrics.get_latency().count, 1);

    backend.set("key3".to_string(), vec![7, 8, 9], None).unwrap();

    let metrics = backend.metrics();
    assert_eq!(metrics.entry_count(), 3);

    for i in 4..12 {
        backend.set(format!("key{}", i), vec![i as u8], None).unwrap();
    }

    let metrics = backend.metrics();
    assert!(metrics.evictions() > 0, "Should have evictions");
    assert_eq!(metrics.entry_count(), 10); // Should be at max capacity
}

#[test]
fn test_metrics_size_tracking() {
    let mut backend = MemoryBackend::default();

    backend.set("size_key".to_string(), vec![1, 2, 3, 4, 5], None).unwrap();

    let initial_size = backend.metrics().total_bytes();
    assert!(initial_size > 0, "Initial size should be non-zero");

    backend
        .set("size_key".to_string(), vec![1, 2, 3, 4, 5, 6, 7, 8, 9, 10], None)
        .unwrap();

    let new_size = backend.metrics().total_bytes();
    assert!(
        new_size > initial_size,
        "New size should be larger than initial size"
    );
    assert_eq!(backend.metrics().entry_count(), 1, "Entry count should remain 1");

    backend.remove(&"size_key".to_string()).unwrap();

    assert_eq!(
        backend.metrics().total_bytes(),
        0,
        "Total bytes should be zero after removal"
    );
    assert_eq!(
        backend.metrics().entry_count(),
        0,
        "Entry count should be zero after removal"
    );
}
