use fncache::eviction::{create_policy, ActivePolicy, EvictionPolicy, EvictionResult, LfuPolicy, LruPolicy};

#[test]
fn mod_test_lru_eviction() {
    let mut policy = LruPolicy::new();

    policy.on_insert(&"key1".to_string(), &vec![42u8]);
    policy.on_insert(&"key2".to_string(), &vec![43u8]);
    policy.on_insert(&"key3".to_string(), &vec![44u8]);

    <LruPolicy as EvictionPolicy<String, Vec<u8>>>::on_access(&mut policy, &"key1".to_string());

    let result: EvictionResult<String> =
        <LruPolicy as EvictionPolicy<String, Vec<u8>>>::evict(&mut policy, 1);
    assert_eq!(result.keys_to_evict.len(), 1);
    assert!(
        result.keys_to_evict.contains(&"key2".to_string())
            || result.keys_to_evict.contains(&"key3".to_string())
    );
}

#[test]
fn mod_test_lfu_eviction() {
    let mut policy = LfuPolicy::new();

    policy.on_insert(&"key1".to_string(), &vec![42u8]);
    policy.on_insert(&"key2".to_string(), &vec![43u8]);
    policy.on_insert(&"key3".to_string(), &vec![44u8]);

    <LfuPolicy as EvictionPolicy<String, Vec<u8>>>::on_access(&mut policy, &"key1".to_string());
    <LfuPolicy as EvictionPolicy<String, Vec<u8>>>::on_access(&mut policy, &"key3".to_string());

    let result: EvictionResult<String> =
        <LfuPolicy as EvictionPolicy<String, Vec<u8>>>::evict(&mut policy, 1);
    assert_eq!(result.keys_to_evict.len(), 1);
    assert_eq!(result.keys_to_evict[0], "key2".to_string());
}

#[test]
fn lru_evicts_oldest_first_in_order() {
    let mut policy = LruPolicy::new();
    for k in ["a", "b", "c", "d"] {
        policy.on_insert(&k.to_string(), &Vec::new());
    }
    <LruPolicy as EvictionPolicy<String, Vec<u8>>>::on_access(&mut policy, &"a".to_string());
    let r = <LruPolicy as EvictionPolicy<String, Vec<u8>>>::evict(&mut policy, 3);
    assert_eq!(r.keys_to_evict, vec!["b".to_string(), "c".to_string(), "d".to_string()]);
    // a key already chosen is never handed out again
    let r = <LruPolicy as EvictionPolicy<String, Vec<u8>>>::evict(&mut policy, 3);
    assert_eq!(r.keys_to_evict, vec!["a".to_string()]);
}

#[test]
fn lru_access_of_untracked_key_is_ignored() {
    let mut policy = LruPolicy::new();
    <LruPolicy as EvictionPolicy<String, Vec<u8>>>::on_access(&mut policy, &"ghost".to_string());
    let r = <LruPolicy as EvictionPolicy<String, Vec<u8>>>::evict(&mut policy, 1);
    assert!(r.keys_to_evict.is_empty());
}

#[test]
fn lfu_evict_zero_and_empty_give_nothing() {
    let mut policy = LfuPolicy::new();
    let r = <LfuPolicy as EvictionPolicy<String, Vec<u8>>>::evict(&mut policy, 2);
    assert!(r.keys_to_evict.is_empty());
    policy.on_insert(&"k".to_string(), &Vec::new());
    let r = <LfuPolicy as EvictionPolicy<String, Vec<u8>>>::evict(&mut policy, 0);
    assert!(r.keys_to_evict.is_empty());
    let r = <LfuPolicy as EvictionPolicy<String, Vec<u8>>>::evict(&mut policy, 5);
    assert_eq!(r.keys_to_evict, vec!["k".to_string()]);
}

#[test]
fn lfu_access_counts_and_remove_forgets() {
    let mut policy = LfuPolicy::new();
    policy.on_insert(&"x".to_string(), &Vec::new());
    policy.on_insert(&"y".to_string(), &Vec::new());
    <LfuPolicy as EvictionPolicy<String, Vec<u8>>>::on_access(&mut policy, &"x".to_string());
    <LfuPolicy as EvictionPolicy<String, Vec<u8>>>::on_remove(&mut policy, &"y".to_string());
    let r = <LfuPolicy as EvictionPolicy<String, Vec<u8>>>::evict(&mut policy, 2);
    assert_eq!(r.keys_to_evict, vec!["x".to_string()]);
}

#[test]
fn reset_forgets_every_key() {
    let mut policy = LruPolicy::new();
    policy.on_insert(&"x".to_string(), &Vec::new());
    <LruPolicy as EvictionPolicy<String, Vec<u8>>>::reset(&mut policy);
    let r = <LruPolicy as EvictionPolicy<String, Vec<u8>>>::evict(&mut policy, 1);
    assert!(r.keys_to_evict.is_empty());
}

#[test]
fn create_policy_matches_names_without_case() {
    assert!(matches!(create_policy("lfu"), ActivePolicy::Lfu(_)));
    assert!(matches!(create_policy("LFU"), ActivePolicy::Lfu(_)));
    assert!(matches!(create_policy("lru"), ActivePolicy::Lru(_)));
    assert!(matches!(create_policy("random"), ActivePolicy::Lru(_)));
}
