use fncache::backends::memory::MemoryBackend;
use fncache::backends::CacheBackend;
use fncache::invalidation::{CacheInvalidation, InvalidationCache, Tag, TaggedCacheEntry};

fn put(cache: &mut InvalidationCache<MemoryBackend>, key: &str, value: &str, tags: Vec<Tag>) {
    let bytes = bincode::serialize(value).unwrap();
    cache.set_with_tags(key.to_string(), bytes, None, tags).unwrap();
}

fn read(cache: &mut InvalidationCache<MemoryBackend>, key: &str) -> Option<String> {
    cache
        .get(&key.to_string())
        .unwrap()
        .map(|bytes| bincode::deserialize::<String>(&bytes).unwrap())
}

#[test]
fn test_tag_creation() {
    let tag1 = Tag::new("user:123");
    let tag2: Tag = "user:123".into();
    let tag3 = Tag::from(String::from("user:123"));

    assert_eq!(tag1, tag2);
    assert_eq!(tag2, tag3);
    assert_eq!(tag1.as_str(), "user:123");
}

#[test]
fn test_register_with_tags() {
    let mut cache = InvalidationCache::new(MemoryBackend::new());
    let key = "user:123".to_string();
    let tags = vec![Tag::new("user"), Tag::new("profile")];

    cache.register_key_with_tags(&key, tags.clone());

    let tag_map = cache.get_tag_map();
    assert!(tag_map.contains_key(&Tag::new("user")));
    assert!(tag_map.contains_key(&Tag::new("profile")));

    let user_keys = tag_map.get(&Tag::new("user")).unwrap();
    assert!(user_keys.contains(&key));

    let profile_keys = tag_map.get(&Tag::new("profile")).unwrap();
    assert!(profile_keys.contains(&key));
}

#[test]
fn test_register_with_prefixes() {
    let mut cache = InvalidationCache::new(MemoryBackend::new());
    let key = "users:123:profile".to_string();

    cache.register_key_with_tags(&key, Vec::<Tag>::new());

    let prefix_map = cache.get_prefix_map();
    assert!(prefix_map.contains_key(&"users".to_string()));
    assert!(prefix_map.contains_key(&"users:123".to_string()));

    let users_keys = prefix_map.get(&"users".to_string()).unwrap();
    assert!(users_keys.contains(&key));

    let user_123_keys = prefix_map.get(&"users:123".to_string()).unwrap();
    assert!(user_123_keys.contains(&key));
}

#[test]
fn test_invalidate_tag() {
    let mut cache = InvalidationCache::new(MemoryBackend::new());
    let key1 = "user:123".to_string();
    let key2 = "user:456".to_string();

    put(&mut cache, &key1, "value1", vec![Tag::new("user")]);
    put(&mut cache, &key2, "value2", vec![Tag::new("user"), Tag::new("vip")]);

    assert_eq!(read(&mut cache, &key1), Some("value1".to_string()));
    assert_eq!(read(&mut cache, &key2), Some("value2".to_string()));

    CacheInvalidation::invalidate_tag(&mut cache, &Tag::new("user")).unwrap();

    assert_eq!(read(&mut cache, &key1), None);
    assert_eq!(read(&mut cache, &key2), None);
}

#[test]
fn test_invalidate_prefix() {
    let mut cache = InvalidationCache::new(MemoryBackend::new());
    let key1 = "users:123:profile".to_string();
    let key2 = "users:123:settings".to_string();
    let key3 = "users:456:profile".to_string();

    put(&mut cache, &key1, "profile1", Vec::<Tag>::new());
    put(&mut cache, &key2, "settings1", Vec::<Tag>::new());
    put(&mut cache, &key3, "profile2", Vec::<Tag>::new());

    assert_eq!(read(&mut cache, &key1), Some("profile1".to_string()));
    assert_eq!(read(&mut cache, &key2), Some("settings1".to_string()));
    assert_eq!(read(&mut cache, &key3), Some("profile2".to_string()));

    CacheInvalidation::invalidate_prefix(&mut cache, "users:123").unwrap();

    assert_eq!(read(&mut cache, &key1), None);
    assert_eq!(read(&mut cache, &key2), None);
    assert_eq!(read(&mut cache, &key3), Some("profile2".to_string()));
}

#[test]
fn test_sync_invalidate_tag() {
    let mut cache = InvalidationCache::new(MemoryBackend::new());
    let key1 = "user:123".to_string();
    let key2 = "user:456".to_string();

    put(&mut cache, &key1, "value1", vec![Tag::new("user")]);
    put(&mut cache, &key2, "value2", vec![Tag::new("user"), Tag::new("vip")]);

    assert_eq!(read(&mut cache, &key1), Some("value1".to_string()));
    assert_eq!(read(&mut cache, &key2), Some("value2".to_string()));

    CacheInvalidation::invalidate_tag(&mut cache, &Tag::new("user")).unwrap();

    assert_eq!(read(&mut cache, &key1), None);
    assert_eq!(read(&mut cache, &key2), None);
}

#[test]
fn invalidating_a_tag_clears_the_keys_other_registrations() {
    let mut cache = InvalidationCache::new(MemoryBackend::new());
    put(&mut cache, "a:1", "x", vec![Tag::new("t1"), Tag::new("t2")]);
    put(&mut cache, "b:1", "y", vec![Tag::new("t2")]);
    cache.invalidate_tags(vec![Tag::new("t1")]).unwrap();
    assert!(cache.get_keys_by_tag(&Tag::new("t1")).is_empty());
    assert_eq!(cache.get_keys_by_tag(&Tag::new("t2")), vec!["b:1".to_string()]);
    assert!(cache.get_keys_by_prefix("a").is_empty());
    assert_eq!(cache.get_keys_by_prefix("b"), vec!["b:1".to_string()]);
    cache.invalidate_prefixes(vec!["b".to_string()]).unwrap();
    assert!(cache.get_tag_map().is_empty());
    assert!(cache.get_prefix_map().is_empty());
    assert_eq!(read(&mut cache, "b:1"), None);
}

#[test]
fn prefixes_split_on_every_separator() {
    let mut cache = InvalidationCache::new(MemoryBackend::new());
    cache.register_key_with_tags("a::b", Vec::new());
    let m = cache.get_prefix_map();
    assert_eq!(m.len(), 2);
    assert!(m.contains_key("a"));
    assert!(m.contains_key("a:"));
    cache.register_key_with_tags("plain", Vec::new());
    assert_eq!(cache.get_prefix_map().len(), 2);
}

#[test]
fn remove_unregisters_the_key() {
    let mut cache = InvalidationCache::new(MemoryBackend::new());
    put(&mut cache, "u:1", "x", vec![Tag::new("t")]);
    cache.register_key_with_tags("u:1", vec![Tag::new("t")]);
    assert_eq!(cache.get_keys_by_tag(&Tag::new("t")).len(), 1);
    cache.remove("u:1").unwrap();
    assert!(cache.get_keys_by_tag(&Tag::new("t")).is_empty());
    assert_eq!(read(&mut cache, "u:1"), None);
}

#[test]
fn tagged_entry_collects_distinct_tags() {
    let e = TaggedCacheEntry::new(5)
        .with_tag(Tag::new("a"))
        .with_tag(Tag::new("a"))
        .with_tags(vec![Tag::new("b"), Tag::new("a"), Tag::new("b")]);
    assert_eq!(e.value, 5);
    assert_eq!(e.tags, vec![Tag::new("a"), Tag::new("b")]);
}
