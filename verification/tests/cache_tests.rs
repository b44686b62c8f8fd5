use heimdall::cache::DatasetCache;

#[test]
fn test_cache_add_and_get() {
    let mut cache = DatasetCache::new(10);
    cache.add("id-a".to_string(), "/data/a.tif".to_string());
    cache.add("id-b".to_string(), "/data/b.tif".to_string());
    assert_eq!(cache.len(), 2);
    assert_eq!(
        cache.get_path(&"id-a".to_string()),
        Some("/data/a.tif".to_string())
    );
    assert_eq!(cache.get_path(&"id-c".to_string()), None);
}

#[test]
fn test_cache_update_existing_key() {
    let mut cache = DatasetCache::new(10);
    cache.add("id".to_string(), "/old".to_string());
    cache.add("id".to_string(), "/new".to_string());
    assert_eq!(cache.len(), 1);
    assert_eq!(cache.get_path(&"id".to_string()), Some("/new".to_string()));
}

#[test]
fn test_cache_evicts_least_recently_used() {
    let mut cache = DatasetCache::new(2);
    cache.add("a".to_string(), "/a".to_string());
    cache.add("b".to_string(), "/b".to_string());
    cache.add("c".to_string(), "/c".to_string());
    assert_eq!(cache.len(), 2);
    assert_eq!(cache.get_path(&"a".to_string()), None);
    assert_eq!(cache.get_path(&"b".to_string()), Some("/b".to_string()));
    assert_eq!(cache.get_path(&"c".to_string()), Some("/c".to_string()));
}

#[test]
fn test_cache_get_refreshes_recency() {
    let mut cache = DatasetCache::new(2);
    cache.add("a".to_string(), "/a".to_string());
    cache.add("b".to_string(), "/b".to_string());
    // Touch "a" so that "b" is now the least recently used entry.
    assert_eq!(cache.get_path(&"a".to_string()), Some("/a".to_string()));
    cache.add("c".to_string(), "/c".to_string());
    assert_eq!(cache.get_path(&"a".to_string()), Some("/a".to_string()));
    assert_eq!(cache.get_path(&"b".to_string()), None);
}

#[test]
fn test_cache_remove() {
    let mut cache = DatasetCache::new(10);
    cache.add("a".to_string(), "/a".to_string());
    cache.remove(&"a".to_string());
    assert_eq!(cache.len(), 0);
    assert_eq!(cache.get_path(&"a".to_string()), None);
    // Removing a missing id is a no-op.
    cache.remove(&"a".to_string());
    assert_eq!(cache.len(), 0);
}

#[test]
fn test_cache_zero_capacity_defaults_to_ten() {
    let mut cache = DatasetCache::new(0);
    for i in 0..12 {
        cache.add(format!("id-{}", i), format!("/p/{}", i));
    }
    assert_eq!(cache.len(), 10);
    assert_eq!(cache.get_path(&"id-0".to_string()), None);
    assert_eq!(cache.get_path(&"id-11".to_string()), Some("/p/11".to_string()));
}
