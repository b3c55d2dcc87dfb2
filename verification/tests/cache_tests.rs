use incremental_build::{AssetCache, CacheEntry};

#[test]
fn cache_get_returns_inserted_entry() {
    let mut cache = AssetCache::new();
    assert!(cache.get("a.js").is_none());
    cache.insert(
        "a.js".to_string(),
        CacheEntry {
            hash: "h1".to_string(),
            content: "out1".to_string(),
        },
    );
    let got = cache.get("a.js").unwrap();
    assert_eq!(got.hash, "h1");
    assert_eq!(got.content, "out1");
}

#[test]
fn cache_insert_overwrites() {
    let mut cache = AssetCache::new();
    cache.insert(
        "a.js".to_string(),
        CacheEntry {
            hash: "h1".to_string(),
            content: "out1".to_string(),
        },
    );
    cache.insert(
        "a.js".to_string(),
        CacheEntry {
            hash: "h2".to_string(),
            content: "out2".to_string(),
        },
    );
    assert_eq!(cache.len(), 1);
    assert_eq!(cache.get("a.js").unwrap().content, "out2");
}

#[test]
fn cache_remove_is_idempotent() {
    let mut cache = AssetCache::new();
    cache.insert(
        "a.js".to_string(),
        CacheEntry {
            hash: "h1".to_string(),
            content: "out1".to_string(),
        },
    );
    cache.remove("a.js");
    assert!(cache.get("a.js").is_none());
    cache.remove("a.js");
    assert_eq!(cache.len(), 0);
}

#[test]
fn cache_clear_empties_store() {
    let mut cache = AssetCache::new();
    cache.insert(
        "a.js".to_string(),
        CacheEntry {
            hash: "h1".to_string(),
            content: "out1".to_string(),
        },
    );
    cache.insert(
        "b.js".to_string(),
        CacheEntry {
            hash: "h2".to_string(),
            content: "out2".to_string(),
        },
    );
    assert_eq!(cache.len(), 2);
    cache.clear();
    assert_eq!(cache.len(), 0);
    assert!(cache.get("b.js").is_none());
}
