use ltengine::cache::{CacheKey, TranslationCache};

fn key(text: &str) -> CacheKey {
    CacheKey {
        source: "de".into(),
        target: "en".into(),
        format: "text".into(),
        text: text.into(),
    }
}

#[test]
fn evicts_least_recently_used() {
    let mut cache = TranslationCache::new(2);
    cache.insert(key("a"), "A".into());
    cache.insert(key("b"), "B".into());
    assert_eq!(cache.get(&key("a")).as_deref(), Some("A"));
    cache.insert(key("c"), "C".into());
    assert!(cache.get(&key("b")).is_none());
    assert_eq!(cache.get(&key("a")).as_deref(), Some("A"));
    assert_eq!(cache.get(&key("c")).as_deref(), Some("C"));
}

#[test]
fn disabled_cache_stores_nothing() {
    let mut cache = TranslationCache::new(0);
    cache.insert(key("a"), "A".into());
    assert!(cache.get(&key("a")).is_none());
}

#[test]
fn storing_again_replaces_and_renews() {
    let mut cache = TranslationCache::new(2);
    cache.insert(key("a"), "A".into());
    cache.insert(key("b"), "B".into());
    cache.insert(key("a"), "A2".into());
    cache.insert(key("c"), "C".into());
    assert_eq!(cache.get(&key("a")).as_deref(), Some("A2"));
    assert!(cache.get(&key("b")).is_none());
}

#[test]
fn every_part_of_a_key_counts() {
    let mut cache = TranslationCache::new(8);
    cache.insert(key("a"), "A".into());
    let mut other = key("a");
    other.source = "fr".into();
    assert!(cache.get(&other).is_none());
    let mut other = key("a");
    other.target = "fr".into();
    assert!(cache.get(&other).is_none());
    let mut other = key("a");
    other.format = "html".into();
    assert!(cache.get(&other).is_none());
    assert!(key("a").same(&key("a")));
    assert!(!key("a").same(&key("b")));
}
