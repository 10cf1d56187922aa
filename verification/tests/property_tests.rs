use merkle_kv::numbers::{format_i64, parse_i64};
use merkle_kv::store::cache::BoundedCache;
use merkle_kv::store::kv_engine::KvEngine;
use merkle_kv::store::rwlock_engine::RwLockEngine;
use tempfile::tempdir;

#[test]
fn test_set_then_get_on_every_backend() {
    let mut kv = KvEngine::new("ns").unwrap();
    kv.set("k".to_string(), "v".to_string()).unwrap();
    assert_eq!(kv.get("k"), Some("v".to_string()));

    let mut locked = RwLockEngine::new("ns").unwrap();
    locked.set("k".to_string(), "v".to_string()).unwrap();
    assert_eq!(locked.get("k"), Some("v".to_string()));

    let temp_dir = tempdir().unwrap();
    let path = temp_dir.path().join("test.db");
    let mut sled = merkle_kv::store::sled_engine::SledEngine::new(path.to_str().unwrap()).unwrap();
    sled.set("k".to_string(), "v".to_string()).unwrap();
    assert_eq!(sled.get("k"), Some("v".to_string()));
}

#[test]
fn test_delete_reports_true_exactly_once() {
    let mut engine = RwLockEngine::new("ns").unwrap();
    engine.set("k".to_string(), "v".to_string()).unwrap();
    assert!(engine.delete("k"));
    assert!(!engine.delete("k"));
    assert_eq!(engine.get("k"), None);
}

#[test]
fn test_increment_semantics_in_memory() {
    let mut engine = KvEngine::new("ns").unwrap();
    // A fresh key incremented by the default amount yields one.
    assert_eq!(engine.increment("fresh", None).unwrap(), 1);
    // Increments continue from the stored value.
    assert_eq!(engine.increment("counter", Some(5)).unwrap(), 5);
    assert_eq!(engine.increment("counter", None).unwrap(), 6);
    // Decrements mirror them.
    assert_eq!(engine.decrement("counter", Some(2)).unwrap(), 4);
    assert_eq!(engine.decrement("counter", None).unwrap(), 3);
    // An unparsable stored value counts as zero.
    engine.set("junk".to_string(), "not-a-number".to_string()).unwrap();
    assert_eq!(engine.increment("junk", None).unwrap(), 1);
}

#[test]
fn test_increment_overflow_is_an_error() {
    let mut engine = KvEngine::new("ns").unwrap();
    engine.set("c".to_string(), i64::MAX.to_string()).unwrap();
    assert!(engine.increment("c", Some(1)).is_err());
    // The failed operation left the stored value alone.
    assert_eq!(engine.get("c"), Some(i64::MAX.to_string()));
    engine.set("d".to_string(), i64::MIN.to_string()).unwrap();
    assert!(engine.decrement("d", Some(1)).is_err());
}

#[test]
fn test_append_then_prepend_in_memory() {
    let mut engine = RwLockEngine::new("ns").unwrap();
    engine.set("greeting".to_string(), "Hello".to_string()).unwrap();
    assert_eq!(engine.append("greeting", " World!").unwrap(), "Hello World!");
    assert_eq!(engine.prepend("greeting", "Say: ").unwrap(), "Say: Hello World!");
    assert_eq!(engine.get("greeting"), Some("Say: Hello World!".to_string()));
    // A missing key appends onto empty text.
    assert_eq!(engine.append("fresh", "tail").unwrap(), "tail");
    assert_eq!(engine.prepend("fresh2", "head").unwrap(), "head");
}

#[test]
fn test_truncate_empties_any_backend() {
    let mut engine = KvEngine::new("ns").unwrap();
    engine.set("a".to_string(), "1".to_string()).unwrap();
    engine.set("b".to_string(), "2".to_string()).unwrap();
    engine.truncate().unwrap();
    assert_eq!(engine.len(), 0);
    assert!(engine.is_empty());
    assert_eq!(engine.count_keys().unwrap(), 0);

    let mut locked = RwLockEngine::new("ns").unwrap();
    locked.set("a".to_string(), "1".to_string()).unwrap();
    locked.truncate().unwrap();
    assert_eq!(locked.len(), 0);
    assert!(locked.is_empty());
}

#[test]
fn test_keys_enumerates_exactly_the_live_keys() {
    let mut engine = KvEngine::new("ns").unwrap();
    engine.set("a".to_string(), "1".to_string()).unwrap();
    engine.set("b".to_string(), "2".to_string()).unwrap();
    engine.set("a".to_string(), "3".to_string()).unwrap();
    engine.delete("b");
    engine.set("c".to_string(), "4".to_string()).unwrap();
    let mut keys = engine.keys();
    keys.sort();
    assert_eq!(keys, vec!["a".to_string(), "c".to_string()]);
}

#[test]
fn test_cache_evicts_least_recently_used() {
    // Capacity two, three distinct insertions: the least recently used
    // entry (the first) leaves, the other two stay.
    let mut cache = BoundedCache::new(2).unwrap();
    cache.put("a".to_string(), "1".to_string());
    cache.put("b".to_string(), "2".to_string());
    cache.put("c".to_string(), "3".to_string());
    assert_eq!(cache.get("a"), None);
    assert_eq!(cache.get("b"), Some("2".to_string()));
    assert_eq!(cache.get("c"), Some("3".to_string()));
    assert_eq!(cache.len(), 2);
}

#[test]
fn test_cache_recent_access_protects_from_eviction() {
    let mut cache = BoundedCache::new(2).unwrap();
    cache.put("a".to_string(), "1".to_string());
    cache.put("b".to_string(), "2".to_string());
    // Re-access "a": now "b" is the least recently used entry.
    assert_eq!(cache.get("a"), Some("1".to_string()));
    cache.put("c".to_string(), "3".to_string());
    assert_eq!(cache.get("a"), Some("1".to_string()));
    assert_eq!(cache.get("b"), None);
    assert_eq!(cache.get("c"), Some("3".to_string()));
}

#[test]
fn test_cache_rejects_zero_capacity() {
    assert!(BoundedCache::new(0).is_none());
    assert_eq!(BoundedCache::new(3).unwrap().capacity(), 3);
}

#[test]
fn test_counter_text_round_trip() {
    assert_eq!(format_i64(0), "0");
    assert_eq!(format_i64(42), "42");
    assert_eq!(format_i64(-7), "-7");
    assert_eq!(format_i64(i64::MAX), "9223372036854775807");
    assert_eq!(format_i64(i64::MIN), "-9223372036854775808");
    assert_eq!(parse_i64("0"), Some(0));
    assert_eq!(parse_i64("+42"), Some(42));
    assert_eq!(parse_i64("-7"), Some(-7));
    assert_eq!(parse_i64("007"), Some(7));
    assert_eq!(parse_i64("9223372036854775807"), Some(i64::MAX));
    assert_eq!(parse_i64("-9223372036854775808"), Some(i64::MIN));
    assert_eq!(parse_i64("9223372036854775808"), None);
    assert_eq!(parse_i64("-9223372036854775809"), None);
    assert_eq!(parse_i64(""), None);
    assert_eq!(parse_i64("+"), None);
    assert_eq!(parse_i64("12a"), None);
    assert_eq!(parse_i64(" 12"), None);
    for n in [0i64, 1, -1, 999, -1000, i64::MAX, i64::MIN] {
        assert_eq!(parse_i64(&format_i64(n)), Some(n));
    }
}
