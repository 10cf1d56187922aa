use merkle_kv::store::sled_engine::{SledConfig, SledEngine};
use tempfile::tempdir;

#[test]
fn test_sled_persistence() {
    let temp_dir = tempdir().unwrap();
    let storage_path = temp_dir.path().join("test.db");

    // Create an engine and store data.
    {
        let mut engine = SledEngine::new(storage_path.to_str().unwrap()).unwrap();
        engine.set("key1".to_string(), "value1".to_string()).unwrap();
        engine.set("key2".to_string(), "value2".to_string()).unwrap();
    }

    // Reopen at the same location and verify the data survived.
    {
        let mut engine = SledEngine::new(storage_path.to_str().unwrap()).unwrap();
        assert_eq!(engine.get("key1"), Some("value1".to_string()));
        assert_eq!(engine.get("key2"), Some("value2".to_string()));
    }
}

#[test]
fn test_sled_basic_operations() {
    let temp_dir = tempdir().unwrap();
    let storage_path = temp_dir.path().join("test.db");

    let mut engine = SledEngine::new(storage_path.to_str().unwrap()).unwrap();

    // Set and get.
    engine.set("key1".to_string(), "value1".to_string()).unwrap();
    assert_eq!(engine.get("key1"), Some("value1".to_string()));

    // Overwriting.
    engine.set("key1".to_string(), "new_value".to_string()).unwrap();
    assert_eq!(engine.get("key1"), Some("new_value".to_string()));

    // Delete.
    assert!(engine.delete("key1"));
    assert_eq!(engine.get("key1"), None);

    // Multiple keys.
    engine.set("key2".to_string(), "value2".to_string()).unwrap();
    engine.set("key3".to_string(), "value3".to_string()).unwrap();

    let keys = engine.keys();
    assert_eq!(keys.len(), 2);
    assert!(keys.contains(&"key2".to_string()));
    assert!(keys.contains(&"key3".to_string()));

    // Length and emptiness.
    assert_eq!(engine.len(), 2);
    assert!(!engine.is_empty());
}

#[test]
fn test_sled_numeric_operations() {
    let temp_dir = tempdir().unwrap();
    let storage_path = temp_dir.path().join("test.db");

    let mut engine = SledEngine::new(storage_path.to_str().unwrap()).unwrap();

    // Increment.
    let result = engine.increment("counter", Some(5)).unwrap();
    assert_eq!(result, 5);

    let result = engine.increment("counter", None).unwrap();
    assert_eq!(result, 6);

    // Decrement.
    let result = engine.decrement("counter", Some(2)).unwrap();
    assert_eq!(result, 4);

    let result = engine.decrement("counter", None).unwrap();
    assert_eq!(result, 3);
}

#[test]
fn test_sled_string_operations() {
    let temp_dir = tempdir().unwrap();
    let storage_path = temp_dir.path().join("test.db");

    let mut engine = SledEngine::new(storage_path.to_str().unwrap()).unwrap();

    // Append.
    engine.set("greeting".to_string(), "Hello".to_string()).unwrap();
    let result = engine.append("greeting", " World!").unwrap();
    assert_eq!(result, "Hello World!");

    // Prepend.
    let result = engine.prepend("greeting", "Say: ").unwrap();
    assert_eq!(result, "Say: Hello World!");
}

#[test]
fn test_sled_truncate() {
    let temp_dir = tempdir().unwrap();
    let storage_path = temp_dir.path().join("test.db");

    let mut engine = SledEngine::new(storage_path.to_str().unwrap()).unwrap();

    // Add some data.
    engine.set("key1".to_string(), "value1".to_string()).unwrap();
    engine.set("key2".to_string(), "value2".to_string()).unwrap();
    assert_eq!(engine.len(), 2);

    // Truncate.
    engine.truncate().unwrap();
    assert_eq!(engine.len(), 0);
    assert!(engine.is_empty());
}

#[test]
fn test_sled_config() {
    let temp_dir = tempdir().unwrap();
    let storage_path = temp_dir.path().join("test.db");

    let config = SledConfig {
        compression: false,
        cache_size: 100,
        flush_interval_ms: 500,
        max_db_size: 1024 * 1024,
    };

    let mut engine = SledEngine::with_config(storage_path.to_str().unwrap(), config).unwrap();

    // It works with a custom configuration.
    engine.set("key1".to_string(), "value1".to_string()).unwrap();
    assert_eq!(engine.get("key1"), Some("value1".to_string()));
}

#[test]
fn test_sled_stats() {
    let temp_dir = tempdir().unwrap();
    let storage_path = temp_dir.path().join("test.db");

    let mut engine = SledEngine::new(storage_path.to_str().unwrap()).unwrap();

    // Add some data.
    engine.set("key1".to_string(), "value1".to_string()).unwrap();
    engine.set("key2".to_string(), "value2".to_string()).unwrap();

    let stats = engine.stats().unwrap();
    assert!(stats.contains_key("tree_size"));
    assert!(stats.contains_key("cache_size"));

    // The tree holds two records.
    assert_eq!(stats["tree_size"], "2");
}

#[test]
fn test_sled_snapshot_counts() {
    let temp_dir = tempdir().unwrap();
    let storage_path = temp_dir.path().join("test.db");

    let mut engine = SledEngine::new(storage_path.to_str().unwrap()).unwrap();
    engine.set("key1".to_string(), "value1".to_string()).unwrap();
    engine.set("key2".to_string(), "value2".to_string()).unwrap();

    let snap = engine.snapshot();
    assert_eq!(snap.tree_size, 2);
    assert_eq!(snap.cache_size, 2);
}

#[test]
fn test_sled_zero_cache_capacity_refused() {
    let temp_dir = tempdir().unwrap();
    let storage_path = temp_dir.path().join("test.db");

    let config = SledConfig {
        compression: true,
        cache_size: 0,
        flush_interval_ms: 1000,
        max_db_size: 1024 * 1024,
    };
    let result = SledEngine::with_config(storage_path.to_str().unwrap(), config);
    match result {
        Err(e) => assert_eq!(e.message(), "Cache size must be greater than 0"),
        Ok(_) => panic!("a zero cache capacity must be refused"),
    }
}

#[test]
fn test_sled_sync_and_count() {
    let temp_dir = tempdir().unwrap();
    let storage_path = temp_dir.path().join("test.db");

    let mut engine = SledEngine::new(storage_path.to_str().unwrap()).unwrap();
    engine.set("a".to_string(), "1".to_string()).unwrap();
    engine.sync().unwrap();
    engine.flush().unwrap();
    assert_eq!(engine.count_keys().unwrap(), 1);
}
