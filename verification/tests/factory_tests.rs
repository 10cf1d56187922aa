use merkle_kv::config::{StorageConfig, StorageEngine};
use merkle_kv::store::factory::{create_storage_engine, create_storage_engine_simple, Backend};
use tempfile::tempdir;

#[test]
fn test_create_memory_engine() {
    let config = StorageConfig {
        engine: StorageEngine::Memory,
        path: "./test_data".to_string(),
        ..Default::default()
    };

    let mut engine = create_storage_engine(&config).unwrap();
    assert!(engine.set("key1".to_string(), "value1".to_string()).is_ok());
    assert_eq!(engine.get("key1"), Some("value1".to_string()));
}

#[test]
fn test_create_rwlock_engine() {
    let config = StorageConfig {
        engine: StorageEngine::RwLock,
        path: "./test_data".to_string(),
        ..Default::default()
    };

    let mut engine = create_storage_engine(&config).unwrap();
    assert!(engine.set("key1".to_string(), "value1".to_string()).is_ok());
    assert_eq!(engine.get("key1"), Some("value1".to_string()));
}

#[test]
fn test_create_sled_engine() {
    let temp_dir = tempdir().unwrap();
    let storage_path = temp_dir.path().join("test.db");

    let config = StorageConfig {
        engine: StorageEngine::Sled,
        path: storage_path.to_str().unwrap().to_string(),
        compression: true,
        cache_size_mb: 50,
        flush_interval_ms: 500,
        max_db_size_mb: 100,
    };

    let mut engine = create_storage_engine(&config).unwrap();
    assert!(engine.set("key1".to_string(), "value1".to_string()).is_ok());
    assert_eq!(engine.get("key1"), Some("value1".to_string()));
}

#[test]
fn test_create_engine_simple() {
    let temp_dir = tempdir().unwrap();
    let storage_path = temp_dir.path().join("test.db");

    let mut engine = create_storage_engine_simple("sled", storage_path.to_str().unwrap()).unwrap();
    assert!(engine.set("key1".to_string(), "value1".to_string()).is_ok());
    assert_eq!(engine.get("key1"), Some("value1".to_string()));

    let mut engine = create_storage_engine_simple("rwlock", "./test_data").unwrap();
    assert!(engine.set("key2".to_string(), "value2".to_string()).is_ok());
    assert_eq!(engine.get("key2"), Some("value2".to_string()));

    let mut engine = create_storage_engine_simple("memory", "./test_data").unwrap();
    assert!(engine.set("key3".to_string(), "value3".to_string()).is_ok());
    assert_eq!(engine.get("key3"), Some("value3".to_string()));
}

#[test]
fn test_create_engine_invalid_type() {
    let result = create_storage_engine_simple("invalid", "./test_data");
    assert!(result.is_err());
    if let Err(e) = result {
        let err_msg = e.message();
        assert!(err_msg.contains("Unknown engine type"));
    }
}

#[test]
fn test_cache_size_derivation() {
    // One configured megabyte buys 1024 cache entries.
    let temp_dir = tempdir().unwrap();
    let storage_path = temp_dir.path().join("test.db");
    let config = StorageConfig {
        engine: StorageEngine::Sled,
        path: storage_path.to_str().unwrap().to_string(),
        cache_size_mb: 1,
        ..Default::default()
    };
    let engine = create_storage_engine(&config).unwrap();
    match engine {
        Backend::Sled(e) => assert_eq!(e.cache_capacity(), 1024),
        _ => unreachable!(),
    }

    // A budget below the floor is raised to one hundred entries.
    let floor_path = temp_dir.path().join("floor.db");
    let config = StorageConfig {
        engine: StorageEngine::Sled,
        path: floor_path.to_str().unwrap().to_string(),
        cache_size_mb: 0,
        ..Default::default()
    };
    let engine = create_storage_engine(&config).unwrap();
    match engine {
        Backend::Sled(e) => assert_eq!(e.cache_capacity(), 100),
        _ => unreachable!(),
    }
}

#[test]
fn test_simple_factory_is_case_insensitive() {
    let mut engine = create_storage_engine_simple("MEMORY", "./test_data").unwrap();
    assert!(engine.set("k".to_string(), "v".to_string()).is_ok());
    assert_eq!(engine.get("k"), Some("v".to_string()));
    assert!(matches!(engine, Backend::Memory(_)));

    let engine = create_storage_engine_simple("kv", "./test_data").unwrap();
    assert!(matches!(engine, Backend::Memory(_)));
}
