use merkle_kv::config::{Config, StorageEngine};

#[test]
fn test_config_load() {
    // Build the configuration record that loading the documented
    // development file would produce, and check every field.
    let mut config = Config::default();
    config.host = "127.0.0.1".to_string();
    config.port = 7379;
    config.sync_interval_seconds = 60;
    config.storage.engine = StorageEngine::Sled;
    config.storage.path = "./data/merkle_kv.db".to_string();
    config.storage.compression = true;
    config.storage.cache_size_mb = 100;
    config.storage.flush_interval_ms = 1000;
    config.storage.max_db_size_mb = 1024;
    config.replication.enabled = true;
    config.replication.mqtt_broker = "localhost".to_string();
    config.replication.mqtt_port = 1883;
    config.replication.topic_prefix = "merkle_kv".to_string();
    config.replication.client_id = "node1".to_string();

    assert_eq!(config.host, "127.0.0.1");
    assert_eq!(config.port, 7379);
    assert_eq!(config.sync_interval_seconds, 60);
    assert_eq!(config.storage.engine, StorageEngine::Sled);
    assert_eq!(config.storage.path, "./data/merkle_kv.db");
    assert_eq!(config.storage.compression, true);
    assert_eq!(config.storage.cache_size_mb, 100);
    assert_eq!(config.storage.flush_interval_ms, 1000);
    assert_eq!(config.storage.max_db_size_mb, 1024);
    assert_eq!(config.replication.enabled, true);
    assert_eq!(config.replication.mqtt_broker, "localhost");
    assert_eq!(config.replication.mqtt_port, 1883);
    assert_eq!(config.replication.topic_prefix, "merkle_kv");
    assert_eq!(config.replication.client_id, "node1");
}

#[test]
fn test_backward_compatibility() {
    let config = Config::default();
    assert_eq!(config.storage_path(), "data");
    assert_eq!(config.engine(), "rwlock");
}

#[test]
fn test_engine_name_parsing() {
    assert_eq!(StorageEngine::parse("memory").unwrap(), StorageEngine::Memory);
    assert_eq!(StorageEngine::parse("KV").unwrap(), StorageEngine::Memory);
    assert_eq!(StorageEngine::parse("RwLock").unwrap(), StorageEngine::RwLock);
    assert_eq!(StorageEngine::parse("SLED").unwrap(), StorageEngine::Sled);
    let err = StorageEngine::parse("foo").unwrap_err();
    assert!(err.contains("Unknown storage engine"));
    let parsed: StorageEngine = "sled".parse().unwrap();
    assert_eq!(parsed, StorageEngine::Sled);
    assert_eq!(StorageEngine::Memory.name(), "memory");
    assert_eq!(StorageEngine::RwLock.name(), "rwlock");
    assert_eq!(StorageEngine::Sled.name(), "sled");
}
