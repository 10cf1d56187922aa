//! Configuration records for a node: network binding, storage engine
//! selection and tuning, and replication settings. Loading these records
//! from a configuration file is the surrounding program's business; this
//! module defines the validated records themselves and the engine-name
//! grammar.

use vstd::prelude::*;
use crate::store_map::str_eq;

verus! {

/// Storage engine kinds a node can run.
#[derive(Debug, Clone, Copy, PartialEq, Eq, Structural)]
pub enum StorageEngine {
    /// In-memory single-owner map (not thread-safe).
    Memory,
    /// Thread-safe in-memory map behind one reader/writer lock.
    RwLock,
    /// Persistent disk-based storage.
    Sled,
}

/// What `str::to_lowercase` returns: a function of the characters alone.
pub uninterp spec fn lower_of(s: Seq<char>) -> Seq<char>;

/// Relies on str::to_lowercase: the lowercased text of the input, a
/// function of its characters alone.
#[verifier::external_body]
pub(crate) fn lowercase(s: &str) -> (r: String)
    ensures
        r@ == lower_of(s@),
{
    s.to_lowercase()
}

/// The engine kind a lowercased name denotes: `memory` (with `kv` as an
/// accepted alias), `rwlock`, or `sled`; any other text denotes none.
pub fn parse_engine_name(lowered: &str) -> (r: Option<StorageEngine>)
    ensures
        lowered@ == "memory"@ || lowered@ == "kv"@ ==> r == Some(StorageEngine::Memory),
        lowered@ == "rwlock"@ ==> r == Some(StorageEngine::RwLock),
        lowered@ == "sled"@ ==> r == Some(StorageEngine::Sled),
        !(lowered@ == "memory"@ || lowered@ == "kv"@ || lowered@ == "rwlock"@ || lowered@
            == "sled"@) ==> r is None,
{
    proof {
        reveal_strlit("memory");
        reveal_strlit("kv");
        reveal_strlit("rwlock");
        reveal_strlit("sled");
        assert("memory"@.len() == 6 && "kv"@.len() == 2 && "rwlock"@.len() == 6 && "sled"@.len()
            == 4);
        assert("memory"@[0] == 'm' && "rwlock"@[0] == 'r' && "sled"@[0] == 's');
    }
    if str_eq(lowered, "memory") || str_eq(lowered, "kv") {
        Some(StorageEngine::Memory)
    } else if str_eq(lowered, "rwlock") {
        Some(StorageEngine::RwLock)
    } else if str_eq(lowered, "sled") {
        Some(StorageEngine::Sled)
    } else {
        None
    }
}

impl StorageEngine {
    /// The engine kind a name denotes, case-insensitively; any other name
    /// is refused with a message naming it.
    pub fn parse(s: &str) -> (r: Result<StorageEngine, String>)
        ensures
            ({
                let l = lower_of(s@);
                if l == "memory"@ || l == "kv"@ {
                    r == Ok::<StorageEngine, String>(StorageEngine::Memory)
                } else if l == "rwlock"@ {
                    r == Ok::<StorageEngine, String>(StorageEngine::RwLock)
                } else if l == "sled"@ {
                    r == Ok::<StorageEngine, String>(StorageEngine::Sled)
                } else {
                    r matches Err(m) && m@ == "Unknown storage engine: "@ + s@
                }
            }),
    {
        let lowered = lowercase(s);
        match parse_engine_name(lowered.as_str()) {
            Some(engine) => Ok(engine),
            None => Err(String::from_str("Unknown storage engine: ").concat(s)),
        }
    }

    /// The canonical name of the engine kind.
    pub fn name(&self) -> (r: String)
        ensures
            *self is Memory ==> r@ == "memory"@,
            *self is RwLock ==> r@ == "rwlock"@,
            *self is Sled ==> r@ == "sled"@,
    {
        match self {
            StorageEngine::Memory => String::from_str("memory"),
            StorageEngine::RwLock => String::from_str("rwlock"),
            StorageEngine::Sled => String::from_str("sled"),
        }
    }
}

impl core::str::FromStr for StorageEngine {
    type Err = String;

    fn from_str(s: &str) -> Result<StorageEngine, String> {
        StorageEngine::parse(s)
    }
}

/// Configuration for the storage layer.
pub struct StorageConfig {
    /// Which storage engine to build.
    pub engine: StorageEngine,
    /// Where data is stored (a namespace identifier for in-memory engines).
    pub path: String,
    /// Enable compression (persistent engine).
    pub compression: bool,
    /// Cache budget in megabytes (persistent engine).
    pub cache_size_mb: usize,
    /// Flush interval in milliseconds (persistent engine).
    pub flush_interval_ms: u64,
    /// Maximum database size in megabytes (persistent engine).
    pub max_db_size_mb: usize,
}

impl Clone for StorageConfig {
    fn clone(&self) -> (r: Self)
        ensures
            r == *self,
    {
        StorageConfig {
            engine: self.engine,
            path: self.path.clone(),
            compression: self.compression,
            cache_size_mb: self.cache_size_mb,
            flush_interval_ms: self.flush_interval_ms,
            max_db_size_mb: self.max_db_size_mb,
        }
    }
}

impl Default for StorageConfig {
    /// The thread-safe in-memory engine over a `data` directory, with the
    /// persistent-engine tuning at its defaults.
    fn default() -> (r: Self)
        ensures
            r.engine == StorageEngine::RwLock,
            r.path@ == "data"@,
            r.compression == true,
            r.cache_size_mb == 100,
            r.flush_interval_ms == 1000,
            r.max_db_size_mb == 1024,
    {
        StorageConfig {
            engine: StorageEngine::RwLock,
            path: String::from_str("data"),
            compression: true,
            cache_size_mb: 100,
            flush_interval_ms: 1000,
            max_db_size_mb: 1024,
        }
    }
}

/// Configuration for MQTT-based replication between nodes.
pub struct ReplicationConfig {
    /// Whether replication is enabled for this node.
    pub enabled: bool,
    /// Hostname or address of the MQTT broker.
    pub mqtt_broker: String,
    /// Port of the MQTT broker.
    pub mqtt_port: u16,
    /// Prefix for the MQTT topics this cluster uses.
    pub topic_prefix: String,
    /// This node's unique identifier in MQTT communications.
    pub client_id: String,
}

impl Clone for ReplicationConfig {
    fn clone(&self) -> (r: Self)
        ensures
            r == *self,
    {
        ReplicationConfig {
            enabled: self.enabled,
            mqtt_broker: self.mqtt_broker.clone(),
            mqtt_port: self.mqtt_port,
            topic_prefix: self.topic_prefix.clone(),
            client_id: self.client_id.clone(),
        }
    }
}

/// Everything a node needs to run: network binding, storage settings, and
/// replication parameters.
pub struct Config {
    /// Address to bind the TCP server to.
    pub host: String,
    /// Port for the TCP server.
    pub port: u16,
    /// Storage configuration.
    pub storage: StorageConfig,
    /// Replication configuration.
    pub replication: ReplicationConfig,
    /// How often, in seconds, to run anti-entropy synchronization.
    pub sync_interval_seconds: u64,
}

impl Clone for Config {
    fn clone(&self) -> (r: Self)
        ensures
            r == *self,
    {
        Config {
            host: self.host.clone(),
            port: self.port,
            storage: self.storage.clone(),
            replication: self.replication.clone(),
            sync_interval_seconds: self.sync_interval_seconds,
        }
    }
}

impl Config {
    /// Defaults suitable for development: localhost binding, the
    /// thread-safe in-memory engine, replication disabled, a one-minute
    /// synchronization interval.
    pub fn default() -> (r: Self)
        ensures
            r.host@ == "127.0.0.1"@,
            r.port == 7379,
            r.storage.engine == StorageEngine::RwLock,
            r.storage.path@ == "data"@,
            r.storage.compression == true,
            r.storage.cache_size_mb == 100,
            r.storage.flush_interval_ms == 1000,
            r.storage.max_db_size_mb == 1024,
            r.replication.enabled == false,
            r.replication.mqtt_broker@ == "localhost"@,
            r.replication.mqtt_port == 1883,
            r.replication.topic_prefix@ == "merkle_kv"@,
            r.replication.client_id@ == "node1"@,
            r.sync_interval_seconds == 60,
    {
        Config {
            host: String::from_str("127.0.0.1"),
            port: 7379,
            storage: StorageConfig::default(),
            replication: ReplicationConfig {
                enabled: false,
                mqtt_broker: String::from_str("localhost"),
                mqtt_port: 1883,
                topic_prefix: String::from_str("merkle_kv"),
                client_id: String::from_str("node1"),
            },
            sync_interval_seconds: 60,
        }
    }

    /// The storage path, for callers that expect it as a bare field.
    pub fn storage_path(&self) -> (r: &str)
        ensures
            r@ == self.storage.path@,
    {
        self.storage.path.as_str()
    }

    /// The storage engine's legacy short name, for callers that expect it
    /// as a bare field (`kv` for the in-memory engine).
    pub fn engine(&self) -> (r: &str)
        ensures
            self.storage.engine is Memory ==> r@ == "kv"@,
            self.storage.engine is RwLock ==> r@ == "rwlock"@,
            self.storage.engine is Sled ==> r@ == "sled"@,
    {
        match self.storage.engine {
            StorageEngine::Memory => "kv",
            StorageEngine::RwLock => "rwlock",
            StorageEngine::Sled => "sled",
        }
    }
}

} // verus!
