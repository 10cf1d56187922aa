//! The persistent backend: a durable ordered key/value tree (the `sled`
//! embedded database) behind a bounded least-recently-used cache.
//!
//! The durable tree is the source of truth; its contents are modelled by
//! `tree_view`, a map from key text to value text (this engine writes keys
//! and values only as text). Reads go through the cache and fall back to
//! the tree, populating the cache on a hit; writes go to the cache first
//! and then to the tree. Tree faults during reads, deletes and enumeration
//! surface as absent/false/empty — callers cannot tell them from misses —
//! while faults during writes propagate as errors, possibly leaving the
//! cache ahead of the tree; `consistent` names the state in which it is not.

use vstd::prelude::*;
use std::collections::HashMap;
use crate::error::StorageError;
use crate::numbers::{format_i64, format_u64, parse_i64, spec_format_i64};
use crate::store::cache::{
    cache_contains, cache_get_model, cache_put_model, cache_value, BoundedCache, CacheModel,
};
use crate::store::{amount_or_one, current_int, current_text, stored_opt};

verus! {

/// The `sled` database handle, declared so it can stand in fields and
/// signatures; opaque to the proofs.
#[verifier::external_type_specification]
#[verifier::external_body]
pub struct ExSledDb(sled::Db);

/// A `sled` tree handle, declared so it can stand in fields and signatures;
/// its contents are known to the proofs only through `tree_view`.
#[verifier::external_type_specification]
#[verifier::external_body]
pub struct ExSledTree(sled::Tree);

/// The records of a `sled` tree, with keys and values read as UTF-8 text.
/// This engine writes keys and values only as text, and the wrappers'
/// contracts below describe trees that hold only such records — any tree
/// this engine produced. A foreign record whose bytes are not valid text
/// surfaces as a fault at the operation that decodes it.
pub uninterp spec fn tree_view(t: sled::Tree) -> Map<Seq<char>, Seq<char>>;

/// Relies on sled::open: opens (or creates) the database at the path.
#[verifier::external_body]
fn sled_open(path: &str) -> (r: Result<sled::Db, String>)
{
    sled::open(path).map_err(|e| format!("Failed to open Sled database at {}: {}", path, e))
}

/// Relies on sled::Db::open_tree: opens the named record collection; a tree
/// holds finitely many records.
#[verifier::external_body]
fn sled_open_tree(db: &sled::Db, name: &str) -> (r: Result<sled::Tree, String>)
    ensures
        r matches Ok(t) ==> tree_view(t).dom().finite(),
{
    db.open_tree(name.as_bytes()).map_err(|e| format!("Failed to open Sled tree: {}", e))
}

/// Relies on sled::Tree::get: returns the bytes stored under the key, which
/// this wrapper decodes as text (a decode failure is an error).
#[verifier::external_body]
fn tree_get(t: &sled::Tree, key: &str) -> (r: Result<Option<String>, String>)
    ensures
        r matches Ok(o) && o matches Some(v) ==> tree_view(*t).contains_key(key@)
            && tree_view(*t)[key@] == v@,
        r matches Ok(o) && o is None ==> !tree_view(*t).contains_key(key@),
{
    match t.get(key.as_bytes()) {
        Ok(Some(v)) => match String::from_utf8(v.to_vec()) {
            Ok(s) => Ok(Some(s)),
            Err(e) => Err(format!("Invalid UTF-8 in value for key '{}': {}", key, e)),
        },
        Ok(None) => Ok(None),
        Err(e) => Err(format!("Failed to get key '{}' from database: {}", key, e)),
    }
}

/// Relies on sled::Tree::insert: stores the value's bytes under the key's
/// bytes, replacing any previous record.
/// On an error the one attempted record update either took effect or did
/// not; no other record changes either way.
#[verifier::external_body]
fn tree_insert(t: &mut sled::Tree, key: &str, value: &str) -> (r: Result<(), String>)
    ensures
        ({
            &&& tree_view(*final(t)).dom().finite()
            &&& r is Ok ==> tree_view(*final(t)) == tree_view(*old(t)).insert(key@, value@)
            &&& r is Err ==> tree_view(*final(t)) == tree_view(*old(t)) || tree_view(*final(t))
                == tree_view(*old(t)).insert(key@, value@)
        }),
{
    match t.insert(key.as_bytes(), value.as_bytes()) {
        Ok(_) => Ok(()),
        Err(e) => Err(format!("Failed to set key '{}' in database: {}", key, e)),
    }
}

/// Relies on sled::Tree::remove: removes the record under the key,
/// reporting whether one was there.
#[verifier::external_body]
fn tree_remove(t: &mut sled::Tree, key: &str) -> (r: Result<bool, String>)
    ensures
        ({
            &&& tree_view(*final(t)).dom().finite()
            &&& r matches Ok(b) ==> b == tree_view(*old(t)).contains_key(key@) && tree_view(
                *final(t),
            ) == tree_view(*old(t)).remove(key@)
        }),
{
    match t.remove(key.as_bytes()) {
        Ok(o) => Ok(o.is_some()),
        Err(e) => Err(format!("Failed to delete key '{}' from database: {}", key, e)),
    }
}

/// Relies on sled::Tree::clear: removes every record.
#[verifier::external_body]
fn tree_clear(t: &mut sled::Tree) -> (r: Result<(), String>)
    ensures
        ({
            &&& tree_view(*final(t)).dom().finite()
            &&& r is Ok ==> tree_view(*final(t)) =~= Map::<Seq<char>, Seq<char>>::empty()
        }),
{
    t.clear().map_err(|e| format!("Failed to clear database: {}", e))
}

/// Relies on sled::Tree::iter: enumerates every record; this wrapper keeps
/// the keys, decoded as text (a decode failure is an error).
#[verifier::external_body]
fn tree_keys(t: &sled::Tree) -> (r: Result<Vec<String>, String>)
    ensures
        r matches Ok(ks) ==> ks@.map_values(|s: String| s@).no_duplicates() && (forall|
            k: Seq<char>,
        |
            ks@.map_values(|s: String| s@).contains(k) <==> tree_view(*t).dom().contains(k)),
{
    let mut keys: Vec<String> = Vec::new();
    for item in t.iter() {
        let (k, _) = item.map_err(|e| format!("Failed to iterate over database: {}", e))?;
        keys.push(
            String::from_utf8(k.to_vec()).map_err(|e| format!("Invalid UTF-8 in key: {}", e))?,
        );
    }
    Ok(keys)
}

/// Relies on sled::Tree::flush via sled::Db: forces pending writes to
/// durable storage.
#[verifier::external_body]
fn db_flush(db: &sled::Db) -> (r: Result<(), String>)
{
    match db.flush() {
        Ok(_) => Ok(()),
        Err(e) => Err(format!("Failed to flush database: {}", e)),
    }
}

/// Relies on sled::Db::size_on_disk: the database's storage footprint.
#[verifier::external_body]
fn db_size_on_disk(db: &sled::Db) -> (r: Result<u64, String>)
{
    db.size_on_disk().map_err(|e| e.to_string())
}

/// A duplicate-free enumeration of exactly a finite map's keys is as long
/// as the map.
proof fn lemma_key_enumeration_len(ks: Seq<Seq<char>>, m: Map<Seq<char>, Seq<char>>)
    requires
        ks.no_duplicates(),
        forall|k: Seq<char>| ks.contains(k) <==> m.dom().contains(k),
        m.dom().finite(),
    ensures
        ks.len() == m.len(),
{
    ks.unique_seq_to_set();
    assert(ks.to_set() =~= m.dom());
}

/// A monitoring snapshot of the persistent engine; a field the engine
/// could not compute is absent.
pub struct SledStats {
    /// The database's storage footprint on disk, in bytes, when computable.
    pub db_size_bytes: Option<u64>,
    /// The durable record count, as `len` reads it (a fault reads as zero).
    pub tree_size: u64,
    /// The cache entry count.
    pub cache_size: usize,
}

/// Tuning options for the persistent engine.
pub struct SledConfig {
    /// Enable value compression for space efficiency.
    pub compression: bool,
    /// Cache size in number of entries.
    pub cache_size: usize,
    /// Flush interval in milliseconds.
    pub flush_interval_ms: u64,
    /// Maximum database size in bytes.
    pub max_db_size: usize,
}

impl Clone for SledConfig {
    fn clone(&self) -> (r: Self)
        ensures
            r == *self,
    {
        SledConfig {
            compression: self.compression,
            cache_size: self.cache_size,
            flush_interval_ms: self.flush_interval_ms,
            max_db_size: self.max_db_size,
        }
    }
}

impl Default for SledConfig {
    /// Compression on, a thousand cache entries, a one-second flush
    /// interval, and a one-gibibyte size bound.
    fn default() -> (r: Self)
        ensures
            r == (SledConfig {
                compression: true,
                cache_size: 1000usize,
                flush_interval_ms: 1000u64,
                max_db_size: 0x40000000usize,
            }),
    {
        SledConfig {
            compression: true,
            cache_size: 1000,
            flush_interval_ms: 1000,
            max_db_size: 1024 * 1024 * 1024,
        }
    }
}

/// Persistent disk-based storage engine: a durable `sled` tree with a
/// bounded least-recently-used cache in front of it.
pub struct SledEngine {
    /// The database handle.
    db: sled::Db,
    /// The record collection.
    tree: sled::Tree,
    /// The bounded read/write-through cache.
    cache: BoundedCache,
    /// The tuning options the engine was built with.
    config: SledConfig,
}

impl SledEngine {
    /// The durable records, the source of truth.
    pub closed spec fn tree_model(self) -> Map<Seq<char>, Seq<char>> {
        tree_view(self.tree)
    }

    /// The cached records, most recently used first.
    pub closed spec fn cache_model(self) -> CacheModel {
        self.cache.model()
    }

    /// The cache capacity.
    pub closed spec fn cache_cap(self) -> nat {
        self.cache.cap()
    }

    /// The tuning options the engine was built with (the cache size is
    /// also the bounded cache's capacity; the rest are durability and
    /// performance hints).
    pub closed spec fn spec_config(self) -> SledConfig {
        self.config
    }

    /// The structural invariant: a well-formed bounded cache and a finite
    /// record map.
    pub closed spec fn wf(self) -> bool {
        self.cache.wf() && tree_view(self.tree).dom().finite()
    }

    /// Cache coherence: every cached record agrees with the durable tree.
    /// Holds after construction and is preserved by every operation that
    /// does not fail its durable write; a failed write may leave the cache
    /// ahead of the tree.
    pub open spec fn consistent(self) -> bool {
        forall|k: Seq<char>|
            #[trigger] cache_contains(self.cache_model(), k) ==> cache_value(
                self.cache_model(),
                k,
            ) == stored_opt(self.tree_model(), k)
    }

    /// Opens the engine with default tuning.
    pub fn new(storage_path: &str) -> (r: Result<SledEngine, StorageError>)
        ensures
            r matches Ok(e) ==> e.wf() && e.consistent() && e.cache_model() =~= Seq::<
                (Seq<char>, Seq<char>),
            >::empty() && e.cache_cap() == 1000 && e.spec_config() == (SledConfig {
                compression: true,
                cache_size: 1000usize,
                flush_interval_ms: 1000u64,
                max_db_size: 0x40000000usize,
            }),
            r matches Err(e) ==> e is Backend,
    {
        Self::with_config(storage_path, SledConfig::default())
    }

    /// Opens (or creates) the database at the path, opens the record
    /// collection, and puts a fresh bounded cache of the configured
    /// capacity in front of it; fails on a storage fault or on a cache
    /// capacity of zero.
    pub fn with_config(storage_path: &str, config: SledConfig) -> (r: Result<
        SledEngine,
        StorageError,
    >)
        ensures
            r matches Ok(e) ==> e.wf() && e.consistent() && e.cache_model() =~= Seq::<
                (Seq<char>, Seq<char>),
            >::empty() && e.cache_cap() == config.cache_size && e.spec_config() == config,
            config.cache_size == 0 ==> r is Err,
            config.cache_size != 0 ==> (r matches Err(e) ==> e is Backend),
    {
        let db = match sled_open(storage_path) {
            Ok(d) => d,
            Err(m) => {
                return Err(StorageError::Backend { message: m });
            },
        };
        let tree = match sled_open_tree(&db, "merkle_kv") {
            Ok(t) => t,
            Err(m) => {
                return Err(StorageError::Backend { message: m });
            },
        };
        let cache = match BoundedCache::new(config.cache_size) {
            Some(c) => c,
            None => {
                return Err(StorageError::CacheCapacity);
            },
        };
        Ok(SledEngine { db, tree, cache, config })
    }

    /// The cache capacity the engine runs with.
    pub fn cache_capacity(&self) -> (r: usize)
        requires
            self.wf(),
        ensures
            r == self.cache_cap(),
    {
        self.cache.capacity()
    }

    /// The value of a key: from the cache on a hit; otherwise from the
    /// durable tree, populating the cache. A tree fault or an undecodable
    /// record reads as absent.
    pub fn get(&mut self, key: &str) -> (r: Option<String>)
        requires
            old(self).wf(),
        ensures
            final(self).wf(),
            final(self).cache_cap() == old(self).cache_cap(),
            final(self).tree_model() == old(self).tree_model(),
            old(self).consistent() ==> final(self).consistent(),
            cache_contains(old(self).cache_model(), key@) ==> (r matches Some(v)
                && cache_value(old(self).cache_model(), key@) == Some(v@)),
            cache_contains(old(self).cache_model(), key@) ==> final(self).cache_model()
                == cache_get_model(old(self).cache_model(), key@),
            !cache_contains(old(self).cache_model(), key@) ==> (r matches Some(v)
                ==> final(self).cache_model() == cache_put_model(
                old(self).cache_model(),
                old(self).cache_cap(),
                key@,
                v@,
            )),
            r matches Some(v) ==> cache_value(final(self).cache_model(), key@) == Some(v@),
            r matches Some(v) ==> (old(self).consistent() ==> stored_opt(
                old(self).tree_model(),
                key@,
            ) == Some(v@)),
            r is None ==> final(self).cache_model() == old(self).cache_model()
                && !cache_contains(old(self).cache_model(), key@),
    {
        let ghost m0 = self.cache_model();
        proof {
            crate::store::cache::lemma_get_model_values(m0, key@);
            crate::store::cache::lemma_get_model_wf(m0, key@);
        }
        match self.cache.get(key) {
            Some(v) => {
                proof {
                    assert(cache_contains(m0, key@));
                    if old(self).consistent() {
                        assert forall|k: Seq<char>|
                            #[trigger] cache_contains(self.cache_model(), k) implies cache_value(
                            self.cache_model(),
                            k,
                        ) == stored_opt(self.tree_model(), k) by {
                            assert(cache_contains(m0, k));
                            assert(cache_value(self.cache_model(), k) == cache_value(m0, k));
                        }
                    }
                }
                Some(v)
            },
            None => {
                proof {
                    assert(!cache_contains(m0, key@));
                    assert(self.cache_model() == m0);
                }
                match tree_get(&self.tree, key) {
                    Ok(Some(v)) => {
                        proof {
                            crate::store::cache::lemma_put_model_wf(
                                m0,
                                self.cache_cap(),
                                key@,
                                v@,
                            );
                            crate::store::cache::lemma_put_model_others(
                                m0,
                                self.cache_cap(),
                                key@,
                                v@,
                            );
                        }
                        self.cache.put(key.to_owned(), v.clone());
                        proof {
                            if old(self).consistent() {
                                assert forall|k: Seq<char>|
                                    #[trigger] cache_contains(self.cache_model(), k) implies
                                    cache_value(self.cache_model(), k) == stored_opt(
                                    self.tree_model(),
                                    k,
                                ) by {
                                    if k != key@ {
                                        assert(cache_contains(m0, k));
                                    }
                                }
                            }
                        }
                        Some(v)
                    },
                    Ok(None) => None,
                    Err(_) => None,
                }
            },
        }
    }

    /// Write-through insertion: binds the key in the cache, then in the
    /// durable tree. A tree fault propagates, leaving the cache ahead of
    /// the tree until the caller addresses it; even then the one attempted
    /// record update either took effect or did not, and no other key's
    /// record changes.
    pub fn set(&mut self, key: String, value: String) -> (r: Result<(), StorageError>)
        requires
            old(self).wf(),
        ensures
            final(self).wf(),
            final(self).cache_cap() == old(self).cache_cap(),
            final(self).cache_model() == cache_put_model(
                old(self).cache_model(),
                old(self).cache_cap(),
                key@,
                value@,
            ),
            cache_value(final(self).cache_model(), key@) == Some(value@),
            r is Ok ==> final(self).tree_model() == old(self).tree_model().insert(key@, value@),
            r is Ok ==> (old(self).consistent() ==> final(self).consistent()),
            r is Err ==> final(self).tree_model() == old(self).tree_model()
                || final(self).tree_model() == old(self).tree_model().insert(key@, value@),
            forall|k2: Seq<char>|
                k2 != key@ ==> stored_opt(final(self).tree_model(), k2) == stored_opt(
                    old(self).tree_model(),
                    k2,
                ),
            r matches Err(e) ==> e is Backend,
    {
        let ghost m0 = self.cache_model();
        proof {
            crate::store::cache::lemma_put_model_wf(m0, self.cache_cap(), key@, value@);
            crate::store::cache::lemma_put_model_others(m0, self.cache_cap(), key@, value@);
        }
        self.cache.put(key.clone(), value.clone());
        match tree_insert(&mut self.tree, key.as_str(), value.as_str()) {
            Ok(_) => {
                proof {
                    if old(self).consistent() {
                        assert forall|k: Seq<char>|
                            #[trigger] cache_contains(self.cache_model(), k) implies cache_value(
                            self.cache_model(),
                            k,
                        ) == stored_opt(self.tree_model(), k) by {
                            if k != key@ {
                                assert(cache_contains(m0, k));
                            }
                        }
                    }
                }
                Ok(())
            },
            Err(m) => Err(StorageError::Backend { message: m }),
        }
    }

    /// Removes the key from the cache and from the durable tree; reports
    /// whether the durable tree had it. A tree fault reads as false, so a
    /// delete of a key absent from the tree always reports false — in
    /// particular an immediately repeated delete does.
    pub fn delete(&mut self, key: &str) -> (r: bool)
        requires
            old(self).wf(),
        ensures
            final(self).wf(),
            final(self).cache_cap() == old(self).cache_cap(),
            !cache_contains(final(self).cache_model(), key@),
            r ==> old(self).tree_model().contains_key(key@) && final(self).tree_model()
                == old(self).tree_model().remove(key@) && (old(self).consistent()
                ==> final(self).consistent()),
            !old(self).tree_model().contains_key(key@) ==> r == false,
    {
        let ghost m0 = self.cache_model();
        proof {
            crate::store::cache::lemma_pop_model_wf(m0, key@);
            crate::store::cache::lemma_pop_model_others(m0, key@);
        }
        self.cache.pop(key);
        match tree_remove(&mut self.tree, key) {
            Ok(b) => {
                proof {
                    if b && old(self).consistent() {
                        assert forall|k: Seq<char>|
                            #[trigger] cache_contains(self.cache_model(), k) implies cache_value(
                            self.cache_model(),
                            k,
                        ) == stored_opt(self.tree_model(), k) by {
                            assert(k != key@);
                            assert(cache_contains(m0, k));
                        }
                    }
                }
                b
            },
            Err(_) => false,
        }
    }

    /// Every durable key, each exactly once, in no significant order; a
    /// tree fault or an undecodable key yields an empty enumeration.
    pub fn keys(&self) -> (r: Vec<String>)
        requires
            self.wf(),
        ensures
            r@.map_values(|s: String| s@).no_duplicates(),
            forall|k: Seq<char>|
                r@.map_values(|s: String| s@).contains(k) ==> self.tree_model().dom().contains(
                    k,
                ),
            r@.len() > 0 ==> forall|k: Seq<char>|
                self.tree_model().dom().contains(k) ==> r@.map_values(|s: String| s@).contains(
                    k,
                ),
    {
        match tree_keys(&self.tree) {
            Ok(ks) => ks,
            Err(_) => Vec::new(),
        }
    }

    /// How many records the durable tree holds, counted by enumerating
    /// them; a tree fault or an undecodable key reads as zero.
    pub fn len(&self) -> (r: usize)
        requires
            self.wf(),
        ensures
            r != 0 ==> r == self.tree_model().len(),
            self.tree_model().len() == 0 ==> r == 0,
    {
        match tree_keys(&self.tree) {
            Ok(ks) => {
                proof {
                    lemma_key_enumeration_len(
                        ks@.map_values(|s: String| s@),
                        self.tree_model(),
                    );
                }
                ks.len()
            },
            Err(_) => 0,
        }
    }

    /// Whether the durable tree holds no record; a tree fault reads as
    /// empty.
    pub fn is_empty(&self) -> (r: bool)
        requires
            self.wf(),
        ensures
            self.tree_model().len() == 0 ==> r,
            !r ==> self.tree_model().len() > 0,
    {
        self.len() == 0
    }

    /// Adds the amount (one when absent) to the key's numeric value — a
    /// missing, unreadable or unparsable value counts as zero — stores the
    /// sum write-through and returns it; fails on overflow of the 64-bit
    /// range or on a durable-write fault. When the cache agrees with the
    /// tree and the key is cached or absent from the tree, the sum
    /// continues exactly from the durable value, and the overflow error
    /// occurs exactly when that sum leaves the range; the overflow error
    /// never touches the tree.
    pub fn increment(&mut self, key: &str, amount: Option<i64>) -> (r: Result<
        i64,
        StorageError,
    >)
        requires
            old(self).wf(),
        ensures
            final(self).wf(),
            final(self).cache_cap() == old(self).cache_cap(),
            r matches Ok(n) ==> final(self).tree_model() == old(self).tree_model().insert(
                key@,
                spec_format_i64(n as int),
            ) && cache_value(final(self).cache_model(), key@) == Some(spec_format_i64(n as int))
                && (old(self).consistent() ==> final(self).consistent()),
            ({
                let sum = current_int(old(self).tree_model(), key@) + amount_or_one(amount);
                old(self).consistent() && (cache_contains(old(self).cache_model(), key@)
                    || !old(self).tree_model().contains_key(key@)) ==> if i64::MIN <= sum
                    <= i64::MAX {
                    (r matches Ok(n) ==> n == sum) && (r matches Err(e) ==> e is Backend)
                } else {
                    r matches Err(e) && e is NumericOverflow
                }
            }),
            r matches Err(e) ==> (e is NumericOverflow ==> final(self).tree_model() == old(
                self,
            ).tree_model()),
            r matches Err(e) ==> e is Backend || e is NumericOverflow,
    {
        let amt: i64 = match amount {
            Some(a) => a,
            None => 1,
        };
        let cur: i64 = match self.get(key) {
            Some(v) => match parse_i64(v.as_str()) {
                Some(n) => n,
                None => 0,
            },
            None => 0,
        };
        let fits: bool = if amt >= 0 {
            cur <= i64::MAX - amt
        } else {
            cur >= i64::MIN - amt
        };
        if !fits {
            return Err(StorageError::NumericOverflow);
        }
        let sum: i64 = cur + amt;
        match self.set(key.to_owned(), format_i64(sum)) {
            Ok(_) => Ok(sum),
            Err(e) => Err(e),
        }
    }

    /// Subtracts the amount (one when absent) from the key's numeric value,
    /// with the same reading, storing, exactness and failure behavior as
    /// increment.
    pub fn decrement(&mut self, key: &str, amount: Option<i64>) -> (r: Result<
        i64,
        StorageError,
    >)
        requires
            old(self).wf(),
        ensures
            final(self).wf(),
            final(self).cache_cap() == old(self).cache_cap(),
            r matches Ok(n) ==> final(self).tree_model() == old(self).tree_model().insert(
                key@,
                spec_format_i64(n as int),
            ) && cache_value(final(self).cache_model(), key@) == Some(spec_format_i64(n as int))
                && (old(self).consistent() ==> final(self).consistent()),
            ({
                let diff = current_int(old(self).tree_model(), key@) - amount_or_one(amount);
                old(self).consistent() && (cache_contains(old(self).cache_model(), key@)
                    || !old(self).tree_model().contains_key(key@)) ==> if i64::MIN <= diff
                    <= i64::MAX {
                    (r matches Ok(n) ==> n == diff) && (r matches Err(e) ==> e is Backend)
                } else {
                    r matches Err(e) && e is NumericOverflow
                }
            }),
            r matches Err(e) ==> (e is NumericOverflow ==> final(self).tree_model() == old(
                self,
            ).tree_model()),
            r matches Err(e) ==> e is Backend || e is NumericOverflow,
    {
        let amt: i64 = match amount {
            Some(a) => a,
            None => 1,
        };
        let cur: i64 = match self.get(key) {
            Some(v) => match parse_i64(v.as_str()) {
                Some(n) => n,
                None => 0,
            },
            None => 0,
        };
        let fits: bool = if amt >= 0 {
            cur >= i64::MIN + amt
        } else {
            cur <= i64::MAX + amt
        };
        if !fits {
            return Err(StorageError::NumericOverflow);
        }
        let diff: i64 = cur - amt;
        match self.set(key.to_owned(), format_i64(diff)) {
            Ok(_) => Ok(diff),
            Err(e) => Err(e),
        }
    }

    /// Concatenates the suffix onto the key's current text (missing or
    /// unreadable counts as empty), stores the result write-through and
    /// returns it. When the cache agrees with the tree and the key is
    /// cached or absent from the tree, the result extends exactly the
    /// durable text.
    pub fn append(&mut self, key: &str, value: &str) -> (r: Result<String, StorageError>)
        requires
            old(self).wf(),
        ensures
            final(self).wf(),
            final(self).cache_cap() == old(self).cache_cap(),
            r matches Ok(v) ==> final(self).tree_model() == old(self).tree_model().insert(
                key@,
                v@,
            ) && cache_value(final(self).cache_model(), key@) == Some(v@) && (old(self).consistent()
                ==> final(self).consistent()),
            r matches Ok(v) ==> (old(self).consistent() && (cache_contains(
                old(self).cache_model(),
                key@,
            ) || !old(self).tree_model().contains_key(key@)) ==> v@ == current_text(
                old(self).tree_model(),
                key@,
            ) + value@),
            r matches Err(e) ==> e is Backend,
    {
        let cur: String = match self.get(key) {
            Some(v) => v,
            None => String::new(),
        };
        let joined = cur.concat(value);
        match self.set(key.to_owned(), joined.clone()) {
            Ok(_) => Ok(joined),
            Err(e) => Err(e),
        }
    }

    /// Concatenates the key's current text (missing or unreadable counts as
    /// empty) onto the prefix, stores the result write-through and returns
    /// it, with the same exactness as append.
    pub fn prepend(&mut self, key: &str, value: &str) -> (r: Result<String, StorageError>)
        requires
            old(self).wf(),
        ensures
            final(self).wf(),
            final(self).cache_cap() == old(self).cache_cap(),
            r matches Ok(v) ==> final(self).tree_model() == old(self).tree_model().insert(
                key@,
                v@,
            ) && cache_value(final(self).cache_model(), key@) == Some(v@) && (old(self).consistent()
                ==> final(self).consistent()),
            r matches Ok(v) ==> (old(self).consistent() && (cache_contains(
                old(self).cache_model(),
                key@,
            ) || !old(self).tree_model().contains_key(key@)) ==> v@ == value@ + current_text(
                old(self).tree_model(),
                key@,
            )),
            r matches Err(e) ==> e is Backend,
    {
        let cur: String = match self.get(key) {
            Some(v) => v,
            None => String::new(),
        };
        let joined = String::from_str(value).concat(cur.as_str());
        match self.set(key.to_owned(), joined.clone()) {
            Ok(_) => Ok(joined),
            Err(e) => Err(e),
        }
    }

    /// Removes every cache entry, then every durable record. The cache is
    /// empty afterwards whatever happens; a tree fault propagates.
    pub fn truncate(&mut self) -> (r: Result<(), StorageError>)
        requires
            old(self).wf(),
        ensures
            final(self).wf(),
            final(self).cache_cap() == old(self).cache_cap(),
            final(self).cache_model() =~= Seq::<(Seq<char>, Seq<char>)>::empty(),
            final(self).consistent(),
            r is Ok ==> final(self).tree_model() =~= Map::<Seq<char>, Seq<char>>::empty(),
            r matches Err(e) ==> e is Backend,
    {
        self.cache.clear();
        match tree_clear(&mut self.tree) {
            Ok(_) => Ok(()),
            Err(m) => Err(StorageError::Backend { message: m }),
        }
    }

    /// How many records the durable tree holds, as the fallible counting
    /// operation; like `len`, a tree fault reads as zero.
    pub fn count_keys(&self) -> (r: Result<u64, StorageError>)
        requires
            self.wf(),
        ensures
            r matches Ok(n) && (n != 0 ==> n == self.tree_model().len()) && (
            self.tree_model().len() == 0 ==> n == 0),
    {
        Ok(self.len() as u64)
    }

    /// Forces pending writes to durable storage.
    pub fn flush(&self) -> (r: Result<(), StorageError>)
        ensures
            r matches Err(e) ==> e is Backend,
    {
        match db_flush(&self.db) {
            Ok(_) => Ok(()),
            Err(m) => Err(StorageError::Backend { message: m }),
        }
    }

    /// Forces pending writes to durable storage.
    pub fn sync(&self) -> (r: Result<(), StorageError>)
        ensures
            r matches Err(e) ==> e is Backend,
    {
        self.flush()
    }

    /// A best-effort monitoring snapshot. The durable record count follows
    /// `len` (a tree fault reads as zero), the cache entry count is exact,
    /// and the storage footprint is absent when it cannot be computed.
    pub fn snapshot(&self) -> (r: SledStats)
        requires
            self.wf(),
        ensures
            r.tree_size != 0 ==> r.tree_size == self.tree_model().len(),
            self.tree_model().len() == 0 ==> r.tree_size == 0,
            r.cache_size == self.cache_model().len(),
    {
        let db_size_bytes: Option<u64> = match db_size_on_disk(&self.db) {
            Ok(size) => Some(size),
            Err(_) => None,
        };
        SledStats { db_size_bytes, tree_size: self.len() as u64, cache_size: self.cache.len() }
    }

    /// The monitoring snapshot as a text table for display: `tree_size` and
    /// `cache_size` hold the snapshot's counts as decimal text, and
    /// `db_size_bytes` is present exactly when the footprint could be
    /// computed. The snapshot itself carries the counts' contract; this
    /// table's keys and values cannot be spoken of, since nothing is known
    /// of a string-keyed map.
    pub fn stats(&self) -> (r: Result<HashMap<String, String>, StorageError>)
        requires
            self.wf(),
        ensures
            r is Ok,
    {
        let snap = self.snapshot();
        let mut table: HashMap<String, String> = HashMap::new();
        match snap.db_size_bytes {
            Some(size) => {
                table.insert(String::from_str("db_size_bytes"), format_u64(size));
            },
            None => {},
        }
        table.insert(String::from_str("tree_size"), format_u64(snap.tree_size));
        table.insert(String::from_str("cache_size"), format_u64(snap.cache_size as u64));
        Ok(table)
    }
}

impl Drop for SledEngine {
    /// Relies on sled::Tree::flush via sled::Db: disposal flushes pending
    /// writes as a guaranteed-release step; a fault here is swallowed,
    /// since disposal can return nothing.
    #[verifier::external_body]
    fn drop(&mut self)
        opens_invariants none
        no_unwind
    {
        let _ = self.db.flush();
    }
}

} // verus!
