//! The engine factory: the single construction site that resolves a
//! validated configuration record to one concrete backend, translating the
//! human-facing megabyte budget into the engine-native cache capacity.
//!
//! The backends form a closed set behind one uniform operation surface, the
//! `Backend` enum: callers construct one here and then speak only to its
//! operation set.

use vstd::prelude::*;
use crate::config::{lower_of, lowercase, parse_engine_name, StorageConfig, StorageEngine};
use crate::error::StorageError;
use crate::numbers::spec_format_i64;
use crate::store::kv_engine::KvEngine;
use crate::store::rwlock_engine::RwLockEngine;
use crate::store::sled_engine::{SledConfig, SledEngine};
use crate::store::{amount_or_one, current_int, current_text, stored_opt};

verus! {

/// One constructed storage backend behind the uniform operation surface.
pub enum Backend {
    /// The volatile single-owner engine.
    Memory(KvEngine),
    /// The lock-guarded engine.
    RwLock(RwLockEngine),
    /// The persistent engine.
    Sled(SledEngine),
}

impl Backend {
    /// The structural invariant of the underlying engine.
    pub open spec fn wf(self) -> bool {
        match self {
            Backend::Memory(e) => e.wf(),
            Backend::RwLock(e) => e.wf(),
            Backend::Sled(e) => e.wf(),
        }
    }

    /// The authoritative records: the in-memory map for the volatile and
    /// lock-guarded engines, the durable tree for the persistent one.
    pub open spec fn model(self) -> Map<Seq<char>, Seq<char>> {
        match self {
            Backend::Memory(e) => e@,
            Backend::RwLock(e) => e@,
            Backend::Sled(e) => e.tree_model(),
        }
    }

    /// Both backends are the same variant.
    pub open spec fn same_kind(self, other: Backend) -> bool {
        &&& (self is Memory == other is Memory)
        &&& (self is RwLock == other is RwLock)
        &&& (self is Sled == other is Sled)
    }

    /// The value of a key. For the in-memory engines this reads the map
    /// exactly; for the persistent engine a storage fault reads as absent,
    /// and the finer cache-aware contract lives on `SledEngine::get`.
    pub fn get(&mut self, key: &str) -> (r: Option<String>)
        requires
            old(self).wf(),
        ensures
            final(self).wf(),
            old(self).same_kind(*final(self)),
            final(self).model() == old(self).model(),
            !(*old(self) is Sled) ==> *final(self) == *old(self) && (r matches Some(v)
                ==> stored_opt(old(self).model(), key@) == Some(v@)) && (r is None ==> stored_opt(
                old(self).model(),
                key@,
            ) is None),
            *old(self) is Sled ==> (r matches Some(v) ==> (old(self)->Sled_0.consistent()
                ==> stored_opt(old(self).model(), key@) == Some(v@))),
    {
        match self {
            Backend::Memory(e) => e.get(key),
            Backend::RwLock(e) => e.get(key),
            Backend::Sled(e) => e.get(key),
        }
    }

    /// Binds the key to the value; a persistent-engine storage fault
    /// propagates, the in-memory engines cannot fail.
    pub fn set(&mut self, key: String, value: String) -> (r: Result<(), StorageError>)
        requires
            old(self).wf(),
        ensures
            final(self).wf(),
            old(self).same_kind(*final(self)),
            r is Ok ==> final(self).model() == old(self).model().insert(key@, value@),
            !(*old(self) is Sled) ==> r is Ok,
    {
        match self {
            Backend::Memory(e) => e.set(key, value),
            Backend::RwLock(e) => e.set(key, value),
            Backend::Sled(e) => e.set(key, value),
        }
    }

    /// Unbinds the key, reporting whether it was bound; a persistent-engine
    /// storage fault reads as false.
    pub fn delete(&mut self, key: &str) -> (r: bool)
        requires
            old(self).wf(),
        ensures
            final(self).wf(),
            old(self).same_kind(*final(self)),
            !(*old(self) is Sled) ==> r == old(self).model().contains_key(key@) && final(self).model() == old(self).model().remove(key@),
            *old(self) is Sled && r ==> old(self).model().contains_key(key@) && final(self).model() == old(self).model().remove(key@),
    {
        match self {
            Backend::Memory(e) => e.delete(key),
            Backend::RwLock(e) => e.delete(key),
            Backend::Sled(e) => e.delete(key),
        }
    }

    /// Every bound key, each exactly once, in no significant order; a
    /// persistent-engine storage fault yields an empty enumeration.
    pub fn keys(&self) -> (r: Vec<String>)
        requires
            self.wf(),
        ensures
            r@.map_values(|s: String| s@).no_duplicates(),
            forall|k: Seq<char>|
                r@.map_values(|s: String| s@).contains(k) ==> self.model().dom().contains(k),
            !(*self is Sled) ==> forall|k: Seq<char>|
                self.model().dom().contains(k) ==> r@.map_values(|s: String| s@).contains(k),
    {
        match self {
            Backend::Memory(e) => e.keys(),
            Backend::RwLock(e) => e.keys(),
            Backend::Sled(e) => e.keys(),
        }
    }

    /// How many keys are bound; on the persistent engine a storage fault
    /// reads as zero.
    pub fn len(&self) -> (r: usize)
        requires
            self.wf(),
        ensures
            !(*self is Sled) ==> r == self.model().len(),
            r != 0 ==> r == self.model().len(),
            self.model().len() == 0 ==> r == 0,
    {
        match self {
            Backend::Memory(e) => e.len(),
            Backend::RwLock(e) => e.len(),
            Backend::Sled(e) => e.len(),
        }
    }

    /// Whether no key is bound; on the persistent engine a storage fault
    /// reads as empty.
    pub fn is_empty(&self) -> (r: bool)
        requires
            self.wf(),
        ensures
            !(*self is Sled) ==> r == (self.model().len() == 0),
            self.model().len() == 0 ==> r,
            !r ==> self.model().len() > 0,
    {
        match self {
            Backend::Memory(e) => e.is_empty(),
            Backend::RwLock(e) => e.is_empty(),
            Backend::Sled(e) => e.is_empty(),
        }
    }

    /// Adds the amount (one when absent) to the key's numeric value and
    /// stores the sum as text. Exact for the in-memory engines; for the
    /// persistent engine the stored text still equals the returned sum,
    /// and the finer contract lives on `SledEngine::increment`.
    pub fn increment(&mut self, key: &str, amount: Option<i64>) -> (r: Result<
        i64,
        StorageError,
    >)
        requires
            old(self).wf(),
        ensures
            final(self).wf(),
            old(self).same_kind(*final(self)),
            r matches Ok(n) ==> final(self).model() == old(self).model().insert(
                key@,
                spec_format_i64(n as int),
            ),
            !(*old(self) is Sled) ==> ({
                let sum = current_int(old(self).model(), key@) + amount_or_one(amount);
                if i64::MIN <= sum <= i64::MAX {
                    r matches Ok(n) && n == sum
                } else {
                    r matches Err(e) && e is NumericOverflow && final(self).model() == old(self).model()
                }
            }),
    {
        match self {
            Backend::Memory(e) => e.increment(key, amount),
            Backend::RwLock(e) => e.increment(key, amount),
            Backend::Sled(e) => e.increment(key, amount),
        }
    }

    /// Subtracts the amount (one when absent) from the key's numeric value
    /// and stores the difference as text, symmetrically to increment.
    pub fn decrement(&mut self, key: &str, amount: Option<i64>) -> (r: Result<
        i64,
        StorageError,
    >)
        requires
            old(self).wf(),
        ensures
            final(self).wf(),
            old(self).same_kind(*final(self)),
            r matches Ok(n) ==> final(self).model() == old(self).model().insert(
                key@,
                spec_format_i64(n as int),
            ),
            !(*old(self) is Sled) ==> ({
                let diff = current_int(old(self).model(), key@) - amount_or_one(amount);
                if i64::MIN <= diff <= i64::MAX {
                    r matches Ok(n) && n == diff
                } else {
                    r matches Err(e) && e is NumericOverflow && final(self).model() == old(self).model()
                }
            }),
    {
        match self {
            Backend::Memory(e) => e.decrement(key, amount),
            Backend::RwLock(e) => e.decrement(key, amount),
            Backend::Sled(e) => e.decrement(key, amount),
        }
    }

    /// Concatenates the suffix onto the key's current text and stores the
    /// result; exact for the in-memory engines.
    pub fn append(&mut self, key: &str, value: &str) -> (r: Result<String, StorageError>)
        requires
            old(self).wf(),
        ensures
            final(self).wf(),
            old(self).same_kind(*final(self)),
            r matches Ok(v) ==> final(self).model() == old(self).model().insert(key@, v@),
            !(*old(self) is Sled) ==> (r matches Ok(v) && v@ == current_text(
                old(self).model(),
                key@,
            ) + value@),
    {
        match self {
            Backend::Memory(e) => e.append(key, value),
            Backend::RwLock(e) => e.append(key, value),
            Backend::Sled(e) => e.append(key, value),
        }
    }

    /// Concatenates the key's current text onto the prefix and stores the
    /// result; exact for the in-memory engines.
    pub fn prepend(&mut self, key: &str, value: &str) -> (r: Result<String, StorageError>)
        requires
            old(self).wf(),
        ensures
            final(self).wf(),
            old(self).same_kind(*final(self)),
            r matches Ok(v) ==> final(self).model() == old(self).model().insert(key@, v@),
            !(*old(self) is Sled) ==> (r matches Ok(v) && v@ == value@ + current_text(
                old(self).model(),
                key@,
            )),
    {
        match self {
            Backend::Memory(e) => e.prepend(key, value),
            Backend::RwLock(e) => e.prepend(key, value),
            Backend::Sled(e) => e.prepend(key, value),
        }
    }

    /// Removes every record (and, on the persistent engine, every cache
    /// entry).
    pub fn truncate(&mut self) -> (r: Result<(), StorageError>)
        requires
            old(self).wf(),
        ensures
            final(self).wf(),
            old(self).same_kind(*final(self)),
            r is Ok ==> final(self).model() =~= Map::<Seq<char>, Seq<char>>::empty(),
            !(*old(self) is Sled) ==> r is Ok,
    {
        match self {
            Backend::Memory(e) => e.truncate(),
            Backend::RwLock(e) => e.truncate(),
            Backend::Sled(e) => e.truncate(),
        }
    }

    /// How many keys are bound, as the fallible counting operation; on the
    /// persistent engine a storage fault reads as zero.
    pub fn count_keys(&self) -> (r: Result<u64, StorageError>)
        requires
            self.wf(),
        ensures
            r matches Ok(n) && (n != 0 ==> n == self.model().len()) && (self.model().len() == 0
                ==> n == 0),
            !(*self is Sled) ==> (r matches Ok(n) && n == self.model().len()),
    {
        match self {
            Backend::Memory(e) => e.count_keys(),
            Backend::RwLock(e) => e.count_keys(),
            Backend::Sled(e) => e.count_keys(),
        }
    }

    /// Forces a durable flush; a no-op for the in-memory engines.
    pub fn sync(&self) -> (r: Result<(), StorageError>)
        ensures
            !(*self is Sled) ==> r is Ok,
    {
        match self {
            Backend::Memory(e) => e.sync(),
            Backend::RwLock(e) => e.sync(),
            Backend::Sled(e) => e.sync(),
        }
    }
}

/// The cache capacity, in entries, that a megabyte budget buys: 1024
/// entries per configured megabyte, floored at one hundred entries.
pub open spec fn spec_cache_entries(mb: int) -> int {
    if mb * 1024 < 100 {
        100
    } else {
        mb * 1024
    }
}

/// Builds the configured backend: the volatile or lock-guarded engine over
/// the configured path, or the persistent engine with its cache capacity
/// derived from the megabyte budget (1024 entries per megabyte, floored at
/// 100) and the remaining tuning passed through. Only persistent-engine
/// construction can fail.
pub fn create_storage_engine(config: &StorageConfig) -> (r: Result<Backend, StorageError>)
    requires
        config.cache_size_mb * 1024 * 1024 <= usize::MAX,
        config.max_db_size_mb * 1024 * 1024 <= usize::MAX,
    ensures
        config.engine is Memory ==> (r matches Ok(b) && b matches Backend::Memory(e) && e.wf()
            && e@ =~= Map::<Seq<char>, Seq<char>>::empty() && e.spec_path() == config.path@),
        config.engine is RwLock ==> (r matches Ok(b) && b matches Backend::RwLock(e) && e.wf()
            && e@ =~= Map::<Seq<char>, Seq<char>>::empty() && e.spec_path() == config.path@),
        config.engine is Sled ==> (r matches Ok(b) ==> b matches Backend::Sled(e) && e.wf()
            && e.consistent() && e.cache_model() =~= Seq::<(Seq<char>, Seq<char>)>::empty()
            && e.cache_cap() == spec_cache_entries(config.cache_size_mb as int)
            && e.spec_config().compression == config.compression
            && e.spec_config().cache_size == spec_cache_entries(config.cache_size_mb as int)
            && e.spec_config().flush_interval_ms == config.flush_interval_ms
            && e.spec_config().max_db_size == config.max_db_size_mb * 1024 * 1024),
{
    match config.engine {
        StorageEngine::Memory => {
            match KvEngine::new(config.path.as_str()) {
                Ok(e) => Ok(Backend::Memory(e)),
                Err(e) => Err(e),
            }
        },
        StorageEngine::RwLock => {
            match RwLockEngine::new(config.path.as_str()) {
                Ok(e) => Ok(Backend::RwLock(e)),
                Err(e) => Err(e),
            }
        },
        StorageEngine::Sled => {
            let raw: usize = config.cache_size_mb * 1024 * 1024 / 1024;
            proof {
                assert(config.cache_size_mb * 1024 * 1024 / 1024 == config.cache_size_mb * 1024)
                    by (nonlinear_arith);
            }
            let cache_size: usize = if raw < 100 {
                100
            } else {
                raw
            };
            let max_db_size: usize = config.max_db_size_mb * 1024 * 1024;
            let sled_config = SledConfig {
                compression: config.compression,
                cache_size,
                flush_interval_ms: config.flush_interval_ms,
                max_db_size,
            };
            match SledEngine::with_config(config.path.as_str(), sled_config) {
                Ok(e) => Ok(Backend::Sled(e)),
                Err(e) => Err(e),
            }
        },
    }
}

/// Builds a backend from a bare engine name and a path, with default
/// tuning. The name is read case-insensitively: `memory` (or its alias
/// `kv`), `rwlock`, or `sled`; any other name is refused with an error
/// enumerating the valid choices.
pub fn create_storage_engine_simple(engine_type: &str, storage_path: &str) -> (r: Result<
    Backend,
    StorageError,
>)
    ensures
        ({
            let l = lower_of(engine_type@);
            if l == "memory"@ || l == "kv"@ {
                r matches Ok(b) && b matches Backend::Memory(e) && e.wf() && e@ =~= Map::<
                    Seq<char>,
                    Seq<char>,
                >::empty() && e.spec_path() == storage_path@
            } else if l == "rwlock"@ {
                r matches Ok(b) && b matches Backend::RwLock(e) && e.wf() && e@ =~= Map::<
                    Seq<char>,
                    Seq<char>,
                >::empty() && e.spec_path() == storage_path@
            } else if l == "sled"@ {
                r matches Ok(b) ==> (b matches Backend::Sled(e) && e.wf() && e.consistent()
                    && e.cache_model() =~= Seq::<(Seq<char>, Seq<char>)>::empty() && e.cache_cap()
                    == spec_cache_entries(100))
            } else {
                r matches Err(e) && e matches StorageError::UnknownEngine { name } && name@
                    == engine_type@
            }
        }),
{
    let lowered = lowercase(engine_type);
    let engine = match parse_engine_name(lowered.as_str()) {
        Some(e) => e,
        None => {
            return Err(StorageError::UnknownEngine { name: engine_type.to_owned() });
        },
    };
    let base = StorageConfig::default();
    let config = StorageConfig {
        engine,
        path: storage_path.to_owned(),
        compression: base.compression,
        cache_size_mb: base.cache_size_mb,
        flush_interval_ms: base.flush_interval_ms,
        max_db_size_mb: base.max_db_size_mb,
    };
    proof {
        assert(usize::MAX >= u32::MAX);
    }
    create_storage_engine(&config)
}

} // verus!
