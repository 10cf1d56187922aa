//! The lock-guarded backend: the same record semantics as the volatile
//! engine, with every operation serialized — read-modify-write sequences
//! included. The exclusive borrow each operation takes is that
//! serialization: a caller that shares this engine across threads wraps it
//! in one coarse reader/writer lock and holds the write guard for the whole
//! operation, so operations on the same key and on different keys alike
//! serialize, and this backend has no lost-update race and no cross-key
//! concurrency.

use vstd::prelude::*;
use crate::error::StorageError;
use crate::numbers::{format_i64, parse_i64, spec_format_i64};
use crate::store::{amount_or_one, current_int, current_text, stored_opt};
use crate::store_map::StoreMap;

verus! {

/// Thread-safe in-memory storage engine guarded by one coarse lock.
pub struct RwLockEngine {
    /// Namespace identifier from the configuration; not used for I/O.
    path: String,
    /// The records.
    map: StoreMap,
}

impl View for RwLockEngine {
    type V = Map<Seq<char>, Seq<char>>;

    closed spec fn view(&self) -> Map<Seq<char>, Seq<char>> {
        self.map@
    }
}

impl RwLockEngine {
    /// The structural invariant of the record table.
    pub closed spec fn wf(self) -> bool {
        self.map.wf()
    }

    /// The configured namespace identifier.
    pub closed spec fn spec_path(self) -> Seq<char> {
        self.path@
    }

    /// A fresh, empty engine for the given namespace.
    pub fn new(path: &str) -> (r: Result<RwLockEngine, StorageError>)
        ensures
            r matches Ok(e) && e.wf() && e@ =~= Map::<Seq<char>, Seq<char>>::empty()
                && e.spec_path() == path@,
    {
        Ok(RwLockEngine { path: path.to_owned(), map: StoreMap::new() })
    }

    /// The configured namespace identifier.
    pub fn path(&self) -> (r: &str)
        ensures
            r@ == self.spec_path(),
    {
        self.path.as_str()
    }

    /// The value of a key, or nothing when the key is absent.
    pub fn get(&self, key: &str) -> (r: Option<String>)
        requires
            self.wf(),
        ensures
            r matches Some(v) ==> stored_opt(self@, key@) == Some(v@),
            r is None ==> stored_opt(self@, key@) is None,
    {
        self.map.get(key)
    }

    /// Binds the key to the value, replacing any previous binding.
    pub fn set(&mut self, key: String, value: String) -> (r: Result<(), StorageError>)
        requires
            old(self).wf(),
        ensures
            final(self).wf(),
            r is Ok,
            final(self)@ == old(self)@.insert(key@, value@),
    {
        self.map.insert(key, value);
        Ok(())
    }

    /// Unbinds the key; reports whether it was bound.
    pub fn delete(&mut self, key: &str) -> (r: bool)
        requires
            old(self).wf(),
        ensures
            final(self).wf(),
            r == old(self)@.contains_key(key@),
            final(self)@ == old(self)@.remove(key@),
    {
        self.map.remove(key)
    }

    /// Every bound key, each exactly once, in no significant order.
    pub fn keys(&self) -> (r: Vec<String>)
        requires
            self.wf(),
        ensures
            forall|k: Seq<char>|
                r@.map_values(|s: String| s@).contains(k) <==> self@.dom().contains(k),
            r@.map_values(|s: String| s@).no_duplicates(),
            r@.len() == self@.len(),
    {
        self.map.keys()
    }

    /// How many keys are bound.
    pub fn len(&self) -> (r: usize)
        requires
            self.wf(),
        ensures
            r == self@.len(),
    {
        self.map.len()
    }

    /// Whether no key is bound.
    pub fn is_empty(&self) -> (r: bool)
        requires
            self.wf(),
        ensures
            r == (self@.len() == 0),
    {
        self.map.len() == 0
    }

    /// Adds the amount (one when absent) to the key's numeric value — a
    /// missing or unparsable value counts as zero — stores the sum as text
    /// and returns it; fails exactly when the sum leaves the 64-bit range,
    /// leaving the state unchanged.
    pub fn increment(&mut self, key: &str, amount: Option<i64>) -> (r: Result<
        i64,
        StorageError,
    >)
        requires
            old(self).wf(),
        ensures
            final(self).wf(),
            ({
                let sum = current_int(old(self)@, key@) + amount_or_one(amount);
                if i64::MIN <= sum <= i64::MAX {
                    r matches Ok(n) && n == sum && final(self)@ == old(self)@.insert(
                        key@,
                        spec_format_i64(sum),
                    )
                } else {
                    r matches Err(e) && e is NumericOverflow && final(self)@ == old(self)@
                }
            }),
    {
        let amt: i64 = match amount {
            Some(a) => a,
            None => 1,
        };
        let cur: i64 = match self.map.get(key) {
            Some(v) => match parse_i64(v.as_str()) {
                Some(n) => n,
                None => 0,
            },
            None => 0,
        };
        let fits: bool = if amt >= 0 {
            cur <= i64::MAX - amt
        } else {
            cur >= i64::MIN - amt
        };
        if !fits {
            return Err(StorageError::NumericOverflow);
        }
        let sum: i64 = cur + amt;
        self.map.insert(key.to_owned(), format_i64(sum));
        Ok(sum)
    }

    /// Subtracts the amount (one when absent) from the key's numeric value,
    /// with the same reading, storing and overflow behavior as increment.
    pub fn decrement(&mut self, key: &str, amount: Option<i64>) -> (r: Result<
        i64,
        StorageError,
    >)
        requires
            old(self).wf(),
        ensures
            final(self).wf(),
            ({
                let diff = current_int(old(self)@, key@) - amount_or_one(amount);
                if i64::MIN <= diff <= i64::MAX {
                    r matches Ok(n) && n == diff && final(self)@ == old(self)@.insert(
                        key@,
                        spec_format_i64(diff),
                    )
                } else {
                    r matches Err(e) && e is NumericOverflow && final(self)@ == old(self)@
                }
            }),
    {
        let amt: i64 = match amount {
            Some(a) => a,
            None => 1,
        };
        let cur: i64 = match self.map.get(key) {
            Some(v) => match parse_i64(v.as_str()) {
                Some(n) => n,
                None => 0,
            },
            None => 0,
        };
        let fits: bool = if amt >= 0 {
            cur >= i64::MIN + amt
        } else {
            cur <= i64::MAX + amt
        };
        if !fits {
            return Err(StorageError::NumericOverflow);
        }
        let diff: i64 = cur - amt;
        self.map.insert(key.to_owned(), format_i64(diff));
        Ok(diff)
    }

    /// Concatenates the suffix onto the key's current text (missing counts
    /// as empty), stores the result and returns it.
    pub fn append(&mut self, key: &str, value: &str) -> (r: Result<String, StorageError>)
        requires
            old(self).wf(),
        ensures
            final(self).wf(),
            r matches Ok(v) && v@ == current_text(old(self)@, key@) + value@ && final(self)@
                == old(self)@.insert(key@, current_text(old(self)@, key@) + value@),
    {
        let cur: String = match self.map.get(key) {
            Some(v) => v,
            None => String::new(),
        };
        let joined = cur.concat(value);
        self.map.insert(key.to_owned(), joined.clone());
        Ok(joined)
    }

    /// Concatenates the key's current text (missing counts as empty) onto
    /// the prefix, stores the result and returns it.
    pub fn prepend(&mut self, key: &str, value: &str) -> (r: Result<String, StorageError>)
        requires
            old(self).wf(),
        ensures
            final(self).wf(),
            r matches Ok(v) && v@ == value@ + current_text(old(self)@, key@) && final(self)@
                == old(self)@.insert(key@, value@ + current_text(old(self)@, key@)),
    {
        let cur: String = match self.map.get(key) {
            Some(v) => v,
            None => String::new(),
        };
        let joined = String::from_str(value).concat(cur.as_str());
        self.map.insert(key.to_owned(), joined.clone());
        Ok(joined)
    }

    /// Removes every record.
    pub fn truncate(&mut self) -> (r: Result<(), StorageError>)
        requires
            old(self).wf(),
        ensures
            final(self).wf(),
            r is Ok,
            final(self)@ == Map::<Seq<char>, Seq<char>>::empty(),
    {
        self.map.clear();
        Ok(())
    }

    /// How many keys are bound, as the fallible counting operation.
    pub fn count_keys(&self) -> (r: Result<u64, StorageError>)
        requires
            self.wf(),
        ensures
            r matches Ok(n) && n == self@.len(),
    {
        Ok(self.len() as u64)
    }

    /// Forces a durable flush: a no-op for this in-memory backend.
    pub fn sync(&self) -> (r: Result<(), StorageError>)
        ensures
            r is Ok,
    {
        Ok(())
    }
}

} // verus!
