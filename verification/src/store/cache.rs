//! The bounded cache: a fixed-capacity associative cache of key/value text
//! with strict least-recently-used eviction, used by the persistent backend.
//!
//! The cache itself is the `lru` crate's structure. Its state is modelled as
//! a sequence of key/value pairs ordered most-recently-used first; the spec
//! functions below say how each operation transforms that sequence, the
//! trusted wrappers assert that the crate's operations follow them, and the
//! `BoundedCache` type proves on top of that model that capacity is never
//! exceeded, that keys stay pairwise distinct, and the eviction laws.

use vstd::prelude::*;

verus! {

/// Cache state: key/value pairs, most recently used first.
pub type CacheModel = Seq<(Seq<char>, Seq<char>)>;

/// Index of the entry carrying a key, or -1 when no entry does.
pub open spec fn cache_find(m: CacheModel, k: Seq<char>) -> int
    decreases m.len(),
{
    if m.len() == 0 {
        -1
    } else if m[0].0 == k {
        0
    } else {
        let r = cache_find(m.drop_first(), k);
        if r < 0 {
            -1
        } else {
            r + 1
        }
    }
}

/// Whether some entry carries the key.
pub open spec fn cache_contains(m: CacheModel, k: Seq<char>) -> bool {
    cache_find(m, k) >= 0
}

/// The value cached under a key, if any.
pub open spec fn cache_value(m: CacheModel, k: Seq<char>) -> Option<Seq<char>> {
    let i = cache_find(m, k);
    if i < 0 {
        None
    } else {
        Some(m[i].1)
    }
}

/// No two entries share a key.
pub open spec fn cache_distinct(m: CacheModel) -> bool {
    forall|i: int, j: int| 0 <= i < j < m.len() ==> (#[trigger] m[i]).0 != (#[trigger] m[j]).0
}

/// How a lookup reorders the cache: a hit moves its entry to the front,
/// a miss changes nothing.
pub open spec fn cache_get_model(m: CacheModel, k: Seq<char>) -> CacheModel {
    let i = cache_find(m, k);
    if i < 0 {
        m
    } else {
        seq![m[i]] + m.remove(i)
    }
}

/// How an insertion transforms the cache: an existing key is re-bound and
/// moved to the front; a fresh key enters at the front, and when the cache
/// is full the rearmost (least recently used) entry leaves to make room.
pub open spec fn cache_put_model(m: CacheModel, cap: nat, k: Seq<char>, v: Seq<char>) -> CacheModel {
    let i = cache_find(m, k);
    if i >= 0 {
        seq![(k, v)] + m.remove(i)
    } else if m.len() >= cap {
        seq![(k, v)] + m.drop_last()
    } else {
        seq![(k, v)] + m
    }
}

/// How a removal transforms the cache.
pub open spec fn cache_pop_model(m: CacheModel, k: Seq<char>) -> CacheModel {
    let i = cache_find(m, k);
    if i < 0 {
        m
    } else {
        m.remove(i)
    }
}

/// What `cache_find` finds: a valid index carrying the key, or -1 exactly
/// when no entry carries it.
pub proof fn lemma_cache_find(m: CacheModel, k: Seq<char>)
    ensures
        cache_find(m, k) >= 0 ==> cache_find(m, k) < m.len() && m[cache_find(m, k)].0 == k,
        cache_find(m, k) < 0 ==> cache_find(m, k) == -1,
        cache_find(m, k) < 0 <==> (forall|i: int| 0 <= i < m.len() ==> (#[trigger] m[i]).0 != k),
    decreases m.len(),
{
    if m.len() > 0 && m[0].0 != k {
        lemma_cache_find(m.drop_first(), k);
        assert(forall|i: int| 0 <= i < m.len() - 1 ==> (#[trigger] m.drop_first()[i]) == m[i + 1]);
        if cache_find(m, k) < 0 {
            assert(forall|i: int| 1 <= i < m.len() ==> (#[trigger] m[i]).0 == m.drop_first()[i - 1].0);
        }
        if exists|i: int| 0 <= i < m.len() && (#[trigger] m[i]).0 == k {
            let i = choose|i: int| 0 <= i < m.len() && (#[trigger] m[i]).0 == k;
            assert(m.drop_first()[i - 1].0 == k);
        }
    }
}

/// Under distinct keys, only the found index carries the key.
pub proof fn lemma_cache_find_unique(m: CacheModel, k: Seq<char>)
    requires
        cache_distinct(m),
    ensures
        forall|j: int|
            0 <= j < m.len() && j != cache_find(m, k) ==> (#[trigger] m[j]).0 != k,
{
    lemma_cache_find(m, k);
}

/// An insertion preserves distinctness and the capacity bound, and leaves
/// the key cached at the front with the inserted value.
pub proof fn lemma_put_model_wf(m: CacheModel, cap: nat, k: Seq<char>, v: Seq<char>)
    requires
        cache_distinct(m),
        m.len() <= cap,
        cap >= 1,
    ensures
        cache_distinct(cache_put_model(m, cap, k, v)),
        cache_put_model(m, cap, k, v).len() <= cap,
        cache_value(cache_put_model(m, cap, k, v), k) == Some(v),
        cache_put_model(m, cap, k, v)[0] == (k, v),
{
    lemma_cache_find(m, k);
    lemma_cache_find_unique(m, k);
    let i = cache_find(m, k);
    let t = cache_put_model(m, cap, k, v);
    assert(t[0] == (k, v));
    if i >= 0 {
        let rest = m.remove(i);
        assert(forall|j: int| 0 <= j < i ==> rest[j] == m[j]);
        assert(forall|j: int| i <= j < m.len() - 1 ==> rest[j] == m[j + 1]);
        assert(forall|j: int| 0 <= j < rest.len() ==> (#[trigger] rest[j]).0 != k);
        assert(cache_distinct(rest));
        assert(forall|j: int| 1 <= j < t.len() ==> (#[trigger] t[j]) == rest[j - 1]);
    } else if m.len() >= cap {
        let rest = m.drop_last();
        assert(forall|j: int| 0 <= j < rest.len() ==> (#[trigger] rest[j]) == m[j]);
        assert(forall|j: int| 0 <= j < rest.len() ==> (#[trigger] rest[j]).0 != k);
        assert(cache_distinct(rest));
        assert(forall|j: int| 1 <= j < t.len() ==> (#[trigger] t[j]) == rest[j - 1]);
    } else {
        assert(forall|j: int| 0 <= j < m.len() ==> (#[trigger] m[j]).0 != k);
        assert(forall|j: int| 1 <= j < t.len() ==> (#[trigger] t[j]) == m[j - 1]);
    }
}

/// A lookup preserves distinctness, the length and the set of cached keys.
pub proof fn lemma_get_model_wf(m: CacheModel, k: Seq<char>)
    requires
        cache_distinct(m),
    ensures
        cache_distinct(cache_get_model(m, k)),
        cache_get_model(m, k).len() == m.len(),
        forall|x: Seq<char>| cache_contains(cache_get_model(m, k), x) == cache_contains(m, x),
        cache_contains(m, k) ==> cache_get_model(m, k)[0] == (k, cache_value(m, k)->Some_0),
    decreases m.len(),
{
    lemma_cache_find(m, k);
    lemma_cache_find_unique(m, k);
    let i = cache_find(m, k);
    if i >= 0 {
        let t = cache_get_model(m, k);
        let rest = m.remove(i);
        assert(forall|j: int| 0 <= j < i ==> rest[j] == m[j]);
        assert(forall|j: int| i <= j < m.len() - 1 ==> rest[j] == m[j + 1]);
        assert(cache_distinct(rest));
        assert(forall|j: int| 0 <= j < rest.len() ==> (#[trigger] rest[j]).0 != k);
        assert(forall|j: int| 1 <= j < t.len() ==> (#[trigger] t[j]) == rest[j - 1]);
        assert(cache_distinct(t));
        assert forall|x: Seq<char>| cache_contains(t, x) == cache_contains(m, x) by {
            lemma_cache_find(t, x);
            lemma_cache_find(m, x);
            if cache_contains(m, x) {
                let p = cache_find(m, x);
                if p == i {
                    assert(t[0].0 == x);
                } else if p < i {
                    assert(t[p + 1] == m[p]);
                } else {
                    assert(t[p] == m[p]);
                }
            }
            if cache_contains(t, x) {
                let p = cache_find(t, x);
                if p == 0 {
                    assert(m[i].0 == x);
                } else if p - 1 < i {
                    assert(m[p - 1].0 == x);
                } else {
                    assert(m[p].0 == x);
                }
            }
        }
    }
}

/// A removal preserves distinctness, removes at most one entry, and leaves
/// the key uncached.
pub proof fn lemma_pop_model_wf(m: CacheModel, k: Seq<char>)
    requires
        cache_distinct(m),
    ensures
        cache_distinct(cache_pop_model(m, k)),
        cache_pop_model(m, k).len() <= m.len(),
        !cache_contains(cache_pop_model(m, k), k),
        forall|x: Seq<char>|
            x != k ==> cache_contains(cache_pop_model(m, k), x) == cache_contains(m, x),
{
    lemma_cache_find(m, k);
    lemma_cache_find_unique(m, k);
    let i = cache_find(m, k);
    let t = cache_pop_model(m, k);
    if i >= 0 {
        assert(forall|j: int| 0 <= j < i ==> t[j] == m[j]);
        assert(forall|j: int| i <= j < m.len() - 1 ==> t[j] == m[j + 1]);
        assert(cache_distinct(t));
        lemma_cache_find(t, k);
        assert(forall|j: int| 0 <= j < t.len() ==> (#[trigger] t[j]).0 != k);
        assert forall|x: Seq<char>|
            x != k implies cache_contains(t, x) == cache_contains(m, x) by {
            lemma_cache_find(t, x);
            lemma_cache_find(m, x);
            if cache_contains(m, x) {
                let p = cache_find(m, x);
                assert(p != i);
                if p < i {
                    assert(t[p] == m[p]);
                } else {
                    assert(t[p - 1] == m[p]);
                }
            }
            if cache_contains(t, x) {
                let p = cache_find(t, x);
                if p < i {
                    assert(m[p].0 == x);
                } else {
                    assert(m[p + 1].0 == x);
                }
            }
        }
    } else {
        lemma_cache_find(t, k);
    }
}

/// Under distinct keys, any index is the one `cache_find` finds for its key,
/// so the entry there gives that key's cached value.
pub proof fn lemma_cache_value_at(m: CacheModel, i: int)
    requires
        cache_distinct(m),
        0 <= i < m.len(),
    ensures
        cache_find(m, m[i].0) == i,
        cache_contains(m, m[i].0),
        cache_value(m, m[i].0) == Some(m[i].1),
{
    lemma_cache_find(m, m[i].0);
    lemma_cache_find_unique(m, m[i].0);
    assert(cache_find(m, m[i].0) >= 0) by {
        if cache_find(m, m[i].0) < 0 {
            assert(m[i].0 != m[i].0);
        }
    }
}

/// A lookup changes no cached value.
pub proof fn lemma_get_model_values(m: CacheModel, k: Seq<char>)
    requires
        cache_distinct(m),
    ensures
        forall|x: Seq<char>|
            #[trigger] cache_value(cache_get_model(m, k), x) == cache_value(m, x),
{
    lemma_cache_find(m, k);
    lemma_cache_find_unique(m, k);
    lemma_get_model_wf(m, k);
    let i = cache_find(m, k);
    if i >= 0 {
        let t = cache_get_model(m, k);
        assert(t[0] == m[i]);
        assert(forall|j: int| 1 <= j <= i ==> (#[trigger] t[j]) == m[j - 1]);
        assert(forall|j: int| i < j < t.len() ==> (#[trigger] t[j]) == m[j]);
        assert forall|x: Seq<char>| #[trigger] cache_value(t, x) == cache_value(m, x) by {
            lemma_cache_find(t, x);
            lemma_cache_find(m, x);
            if cache_contains(m, x) {
                let p = cache_find(m, x);
                lemma_cache_value_at(m, p);
                if p == i {
                    lemma_cache_value_at(t, 0);
                } else if p < i {
                    lemma_cache_value_at(t, p + 1);
                } else {
                    lemma_cache_value_at(t, p);
                }
            }
        }
    }
}

/// An insertion changes no cached value but the inserted key's: any other
/// key still cached afterwards was cached before, with the same value.
pub proof fn lemma_put_model_others(m: CacheModel, cap: nat, k: Seq<char>, v: Seq<char>)
    requires
        cache_distinct(m),
        m.len() <= cap,
        cap >= 1,
    ensures
        forall|x: Seq<char>|
            x != k && #[trigger] cache_contains(cache_put_model(m, cap, k, v), x)
                ==> cache_contains(m, x) && cache_value(cache_put_model(m, cap, k, v), x)
                == cache_value(m, x),
{
    lemma_cache_find(m, k);
    lemma_cache_find_unique(m, k);
    lemma_put_model_wf(m, cap, k, v);
    let t = cache_put_model(m, cap, k, v);
    let i = cache_find(m, k);
    assert forall|x: Seq<char>|
        x != k && #[trigger] cache_contains(t, x) implies cache_contains(m, x) && cache_value(
        t,
        x,
    ) == cache_value(m, x) by {
        lemma_cache_find(t, x);
        let p = cache_find(t, x);
        assert(p >= 1) by {
            assert(t[0].0 == k);
        }
        lemma_cache_value_at(t, p);
        if i >= 0 {
            let rest = m.remove(i);
            assert(forall|j: int| 0 <= j < i ==> (#[trigger] rest[j]) == m[j]);
            assert(forall|j: int| i <= j < m.len() - 1 ==> (#[trigger] rest[j]) == m[j + 1]);
            if p - 1 < i {
                lemma_cache_value_at(m, p - 1);
            } else {
                lemma_cache_value_at(m, p);
            }
        } else {
            assert(t[p] == m[p - 1]);
            lemma_cache_value_at(m, p - 1);
        }
    }
}

/// A removal changes no other key's cached value.
pub proof fn lemma_pop_model_others(m: CacheModel, k: Seq<char>)
    requires
        cache_distinct(m),
    ensures
        forall|x: Seq<char>|
            x != k && #[trigger] cache_contains(cache_pop_model(m, k), x) ==> cache_contains(
                m,
                x,
            ) && cache_value(cache_pop_model(m, k), x) == cache_value(m, x),
{
    lemma_cache_find(m, k);
    lemma_cache_find_unique(m, k);
    lemma_pop_model_wf(m, k);
    let t = cache_pop_model(m, k);
    let i = cache_find(m, k);
    assert forall|x: Seq<char>|
        x != k && #[trigger] cache_contains(t, x) implies cache_contains(m, x) && cache_value(
        t,
        x,
    ) == cache_value(m, x) by {
        if i >= 0 {
            assert(forall|j: int| 0 <= j < i ==> (#[trigger] t[j]) == m[j]);
            assert(forall|j: int| i <= j < m.len() - 1 ==> (#[trigger] t[j]) == m[j + 1]);
            lemma_cache_find(t, x);
            let p = cache_find(t, x);
            lemma_cache_value_at(t, p);
            if p < i {
                lemma_cache_value_at(m, p);
            } else {
                lemma_cache_value_at(m, p + 1);
            }
        }
    }
}

/// Law: inserting one fresh key into a full cache evicts exactly the
/// least-recently-used entry: the rearmost key leaves, every other cached
/// key stays, and the fresh key enters at the front.
pub proof fn lemma_eviction(m: CacheModel, cap: nat, k: Seq<char>, v: Seq<char>)
    requires
        cache_distinct(m),
        m.len() == cap,
        cap >= 1,
        !cache_contains(m, k),
    ensures
        cache_put_model(m, cap, k, v) == seq![(k, v)] + m.drop_last(),
        !cache_contains(cache_put_model(m, cap, k, v), m.last().0),
        forall|j: int|
            0 <= j < m.len() - 1 ==> cache_contains(
                cache_put_model(m, cap, k, v),
                (#[trigger] m[j]).0,
            ),
{
    lemma_cache_find(m, k);
    let t = cache_put_model(m, cap, k, v);
    assert(t == seq![(k, v)] + m.drop_last());
    assert(forall|j: int| 0 <= j < m.len() - 1 ==> (#[trigger] t[j + 1]) == m[j]);
    lemma_cache_find(t, m.last().0);
    assert(forall|j: int| 0 <= j < m.len() ==> (#[trigger] m[j]).0 != k);
    assert(forall|j: int| 0 <= j < m.len() - 1 ==> (#[trigger] m[j]).0 != m.last().0);
    assert(forall|j: int| 0 <= j < t.len() ==> (#[trigger] t[j]).0 != m.last().0) by {
        assert(t[0].0 == k);
        assert(forall|j: int| 1 <= j < t.len() ==> (#[trigger] t[j]) == m[j - 1]);
    }
    assert forall|j: int|
        0 <= j < m.len() - 1 implies cache_contains(t, (#[trigger] m[j]).0) by {
        lemma_cache_find(t, m[j].0);
        assert(t[j + 1].0 == m[j].0);
    }
}

/// Law: re-accessing a key protects it from the next eviction, for caches
/// that hold at least two entries. After a hit on `x`, inserting one fresh
/// key into the full cache still leaves `x` cached. (In a cache of capacity
/// one the fresh insertion necessarily evicts the sole entry, accessed or
/// not, so that capacity is excluded.)
pub proof fn lemma_recent_access_protects(
    m: CacheModel,
    cap: nat,
    x: Seq<char>,
    k: Seq<char>,
    v: Seq<char>,
)
    requires
        cache_distinct(m),
        m.len() == cap,
        cap >= 2,
        cache_contains(m, x),
        !cache_contains(m, k),
    ensures
        cache_contains(cache_put_model(cache_get_model(m, x), cap, k, v), x),
{
    lemma_get_model_wf(m, x);
    let p = cache_get_model(m, x);
    assert(p[0].0 == x);
    assert(x != k);
    assert(!cache_contains(p, k));
    lemma_cache_find(p, k);
    let t = cache_put_model(p, cap, k, v);
    assert(t == seq![(k, v)] + p.drop_last());
    assert(t[1] == p.drop_last()[0]);
    assert(t[1].0 == x);
    lemma_cache_find(t, x);
}

/// The `lru` crate's cache, declared so it can stand in fields and
/// signatures; its state is known to the proofs only through `lru_model`
/// and `lru_cap`.
#[verifier::external_type_specification]
#[verifier::external_body]
#[verifier::reject_recursive_types(K)]
#[verifier::reject_recursive_types(V)]
#[verifier::reject_recursive_types(S)]
pub struct ExLruCache<K, V, S>(lru::LruCache<K, V, S>);

/// The hasher state the `lru` crate's cache uses by default.
#[verifier::external_type_specification]
#[verifier::external_body]
pub struct ExLruDefaultHasher(lru::DefaultHasher);

/// The entries of an `lru` cache, most recently used first.
pub uninterp spec fn lru_model(c: lru::LruCache<String, String>) -> Seq<(Seq<char>, Seq<char>)>;

/// The capacity an `lru` cache was constructed with.
pub uninterp spec fn lru_cap(c: lru::LruCache<String, String>) -> nat;

/// Relies on lru::LruCache::new: a fresh cache is empty and holds at most
/// the given number of entries.
#[verifier::external_body]
fn lru_new(cap: usize) -> (r: lru::LruCache<String, String>)
    requires
        cap >= 1,
    ensures
        lru_model(r) =~= Seq::<(Seq<char>, Seq<char>)>::empty(),
        lru_cap(r) == cap,
{
    lru::LruCache::new(std::num::NonZeroUsize::new(cap).unwrap())
}

/// Relies on lru::LruCache::get: a hit returns the cached value and moves
/// its entry to most-recently-used; a miss returns nothing and changes
/// nothing.
#[verifier::external_body]
fn lru_get(c: &mut lru::LruCache<String, String>, k: &str) -> (r: Option<String>)
    ensures
        lru_cap(*final(c)) == lru_cap(*old(c)),
        lru_model(*final(c)) == cache_get_model(lru_model(*old(c)), k@),
        r matches Some(v) ==> cache_value(lru_model(*old(c)), k@) == Some(v@),
        r is None ==> cache_value(lru_model(*old(c)), k@) is None,
{
    c.get(k).cloned()
}

/// Relies on lru::LruCache::put: an existing key is re-bound and promoted,
/// returning its previous value; a fresh key enters at most-recently-used,
/// evicting the least-recently-used entry when the cache is full.
#[verifier::external_body]
fn lru_put(c: &mut lru::LruCache<String, String>, k: String, v: String) -> (r: Option<String>)
    ensures
        lru_cap(*final(c)) == lru_cap(*old(c)),
        lru_model(*final(c)) == cache_put_model(
            lru_model(*old(c)),
            lru_cap(*old(c)),
            k@,
            v@,
        ),
        r matches Some(o) ==> cache_value(lru_model(*old(c)), k@) == Some(o@),
        r is None ==> cache_value(lru_model(*old(c)), k@) is None,
{
    c.put(k, v)
}

/// Relies on lru::LruCache::pop: removes the key's entry if present and
/// returns its value.
#[verifier::external_body]
fn lru_pop(c: &mut lru::LruCache<String, String>, k: &str) -> (r: Option<String>)
    ensures
        lru_cap(*final(c)) == lru_cap(*old(c)),
        lru_model(*final(c)) == cache_pop_model(lru_model(*old(c)), k@),
        r matches Some(o) ==> cache_value(lru_model(*old(c)), k@) == Some(o@),
        r is None ==> cache_value(lru_model(*old(c)), k@) is None,
{
    c.pop(k)
}

/// Relies on lru::LruCache::clear: removes every entry.
#[verifier::external_body]
fn lru_clear(c: &mut lru::LruCache<String, String>)
    ensures
        lru_cap(*final(c)) == lru_cap(*old(c)),
        lru_model(*final(c)) =~= Seq::<(Seq<char>, Seq<char>)>::empty(),
{
    c.clear()
}

/// Relies on lru::LruCache::len: the number of entries held.
#[verifier::external_body]
fn lru_len(c: &lru::LruCache<String, String>) -> (r: usize)
    ensures
        r == lru_model(*c).len(),
{
    c.len()
}

/// Relies on lru::LruCache::cap: the capacity the cache was constructed
/// with.
#[verifier::external_body]
fn lru_capacity(c: &lru::LruCache<String, String>) -> (r: usize)
    ensures
        r == lru_cap(*c),
{
    c.cap().get()
}

/// Fixed-capacity cache of key/value text with strict least-recently-used
/// eviction. Construction fails on a capacity of zero; thereafter the entry
/// count never exceeds the capacity and keys stay pairwise distinct.
pub struct BoundedCache {
    inner: lru::LruCache<String, String>,
}

impl BoundedCache {
    /// The entries, most recently used first.
    pub closed spec fn model(self) -> CacheModel {
        lru_model(self.inner)
    }

    /// The fixed capacity.
    pub closed spec fn cap(self) -> nat {
        lru_cap(self.inner)
    }

    /// The cache invariant: distinct keys, within a positive capacity.
    pub open spec fn wf(self) -> bool {
        cache_distinct(self.model()) && self.model().len() <= self.cap() && self.cap() >= 1
    }

    /// A fresh, empty cache; a capacity of zero is refused.
    pub fn new(capacity: usize) -> (r: Option<BoundedCache>)
        ensures
            r is Some <==> capacity >= 1,
            r matches Some(c) ==> c.wf() && c.model() =~= Seq::<(Seq<char>, Seq<char>)>::empty()
                && c.cap() == capacity,
    {
        if capacity == 0 {
            None
        } else {
            Some(BoundedCache { inner: lru_new(capacity) })
        }
    }

    /// The value cached under a key; a hit promotes the entry to
    /// most-recently-used.
    pub fn get(&mut self, key: &str) -> (r: Option<String>)
        requires
            old(self).wf(),
        ensures
            final(self).wf(),
            final(self).cap() == old(self).cap(),
            final(self).model() == cache_get_model(old(self).model(), key@),
            r matches Some(v) ==> cache_value(old(self).model(), key@) == Some(v@),
            r is None ==> cache_value(old(self).model(), key@) is None,
    {
        proof {
            lemma_get_model_wf(self.model(), key@);
        }
        lru_get(&mut self.inner, key)
    }

    /// Binds the key to the value at most-recently-used, evicting the
    /// least-recently-used entry when a fresh key enters a full cache;
    /// returns the key's previous value, if any.
    pub fn put(&mut self, key: String, value: String) -> (r: Option<String>)
        requires
            old(self).wf(),
        ensures
            final(self).wf(),
            final(self).cap() == old(self).cap(),
            final(self).model() == cache_put_model(
                old(self).model(),
                old(self).cap(),
                key@,
                value@,
            ),
            cache_value(final(self).model(), key@) == Some(value@),
            r matches Some(o) ==> cache_value(old(self).model(), key@) == Some(o@),
            r is None ==> cache_value(old(self).model(), key@) is None,
    {
        proof {
            lemma_put_model_wf(self.model(), self.cap(), key@, value@);
        }
        lru_put(&mut self.inner, key, value)
    }

    /// Removes the key's entry, returning its value, if any.
    pub fn pop(&mut self, key: &str) -> (r: Option<String>)
        requires
            old(self).wf(),
        ensures
            final(self).wf(),
            final(self).cap() == old(self).cap(),
            final(self).model() == cache_pop_model(old(self).model(), key@),
            !cache_contains(final(self).model(), key@),
            r matches Some(o) ==> cache_value(old(self).model(), key@) == Some(o@),
            r is None ==> cache_value(old(self).model(), key@) is None,
    {
        proof {
            lemma_pop_model_wf(self.model(), key@);
        }
        lru_pop(&mut self.inner, key)
    }

    /// Removes every entry.
    pub fn clear(&mut self)
        requires
            old(self).wf(),
        ensures
            final(self).wf(),
            final(self).cap() == old(self).cap(),
            final(self).model() =~= Seq::<(Seq<char>, Seq<char>)>::empty(),
    {
        lru_clear(&mut self.inner)
    }

    /// How many entries are cached.
    pub fn len(&self) -> (r: usize)
        requires
            self.wf(),
        ensures
            r == self.model().len(),
    {
        lru_len(&self.inner)
    }

    /// The fixed capacity.
    pub fn capacity(&self) -> (r: usize)
        requires
            self.wf(),
        ensures
            r == self.cap(),
    {
        lru_capacity(&self.inner)
    }
}

} // verus!
