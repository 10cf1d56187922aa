//! The storage backends and their shared operation semantics.
//!
//! Every backend presents the same operation set over one abstract state: a
//! finite map from key text to value text. The spec functions here say what
//! each operation means on that map; the laws below state the guarantees
//! that hold of any backend whose operations meet those meanings.

pub mod cache;
pub mod factory;
pub mod kv_engine;
pub mod rwlock_engine;
pub mod sled_engine;

use vstd::prelude::*;
use crate::numbers::{spec_format_i64, spec_parse_i64};

verus! {

/// What a lookup returns on the abstract record map.
pub open spec fn stored_opt(m: Map<Seq<char>, Seq<char>>, k: Seq<char>) -> Option<Seq<char>> {
    if m.contains_key(k) {
        Some(m[k])
    } else {
        None
    }
}

/// The current numeric value of a key: its text read as a signed 64-bit
/// integer, with a missing or unparsable value counting as zero.
pub open spec fn current_int(m: Map<Seq<char>, Seq<char>>, k: Seq<char>) -> int {
    if m.contains_key(k) {
        match spec_parse_i64(m[k]) {
            Some(n) => n,
            None => 0,
        }
    } else {
        0
    }
}

/// The current text of a key, with a missing value counting as empty text.
pub open spec fn current_text(m: Map<Seq<char>, Seq<char>>, k: Seq<char>) -> Seq<char> {
    if m.contains_key(k) {
        m[k]
    } else {
        Seq::empty()
    }
}

/// The amount an increment or decrement applies: the given one, or one.
pub open spec fn amount_or_one(amount: Option<i64>) -> int {
    match amount {
        Some(a) => a as int,
        None => 1,
    }
}

/// Law: setting a key and then reading it yields exactly the value set, on
/// any prior state.
pub proof fn lemma_set_then_get(m: Map<Seq<char>, Seq<char>>, k: Seq<char>, v: Seq<char>)
    ensures
        stored_opt(m.insert(k, v), k) == Some(v),
{
}

/// Law: deleting a key succeeds exactly once. On a state holding the key a
/// delete reports true and unbinds it, so a repeated delete reports false
/// and a subsequent read yields nothing.
pub proof fn lemma_delete_once(m: Map<Seq<char>, Seq<char>>, k: Seq<char>)
    ensures
        !m.remove(k).contains_key(k),
        stored_opt(m.remove(k), k) is None,
{
}

/// Law: a stored counter reads back as itself. After an increment or a
/// decrement stores the value `n`, the key's numeric value is `n`, so a
/// following increment or decrement continues from `n`.
pub proof fn lemma_counter_readback(m: Map<Seq<char>, Seq<char>>, k: Seq<char>, n: int)
    requires
        i64::MIN <= n <= i64::MAX,
    ensures
        current_int(m.insert(k, spec_format_i64(n)), k) == n,
{
    crate::numbers::lemma_format_parse_roundtrip(n);
}

/// Law: a key absent from the state has numeric value zero, so the first
/// increment of a fresh key by one yields one.
pub proof fn lemma_counter_fresh(m: Map<Seq<char>, Seq<char>>, k: Seq<char>)
    requires
        !m.contains_key(k),
    ensures
        current_int(m, k) == 0,
{
}

/// Law: stored text reads back as itself, so an append of `b` onto current
/// text `a` leaves the key reading `a + b`, and a following prepend of `c`
/// leaves it reading `c + a + b`.
pub proof fn lemma_text_readback(m: Map<Seq<char>, Seq<char>>, k: Seq<char>, t: Seq<char>)
    ensures
        current_text(m.insert(k, t), k) == t,
{
}

/// Law: after a truncation the state is the empty map: it holds no keys and
/// its size is zero, whatever it held before.
pub proof fn lemma_truncate_empty(k: Seq<char>)
    ensures
        Map::<Seq<char>, Seq<char>>::empty().len() == 0,
        stored_opt(Map::<Seq<char>, Seq<char>>::empty(), k) is None,
        !Map::<Seq<char>, Seq<char>>::empty().contains_key(k),
{
}

} // verus!
