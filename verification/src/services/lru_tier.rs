//! The fast tier of the cache: a bounded store that evicts the entry used least
//! recently. The store itself is `lru::LruCache`; this module says what its
//! operations do, over a sequence of slots that begins with the entry used most
//! recently.

use vstd::prelude::*;

verus! {

/// The hasher of `lru::LruCache`, `lru::DefaultHasher`. Nothing is said of it:
/// it only occurs in the type of the store.
#[verifier::external_type_specification]
#[verifier::external_body]
pub struct ExLruHasher(lru::DefaultHasher);

/// The store, `lru::LruCache`. Its inside is hidden; what it holds is named by
/// `lru_slots` and `lru_capacity`.
#[verifier::external_type_specification]
#[verifier::external_body]
#[verifier::reject_recursive_types(K)]
#[verifier::reject_recursive_types(V)]
#[verifier::reject_recursive_types(S)]
pub struct ExLruCache<K, V, S>(lru::LruCache<K, V, S>);

/// What the store holds: key, payload and expiry of each entry, the entry used
/// most recently first.
pub uninterp spec fn lru_slots(store: lru::LruCache<String, (String, i64)>) -> Seq<
    (Seq<char>, Seq<char>, i64),
>;

/// The number of entries that the store was made to hold.
pub uninterp spec fn lru_capacity(store: lru::LruCache<String, (String, i64)>) -> nat;

/// The position of the first slot with this key, or -1.
pub open spec fn slot_index(slots: Seq<(Seq<char>, Seq<char>, i64)>, key: Seq<char>) -> int
    decreases slots.len(),
{
    if slots.len() == 0 {
        -1
    } else if slots[0].0 == key {
        0
    } else {
        let rest = slot_index(slots.drop_first(), key);
        if rest < 0 {
            -1
        } else {
            rest + 1
        }
    }
}

/// Payload and expiry of the entry with this key.
pub open spec fn slots_lookup(slots: Seq<(Seq<char>, Seq<char>, i64)>, key: Seq<char>) -> Option<
    (Seq<char>, i64),
> {
    let at = slot_index(slots, key);
    if at < 0 {
        None
    } else {
        Some((slots[at].1, slots[at].2))
    }
}

/// The slots after a write: the written entry comes first; it replaces the entry
/// with the same key, or else, in a full store, the entry used least recently.
pub open spec fn slots_put(
    slots: Seq<(Seq<char>, Seq<char>, i64)>,
    capacity: nat,
    key: Seq<char>,
    payload: Seq<char>,
    expires_at: i64,
) -> Seq<(Seq<char>, Seq<char>, i64)> {
    let at = slot_index(slots, key);
    let fresh = seq![(key, payload, expires_at)];
    if at >= 0 {
        fresh + slots.remove(at)
    } else if slots.len() >= capacity && slots.len() > 0 {
        fresh + slots.drop_last()
    } else {
        fresh + slots
    }
}

/// The slots after a read that counts as a use: the entry moves to the front.
pub open spec fn slots_touch(slots: Seq<(Seq<char>, Seq<char>, i64)>, key: Seq<char>) -> Seq<
    (Seq<char>, Seq<char>, i64),
> {
    let at = slot_index(slots, key);
    if at < 0 {
        slots
    } else {
        seq![slots[at]] + slots.remove(at)
    }
}

/// The slots without the entry with this key.
pub open spec fn slots_remove(slots: Seq<(Seq<char>, Seq<char>, i64)>, key: Seq<char>) -> Seq<
    (Seq<char>, Seq<char>, i64),
> {
    let at = slot_index(slots, key);
    if at < 0 {
        slots
    } else {
        slots.remove(at)
    }
}

/// Whether payload and expiry are those of the slot entry.
pub open spec fn same_entry(got: Option<(String, i64)>, slot: Option<(Seq<char>, i64)>) -> bool {
    match slot {
        Some((payload, expires_at)) => got matches Some(pair) && pair.0@ == payload && pair.1
            == expires_at,
        None => got is None,
    }
}

/// Makes an empty store with `LruCache::new`. Trusted: it holds nothing and keeps
/// the capacity it was given.
#[verifier::external_body]
pub(crate) fn lru_new(capacity: usize) -> (store: lru::LruCache<String, (String, i64)>)
    requires
        capacity > 0,
    ensures
        lru_slots(store) == Seq::<(Seq<char>, Seq<char>, i64)>::empty(),
        lru_capacity(store) == capacity,
{
    lru::LruCache::new(std::num::NonZeroUsize::new(capacity).unwrap())
}

/// Writes an entry with `LruCache::put`. Trusted: the entry becomes the one used
/// most recently; an entry with the same key is replaced and handed back; where
/// the key is new and the store is full, the entry used least recently leaves.
#[verifier::external_body]
pub(crate) fn lru_put(
    store: &mut lru::LruCache<String, (String, i64)>,
    key: &str,
    payload: String,
    expires_at: i64,
) -> (replaced: Option<(String, i64)>)
    ensures
        lru_slots(*final(store)) == slots_put(
            lru_slots(*old(store)),
            lru_capacity(*old(store)),
            key@,
            payload@,
            expires_at,
        ),
        lru_capacity(*final(store)) == lru_capacity(*old(store)),
        same_entry(replaced, slots_lookup(lru_slots(*old(store)), key@)),
{
    store.put(key.to_string(), (payload, expires_at))
}

/// Reads an entry with `LruCache::get`. Trusted: the entry with this key, if
/// there is one, is handed out and becomes the one used most recently; nothing
/// else changes.
#[verifier::external_body]
pub(crate) fn lru_get(store: &mut lru::LruCache<String, (String, i64)>, key: &str) -> (found:
    Option<(String, i64)>)
    ensures
        lru_slots(*final(store)) == slots_touch(lru_slots(*old(store)), key@),
        lru_capacity(*final(store)) == lru_capacity(*old(store)),
        same_entry(found, slots_lookup(lru_slots(*old(store)), key@)),
{
    store.get(key).map(|entry| (entry.0.clone(), entry.1))
}

/// Reads an entry with `LruCache::peek`. Trusted: the entry with this key, if
/// there is one, is handed out; the store does not change.
#[verifier::external_body]
pub(crate) fn lru_peek(store: &lru::LruCache<String, (String, i64)>, key: &str) -> (found: Option<
    (String, i64),
>)
    ensures
        same_entry(found, slots_lookup(lru_slots(*store), key@)),
{
    store.peek(key).map(|entry| (entry.0.clone(), entry.1))
}

/// Removes an entry with `LruCache::pop`. Trusted: the entry with this key, if
/// there is one, leaves the store and is handed out; the others keep their order.
#[verifier::external_body]
pub(crate) fn lru_pop(store: &mut lru::LruCache<String, (String, i64)>, key: &str) -> (removed:
    Option<(String, i64)>)
    ensures
        lru_slots(*final(store)) == slots_remove(lru_slots(*old(store)), key@),
        lru_capacity(*final(store)) == lru_capacity(*old(store)),
        same_entry(removed, slots_lookup(lru_slots(*old(store)), key@)),
{
    store.pop(key)
}

/// Empties the store with `LruCache::clear`. Trusted: nothing is left and the
/// capacity stays.
#[verifier::external_body]
pub(crate) fn lru_clear(store: &mut lru::LruCache<String, (String, i64)>)
    ensures
        lru_slots(*final(store)) == Seq::<(Seq<char>, Seq<char>, i64)>::empty(),
        lru_capacity(*final(store)) == lru_capacity(*old(store)),
{
    store.clear()
}

/// Whether no two slots have the same key.
pub open spec fn keys_distinct(slots: Seq<(Seq<char>, Seq<char>, i64)>) -> bool {
    forall|i: int, j: int|
        0 <= i < j < slots.len() ==> (#[trigger] slots[i]).0 != (#[trigger] slots[j]).0
}

/// Whether some slot has this key.
pub open spec fn has_key(slots: Seq<(Seq<char>, Seq<char>, i64)>, key: Seq<char>) -> bool {
    exists|i: int| 0 <= i < slots.len() && (#[trigger] slots[i]).0 == key
}

/// `slot_index` finds the first slot with the key, and -1 only where there is none.
pub proof fn lemma_slot_index(slots: Seq<(Seq<char>, Seq<char>, i64)>, key: Seq<char>)
    ensures
        -1 <= slot_index(slots, key) < slots.len(),
        slot_index(slots, key) >= 0 ==> slots[slot_index(slots, key)].0 == key,
        forall|i: int|
            0 <= i < slots.len() && (slot_index(slots, key) < 0 || i < slot_index(slots, key))
                ==> (#[trigger] slots[i]).0 != key,
        slot_index(slots, key) >= 0 <==> has_key(slots, key),
    decreases slots.len(),
{
    if slots.len() > 0 {
        let rest = slots.drop_first();
        lemma_slot_index(rest, key);
        if slots[0].0 != key {
            let at = slot_index(slots, key);
            assert forall|i: int| 0 <= i < slots.len() && (at < 0 || i < at) implies (
            #[trigger] slots[i]).0 != key by {
                if i > 0 {
                    assert(rest[i - 1] == slots[i]);
                }
            }
            if at >= 0 {
                assert(rest[at - 1] == slots[at]);
            }
        }
    }
}

/// A write keeps the keys distinct and the store within its capacity, and the
/// written entry is found under its key.
pub proof fn lemma_put(
    slots: Seq<(Seq<char>, Seq<char>, i64)>,
    capacity: nat,
    key: Seq<char>,
    payload: Seq<char>,
    expires_at: i64,
)
    requires
        keys_distinct(slots),
        slots.len() <= capacity,
        capacity > 0,
    ensures
        keys_distinct(slots_put(slots, capacity, key, payload, expires_at)),
        slots_put(slots, capacity, key, payload, expires_at).len() <= capacity,
        slots_lookup(slots_put(slots, capacity, key, payload, expires_at), key) == Some(
            (payload, expires_at),
        ),
{
    lemma_slot_index(slots, key);
    let at = slot_index(slots, key);
    let after = slots_put(slots, capacity, key, payload, expires_at);
    assert(after[0] == (key, payload, expires_at));
    if at >= 0 {
        let rest = slots.remove(at);
        assert forall|i: int, j: int| 0 <= i < j < after.len() implies (#[trigger] after[i]).0 != (
        #[trigger] after[j]).0 by {
            let sj = if j - 1 < at {
                j - 1
            } else {
                j
            };
            assert(after[j] == slots[sj]);
            if i == 0 {
                assert(sj != at);
                if sj < at {
                    assert(slots[sj].0 != key);
                } else {
                    assert(slots[at].0 != slots[sj].0);
                }
            } else {
                let si = if i - 1 < at {
                    i - 1
                } else {
                    i
                };
                assert(after[i] == slots[si]);
            }
        }
    } else {
        let rest = if slots.len() >= capacity && slots.len() > 0 {
            slots.drop_last()
        } else {
            slots
        };
        assert forall|i: int, j: int| 0 <= i < j < after.len() implies (#[trigger] after[i]).0 != (
        #[trigger] after[j]).0 by {
            assert(after[j] == slots[j - 1]);
            if i > 0 {
                assert(after[i] == slots[i - 1]);
            }
        }
    }
}

/// A read keeps the keys distinct and the number of entries, and every key is
/// found with the payload and expiry it had.
pub proof fn lemma_touch(slots: Seq<(Seq<char>, Seq<char>, i64)>, key: Seq<char>, other: Seq<char>)
    requires
        keys_distinct(slots),
    ensures
        keys_distinct(slots_touch(slots, key)),
        slots_touch(slots, key).len() == slots.len(),
        slots_lookup(slots_touch(slots, key), other) == slots_lookup(slots, other),
{
    lemma_slot_index(slots, key);
    lemma_slot_index(slots, other);
    let at = slot_index(slots, key);
    let after = slots_touch(slots, key);
    if at >= 0 {
        assert forall|j: int| 1 <= j < after.len() implies #[trigger] after[j] == slots[if j - 1
            < at {
            j - 1
        } else {
            j
        }] by {}
        assert(after[0] == slots[at]);
        assert forall|i: int, j: int| 0 <= i < j < after.len() implies (#[trigger] after[i]).0 != (
        #[trigger] after[j]).0 by {
            let sj = if j - 1 < at {
                j - 1
            } else {
                j
            };
            assert(after[j] == slots[sj]);
            if i == 0 {
                if sj < at {
                    assert(slots[sj].0 != slots[at].0);
                } else {
                    assert(slots[at].0 != slots[sj].0);
                }
            } else {
                let si = if i - 1 < at {
                    i - 1
                } else {
                    i
                };
                assert(after[i] == slots[si]);
            }
        }
        lemma_slot_index(after, other);
        let before_at = slot_index(slots, other);
        let after_at = slot_index(after, other);
        if before_at >= 0 {
            let moved = if before_at == at {
                0
            } else if before_at < at {
                before_at + 1
            } else {
                before_at
            };
            assert(after[moved] == slots[before_at]);
            assert(after_at >= 0);
            if after_at != moved {
                if after_at < moved {
                    assert(after[after_at].0 != after[moved].0);
                } else {
                    assert(after[moved].0 != after[after_at].0);
                }
            }
        } else {
            if after_at >= 0 {
                let source = if after_at == 0 {
                    at
                } else if after_at - 1 < at {
                    after_at - 1
                } else {
                    after_at
                };
                assert(after[after_at] == slots[source]);
                assert(slots[source].0 != other);
            }
        }
    }
}

/// A removal keeps the keys distinct, leaves nothing under the removed key and
/// every other key with the payload and expiry it had.
pub proof fn lemma_remove(slots: Seq<(Seq<char>, Seq<char>, i64)>, key: Seq<char>, other: Seq<char>)
    requires
        keys_distinct(slots),
    ensures
        keys_distinct(slots_remove(slots, key)),
        slots_remove(slots, key).len() <= slots.len(),
        slots_lookup(slots_remove(slots, key), key) is None,
        other != key ==> slots_lookup(slots_remove(slots, key), other) == slots_lookup(
            slots,
            other,
        ),
{
    lemma_slot_index(slots, key);
    lemma_slot_index(slots, other);
    let at = slot_index(slots, key);
    let after = slots_remove(slots, key);
    lemma_slot_index(after, key);
    lemma_slot_index(after, other);
    if at >= 0 {
        assert forall|j: int| 0 <= j < after.len() implies #[trigger] after[j] == slots[if j < at {
            j
        } else {
            j + 1
        }] by {}
        assert forall|i: int, j: int| 0 <= i < j < after.len() implies (#[trigger] after[i]).0 != (
        #[trigger] after[j]).0 by {
            let si = if i < at {
                i
            } else {
                i + 1
            };
            let sj = if j < at {
                j
            } else {
                j + 1
            };
            assert(after[i] == slots[si] && after[j] == slots[sj]);
        }
        let gone = slot_index(after, key);
        if gone >= 0 {
            let source = if gone < at {
                gone
            } else {
                gone + 1
            };
            assert(after[gone] == slots[source]);
            if source < at {
                assert(slots[source].0 != slots[at].0);
            } else {
                assert(slots[at].0 != slots[source].0);
            }
        }
        if other != key {
            let before_at = slot_index(slots, other);
            let after_at = slot_index(after, other);
            if before_at >= 0 {
                let moved = if before_at < at {
                    before_at
                } else {
                    before_at - 1
                };
                assert(after[moved] == slots[before_at]);
                assert(after_at >= 0);
                if after_at != moved {
                    if after_at < moved {
                        assert(after[after_at].0 != after[moved].0);
                    } else {
                        assert(after[moved].0 != after[after_at].0);
                    }
                }
            } else {
                if after_at >= 0 {
                    let source = if after_at < at {
                        after_at
                    } else {
                        after_at + 1
                    };
                    assert(after[after_at] == slots[source]);
                    assert(slots[source].0 != other);
                }
            }
        }
    }
}

} // verus!
