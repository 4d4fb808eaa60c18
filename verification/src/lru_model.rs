//! The contents of a least-recently-used store as a sequence.
//!
//! A store holds key-value pairs with distinct keys, ordered by the time of
//! their last use: the pair at index 0 was used longest ago and is the
//! first to go, the last pair was used most recently. The functions here
//! say how looking a key up and pushing a pair change that sequence.

use vstd::prelude::*;

verus! {

/// Index of the first pair with the given key, or the length of `entries`
/// when no pair has it.
pub open spec fn spec_position<K, V>(entries: Seq<(K, V)>, key: K) -> int
    decreases entries.len(),
{
    if entries.len() == 0 {
        0
    } else if entries[0].0 == key {
        0
    } else {
        1 + spec_position(entries.drop_first(), key)
    }
}

/// Whether a pair with the given key is resident.
pub open spec fn spec_contains<K, V>(entries: Seq<(K, V)>, key: K) -> bool {
    spec_position(entries, key) < entries.len()
}

/// The value stored under `key`, if the key is resident.
pub open spec fn spec_lookup<K, V>(entries: Seq<(K, V)>, key: K) -> Option<V> {
    if spec_contains(entries, key) {
        Some(entries[spec_position(entries, key)].1)
    } else {
        None
    }
}

/// The store after `key` was used: its pair moves to the most recently
/// used end, and a key that is not resident changes nothing.
pub open spec fn spec_touched<K, V>(entries: Seq<(K, V)>, key: K) -> Seq<(K, V)> {
    if spec_contains(entries, key) {
        let i = spec_position(entries, key);
        entries.remove(i).push(entries[i])
    } else {
        entries
    }
}

/// The store after the pair `(key, value)` was pushed into a store that
/// holds at most `capacity` pairs. A resident key gets the new value and
/// becomes the most recently used; otherwise the pair is added, in place of
/// the least recently used pair when the store is full.
pub open spec fn spec_pushed<K, V>(entries: Seq<(K, V)>, capacity: nat, key: K, value: V) -> Seq<
    (K, V),
> {
    if spec_contains(entries, key) {
        entries.remove(spec_position(entries, key)).push((key, value))
    } else if entries.len() < capacity {
        entries.push((key, value))
    } else {
        entries.drop_first().push((key, value))
    }
}

/// The pair that pushing `key` displaces: the old pair of a resident key,
/// the least recently used pair of a full store, and nothing otherwise.
pub open spec fn spec_displaced<K, V>(entries: Seq<(K, V)>, capacity: nat, key: K) -> Option<
    (K, V),
> {
    if spec_contains(entries, key) {
        Some((key, entries[spec_position(entries, key)].1))
    } else if entries.len() < capacity {
        None
    } else {
        Some(entries[0])
    }
}

/// Whether no key occurs twice.
pub open spec fn spec_distinct_keys<K, V>(entries: Seq<(K, V)>) -> bool {
    forall|i: int, j: int|
        0 <= i < j < entries.len() ==> (#[trigger] entries[i]).0 != (#[trigger] entries[j]).0
}

/// `spec_position` is the first index whose key matches.
pub proof fn lemma_position<K, V>(entries: Seq<(K, V)>, key: K)
    ensures
        0 <= spec_position(entries, key) <= entries.len(),
        spec_position(entries, key) < entries.len() ==> entries[spec_position(entries, key)].0
            == key,
        forall|k: int| 0 <= k < spec_position(entries, key) ==> (#[trigger] entries[k]).0 != key,
    decreases entries.len(),
{
    if entries.len() > 0 && entries[0].0 != key {
        let rest = entries.drop_first();
        lemma_position(rest, key);
        assert forall|k: int| 0 <= k < spec_position(entries, key) implies (
        #[trigger] entries[k]).0 != key by {
            if k > 0 {
                assert(entries[k] == rest[k - 1]);
            }
        }
    }
}

/// An index whose key matches, and before which no key matches, is the
/// position of the key; with no match at all the position is the length.
pub proof fn lemma_position_is<K, V>(entries: Seq<(K, V)>, key: K, i: int)
    requires
        0 <= i <= entries.len(),
        i < entries.len() ==> entries[i].0 == key,
        forall|k: int| 0 <= k < i ==> (#[trigger] entries[k]).0 != key,
    ensures
        spec_position(entries, key) == i,
{
    lemma_position(entries, key);
    let p = spec_position(entries, key);
    if p < i {
        assert(entries[p].0 == key);
    }
}

/// Using a key keeps the keys distinct and the number of pairs the same.
pub proof fn lemma_touched<K, V>(entries: Seq<(K, V)>, key: K)
    requires
        spec_distinct_keys(entries),
    ensures
        spec_distinct_keys(spec_touched(entries, key)),
        spec_touched(entries, key).len() == entries.len(),
        spec_lookup(spec_touched(entries, key), key) == spec_lookup(entries, key),
{
    lemma_position(entries, key);
    if spec_contains(entries, key) {
        let i = spec_position(entries, key);
        let after = spec_touched(entries, key);
        assert forall|a: int, b: int| 0 <= a < b < after.len() implies (#[trigger] after[a]).0 != (
        #[trigger] after[b]).0 by {
            let a0 = if a < i {
                a
            } else {
                a + 1
            };
            assert(after[a] == entries[a0]);
            if b < after.len() - 1 {
                let b0 = if b < i {
                    b
                } else {
                    b + 1
                };
                assert(after[b] == entries[b0]);
            } else {
                assert(after[b] == entries[i]);
                if a0 < i {
                    assert(entries[a0].0 != entries[i].0);
                } else {
                    assert(entries[i].0 != entries[a0].0);
                }
            }
        }
        let last = after.len() - 1;
        assert(after[last] == entries[i]);
        assert forall|k: int| 0 <= k < last implies (#[trigger] after[k]).0 != key by {
            let k0 = if k < i {
                k
            } else {
                k + 1
            };
            assert(after[k] == entries[k0]);
            if k0 < i {
                assert(entries[k0].0 != entries[i].0);
            } else {
                assert(entries[i].0 != entries[k0].0);
            }
        }
        lemma_position_is(after, key, last);
    }
}

/// Pushing a pair keeps the keys distinct and the store within its
/// capacity, and leaves the pushed pair as the most recently used.
pub proof fn lemma_pushed<K, V>(entries: Seq<(K, V)>, capacity: nat, key: K, value: V)
    requires
        spec_distinct_keys(entries),
        entries.len() <= capacity,
        capacity >= 1,
    ensures
        spec_distinct_keys(spec_pushed(entries, capacity, key, value)),
        1 <= spec_pushed(entries, capacity, key, value).len() <= capacity,
        spec_pushed(entries, capacity, key, value).last() == (key, value),
        spec_lookup(spec_pushed(entries, capacity, key, value), key) == Some(value),
{
    lemma_position(entries, key);
    let after = spec_pushed(entries, capacity, key, value);
    let last = after.len() - 1;
    if spec_contains(entries, key) {
        let i = spec_position(entries, key);
        assert forall|k: int| 0 <= k < last implies (#[trigger] after[k]).0 != key by {
            let k0 = if k < i {
                k
            } else {
                k + 1
            };
            assert(after[k] == entries[k0]);
            if k0 < i {
                assert(entries[k0].0 != entries[i].0);
            } else {
                assert(entries[i].0 != entries[k0].0);
            }
        }
        assert forall|a: int, b: int| 0 <= a < b < after.len() implies (#[trigger] after[a]).0 != (
        #[trigger] after[b]).0 by {
            let a0 = if a < i {
                a
            } else {
                a + 1
            };
            assert(after[a] == entries[a0]);
            if b < last {
                let b0 = if b < i {
                    b
                } else {
                    b + 1
                };
                assert(after[b] == entries[b0]);
            } else {
                assert(after[a].0 != key);
            }
        }
    } else if entries.len() < capacity {
        assert forall|k: int| 0 <= k < last implies (#[trigger] after[k]).0 != key by {
            assert(after[k] == entries[k]);
        }
        assert forall|a: int, b: int| 0 <= a < b < after.len() implies (#[trigger] after[a]).0 != (
        #[trigger] after[b]).0 by {
            assert(after[a] == entries[a]);
            if b < last {
                assert(after[b] == entries[b]);
            } else {
                assert(after[a].0 != key);
            }
        }
    } else {
        assert forall|k: int| 0 <= k < last implies (#[trigger] after[k]).0 != key by {
            assert(after[k] == entries[k + 1]);
        }
        assert forall|a: int, b: int| 0 <= a < b < after.len() implies (#[trigger] after[a]).0 != (
        #[trigger] after[b]).0 by {
            assert(after[a] == entries[a + 1]);
            if b < last {
                assert(after[b] == entries[b + 1]);
            } else {
                assert(after[a].0 != key);
            }
        }
    }
    lemma_position_is(after, key, last);
}

/// Dropping the least recently used pair keeps the keys distinct.
pub proof fn lemma_popped<K, V>(entries: Seq<(K, V)>)
    requires
        spec_distinct_keys(entries),
        entries.len() > 0,
    ensures
        spec_distinct_keys(entries.drop_first()),
{
    let after = entries.drop_first();
    assert forall|a: int, b: int| 0 <= a < b < after.len() implies (#[trigger] after[a]).0 != (
    #[trigger] after[b]).0 by {
        assert(after[a] == entries[a + 1]);
        assert(after[b] == entries[b + 1]);
    }
}

/// A key that is looked up right after it was pushed is found, with the
/// value that was pushed, whatever the store held before.
pub proof fn lemma_lookup_after_push<K, V>(entries: Seq<(K, V)>, capacity: nat, key: K, value: V)
    requires
        spec_distinct_keys(entries),
        entries.len() <= capacity,
        capacity >= 1,
    ensures
        spec_contains(spec_pushed(entries, capacity, key, value), key),
        spec_lookup(spec_pushed(entries, capacity, key, value), key) == Some(value),
{
    lemma_pushed(entries, capacity, key, value);
}

} // verus!
