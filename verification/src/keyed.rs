//! Sequences of keyed entries: the mathematical model of the stores.
//!
//! A store is modelled as the sequence of its `(key, value)` entries in the
//! order in which the store enumerates them. No key occurs twice. Writing
//! under a key that is present replaces the value in place; writing under a
//! new key appends an entry.

use vstd::prelude::*;

verus! {

/// Whether some entry has the key.
pub open spec fn has_key<V>(entries: Seq<(Seq<char>, V)>, key: Seq<char>) -> bool {
    exists|i: int| 0 <= i < entries.len() && (#[trigger] entries[i]).0 == key
}

/// The position of an entry with the key, where there is one.
pub open spec fn slot_of<V>(entries: Seq<(Seq<char>, V)>, key: Seq<char>) -> int {
    choose|i: int| 0 <= i < entries.len() && (#[trigger] entries[i]).0 == key
}

/// The value stored under the key, if any.
pub open spec fn lookup<V>(entries: Seq<(Seq<char>, V)>, key: Seq<char>) -> Option<V> {
    if has_key(entries, key) {
        Some(entries[slot_of(entries, key)].1)
    } else {
        None
    }
}

/// The entries after writing `value` under `key`: replaced in place where the
/// key is present, appended where it is not.
pub open spec fn upsert<V>(entries: Seq<(Seq<char>, V)>, key: Seq<char>, value: V) -> Seq<
    (Seq<char>, V),
> {
    if has_key(entries, key) {
        entries.update(slot_of(entries, key), (key, value))
    } else {
        entries.push((key, value))
    }
}

/// The entries after deleting the one under `key`, the others keeping their
/// order; unchanged where the key is absent.
pub open spec fn without<V>(entries: Seq<(Seq<char>, V)>, key: Seq<char>) -> Seq<(Seq<char>, V)> {
    if has_key(entries, key) {
        entries.remove(slot_of(entries, key))
    } else {
        entries
    }
}

/// No key occurs in two entries.
pub open spec fn distinct_keys<V>(entries: Seq<(Seq<char>, V)>) -> bool {
    forall|i: int, j: int|
        0 <= i < j < entries.len() ==> (#[trigger] entries[i]).0 != (#[trigger] entries[j]).0
}

/// The keys, in enumeration order.
pub open spec fn keys_of<V>(entries: Seq<(Seq<char>, V)>) -> Seq<Seq<char>> {
    Seq::new(entries.len(), |i: int| entries[i].0)
}

/// The values, in enumeration order.
pub open spec fn values_of<V>(entries: Seq<(Seq<char>, V)>) -> Seq<V> {
    Seq::new(entries.len(), |i: int| entries[i].1)
}

/// With distinct keys, the entry at a position is the one found under its key.
pub proof fn lemma_slot_is_unique<V>(entries: Seq<(Seq<char>, V)>, i: int)
    requires
        distinct_keys(entries),
        0 <= i < entries.len(),
    ensures
        has_key(entries, entries[i].0),
        slot_of(entries, entries[i].0) == i,
        lookup(entries, entries[i].0) == Some(entries[i].1),
{
    // Whatever position is chosen for the key holds the key, and only `i` does.
    let chosen = slot_of(entries, entries[i].0);
    assert(chosen == i);
}

/// Writing keeps the keys distinct, changes the number of entries by at most
/// one, and leaves every earlier entry at its position.
pub proof fn lemma_upsert_shape<V>(entries: Seq<(Seq<char>, V)>, key: Seq<char>, value: V)
    requires
        distinct_keys(entries),
    ensures
        distinct_keys(upsert(entries, key, value)),
        has_key(entries, key) ==> upsert(entries, key, value).len() == entries.len(),
        !has_key(entries, key) ==> upsert(entries, key, value).len() == entries.len() + 1,
        keys_of(upsert(entries, key, value)).take(entries.len() as int) == keys_of(entries),
{
    let after = upsert(entries, key, value);
    assert(keys_of(after).take(entries.len() as int) =~= keys_of(entries));
}

/// After a write the key yields the written value, and every other key yields
/// what it yielded before.
pub proof fn lemma_lookup_after_upsert<V>(
    entries: Seq<(Seq<char>, V)>,
    key: Seq<char>,
    value: V,
    other: Seq<char>,
)
    requires
        distinct_keys(entries),
    ensures
        lookup(upsert(entries, key, value), key) == Some(value),
        other != key ==> lookup(upsert(entries, key, value), other) == lookup(entries, other),
{
    let after = upsert(entries, key, value);
    lemma_upsert_shape(entries, key, value);
    let at: int = if has_key(entries, key) {
        slot_of(entries, key)
    } else {
        entries.len() as int
    };
    lemma_slot_is_unique(after, at);
    if other != key && has_key(entries, other) {
        lemma_slot_is_unique(after, slot_of(entries, other));
    }
}

/// Writing twice under one key leaves what the second write alone would have
/// left.
pub proof fn lemma_upsert_overwrites<V>(
    entries: Seq<(Seq<char>, V)>,
    key: Seq<char>,
    first: V,
    second: V,
)
    requires
        distinct_keys(entries),
    ensures
        upsert(upsert(entries, key, first), key, second) == upsert(entries, key, second),
{
    let mid = upsert(entries, key, first);
    lemma_upsert_shape(entries, key, first);
    let at: int = if has_key(entries, key) {
        slot_of(entries, key)
    } else {
        entries.len() as int
    };
    lemma_slot_is_unique(mid, at);
    assert(upsert(mid, key, second) =~= upsert(entries, key, second));
}

/// Deleting keeps the keys distinct and removes exactly the entry under the
/// key: afterwards the key yields nothing and every other key yields what it
/// yielded before.
pub proof fn lemma_without_shape<V>(entries: Seq<(Seq<char>, V)>, key: Seq<char>, other: Seq<char>)
    requires
        distinct_keys(entries),
    ensures
        distinct_keys(without(entries, key)),
        has_key(entries, key) ==> without(entries, key).len() == entries.len() - 1,
        !has_key(entries, key) ==> without(entries, key) == entries,
        !has_key(without(entries, key), key),
        other != key ==> lookup(without(entries, key), other) == lookup(entries, other),
{
    let after = without(entries, key);
    if has_key(entries, key) {
        let gone = slot_of(entries, key);
        // Each entry that is left came from the same position, or from one
        // further on where it stood behind the deleted one.
        assert forall|i: int| 0 <= i < after.len() implies #[trigger] after[i] == entries[if i
            < gone {
            i
        } else {
            i + 1
        }] by {}
        if has_key(after, key) {
            let again = slot_of(after, key);
            lemma_slot_is_unique(entries, if again < gone {
                again
            } else {
                again + 1
            });
        }
        if other != key && has_key(entries, other) {
            let was = slot_of(entries, other);
            lemma_slot_is_unique(after, if was < gone {
                was
            } else {
                was - 1
            });
        }
    }
}

/// The entries that result from writing the given entries, one after the
/// other, into an empty store.
pub open spec fn rebuilt<V>(entries: Seq<(Seq<char>, V)>) -> Seq<(Seq<char>, V)>
    decreases entries.len(),
{
    if entries.len() == 0 {
        Seq::empty()
    } else {
        upsert(rebuilt(entries.drop_last()), entries.last().0, entries.last().1)
    }
}

/// A store can be read out and written back: writing its entries in
/// enumeration order into an empty store gives the same entries in the same
/// order.
pub proof fn lemma_rebuilt_is_same<V>(entries: Seq<(Seq<char>, V)>)
    requires
        distinct_keys(entries),
    ensures
        rebuilt(entries) == entries,
    decreases entries.len(),
{
    if entries.len() == 0 {
        assert(entries =~= Seq::empty());
    } else {
        let front = entries.drop_last();
        let last = entries.last();
        lemma_rebuilt_is_same(front);
        // The last key is new to what stands before it, so writing it appends.
        assert(!has_key(front, last.0)) by {
            if has_key(front, last.0) {
                assert(entries[slot_of(front, last.0)].0 == last.0);
            }
        }
        assert(front.push(last) =~= entries);
    }
}

} // verus!
