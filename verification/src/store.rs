//! The keyed containers: analysis records by identifier, and texts by
//! identifier.
//!
//! Both enumerate their entries in the order in which the keys first arrived.
//! A write takes the two vectors out of the store, changes them and puts them
//! back together, so that a store is well formed whenever it can be observed.

use vstd::prelude::*;
use crate::keyed::{
    distinct_keys,
    has_key,
    keys_of,
    lemma_slot_is_unique,
    lemma_upsert_shape,
    lemma_without_shape,
    lookup,
    upsert,
    values_of,
    without,
};
use crate::records::{SemanticGuardRecord, SemanticGuardRecordView};
use crate::text::{string_contains, text_contains};

verus! {

/// Position of the first string of `keys` that equals `key`.
pub fn find_key(keys: &Vec<String>, key: &String) -> (found: Option<usize>)
    ensures
        match found {
            Some(i) => i < keys.len() && keys[i as int]@ == key@ && forall|j: int|
                0 <= j < i ==> (#[trigger] keys[j])@ != key@,
            None => forall|j: int| 0 <= j < keys.len() ==> (#[trigger] keys[j])@ != key@,
        },
{
    let mut i: usize = 0;
    while i < keys.len()
        invariant
            i <= keys.len(),
            forall|j: int| 0 <= j < i ==> (#[trigger] keys[j])@ != key@,
        decreases keys.len() - i,
    {
        if keys[i] == *key {
            return Some(i);
        }
        i += 1;
    }
    None
}

/// A map from record identifier to record that remembers the order in which
/// identifiers first arrived.
///
/// The view is the sequence of `(identifier, record)` entries in enumeration
/// order. No identifier occurs twice.
pub struct RecordStore {
    keys: Vec<String>,
    records: Vec<SemanticGuardRecord>,
}

impl View for RecordStore {
    type V = Seq<(Seq<char>, SemanticGuardRecordView)>;

    closed spec fn view(&self) -> Seq<(Seq<char>, SemanticGuardRecordView)> {
        Seq::new(self.keys.len() as nat, |i: int| (self.keys[i]@, self.records[i]@))
    }
}

impl RecordStore {
    #[verifier::type_invariant]
    spec fn well_formed(&self) -> bool {
        &&& self.keys.len() == self.records.len()
        &&& distinct_keys(self@)
    }

    /// An empty store.
    pub fn new() -> (store: Self)
        ensures
            store@ == Seq::<(Seq<char>, SemanticGuardRecordView)>::empty(),
    {
        RecordStore { keys: Vec::new(), records: Vec::new() }
    }

    /// Number of identifiers stored.
    pub fn len(&self) -> (n: usize)
        ensures
            n == self@.len(),
            distinct_keys(self@),
    {
        proof {
            use_type_invariant(self);
        }
        self.keys.len()
    }

    /// Stores `record` under `key`. A record already stored under `key` is
    /// replaced and keeps its place in the enumeration; a new key goes to the
    /// end.
    pub fn insert(&mut self, key: String, record: SemanticGuardRecord)
        ensures
            final(self)@ == upsert(old(self)@, key@, record@),
            distinct_keys(old(self)@),
            distinct_keys(final(self)@),
    {
        proof {
            use_type_invariant(&*self);
        }
        let ghost before = self@;
        let mut taken = RecordStore::new();
        core::mem::swap(self, &mut taken);
        let RecordStore { mut keys, mut records } = taken;
        match find_key(&keys, &key) {
            Some(i) => {
                proof {
                    assert(before[i as int].0 == key@);
                    lemma_slot_is_unique(before, i as int);
                }
                records.set(i, record);
            },
            None => {
                proof {
                    assert forall|j: int| 0 <= j < before.len() implies (#[trigger] before[j]).0
                        != key@ by {
                        assert(keys[j]@ != key@);
                    }
                }
                keys.push(key);
                records.push(record);
            },
        }
        proof {
            lemma_upsert_shape(before, key@, record@);
            assert(Seq::new(keys.len() as nat, |i: int| (keys[i]@, records[i]@)) =~= upsert(
                before,
                key@,
                record@,
            ));
        }
        *self = RecordStore { keys, records };
    }

    /// A copy of the record stored under `key`, if there is one.
    pub fn get(&self, key: &String) -> (found: Option<SemanticGuardRecord>)
        ensures
            match found {
                Some(record) => lookup(self@, key@) == Some(record@),
                None => lookup(self@, key@).is_none(),
            },
    {
        proof {
            use_type_invariant(self);
        }
        match find_key(&self.keys, key) {
            Some(i) => {
                proof {
                    assert(self@[i as int].0 == key@);
                    lemma_slot_is_unique(self@, i as int);
                }
                Some(self.records[i].clone())
            },
            None => {
                proof {
                    assert forall|j: int| 0 <= j < self@.len() implies (#[trigger] self@[j]).0
                        != key@ by {
                        assert(self.keys[j]@ != key@);
                    }
                }
                None
            },
        }
    }

    /// The record at position `i` of the enumeration.
    pub fn value_at(&self, i: usize) -> (record: &SemanticGuardRecord)
        requires
            i < self@.len(),
        ensures
            record@ == self@[i as int].1,
    {
        proof {
            use_type_invariant(self);
        }
        &self.records[i]
    }

    /// Copies of all records, in enumeration order.
    pub fn values(&self) -> (all: Vec<SemanticGuardRecord>)
        ensures
            all.deep_view() == values_of(self@),
    {
        proof {
            use_type_invariant(self);
        }
        self.records.clone()
    }

    /// Copies of all identifiers, in enumeration order.
    pub fn keys(&self) -> (all: Vec<String>)
        ensures
            all.deep_view() == keys_of(self@),
    {
        proof {
            use_type_invariant(self);
        }
        self.keys.clone()
    }
}

/// The keys, in enumeration order, of the entries whose text contains
/// `needle`.
pub open spec fn keys_containing(entries: Seq<(Seq<char>, Seq<char>)>, needle: Seq<char>) -> Seq<
    Seq<char>,
> {
    keys_of(entries.filter(|entry: (Seq<char>, Seq<char>)| text_contains(entry.1, needle)))
}

/// A map from key to text that remembers the order in which keys first
/// arrived.
///
/// The view is the sequence of `(key, text)` entries in enumeration order. No
/// key occurs twice.
pub struct TextStore {
    keys: Vec<String>,
    texts: Vec<String>,
}

impl View for TextStore {
    type V = Seq<(Seq<char>, Seq<char>)>;

    closed spec fn view(&self) -> Seq<(Seq<char>, Seq<char>)> {
        Seq::new(self.keys.len() as nat, |i: int| (self.keys[i]@, self.texts[i]@))
    }
}

impl TextStore {
    #[verifier::type_invariant]
    spec fn well_formed(&self) -> bool {
        &&& self.keys.len() == self.texts.len()
        &&& distinct_keys(self@)
    }

    /// An empty store.
    pub fn new() -> (store: Self)
        ensures
            store@ == Seq::<(Seq<char>, Seq<char>)>::empty(),
    {
        TextStore { keys: Vec::new(), texts: Vec::new() }
    }

    /// Number of keys stored.
    pub fn len(&self) -> (n: usize)
        ensures
            n == self@.len(),
            distinct_keys(self@),
    {
        proof {
            use_type_invariant(self);
        }
        self.keys.len()
    }

    /// Stores `text` under `key`. A text already stored under `key` is
    /// replaced and keeps its place in the enumeration; a new key goes to the
    /// end.
    pub fn insert(&mut self, key: String, text: String)
        ensures
            final(self)@ == upsert(old(self)@, key@, text@),
            distinct_keys(old(self)@),
            distinct_keys(final(self)@),
    {
        proof {
            use_type_invariant(&*self);
        }
        let ghost before = self@;
        let mut taken = TextStore::new();
        core::mem::swap(self, &mut taken);
        let TextStore { mut keys, mut texts } = taken;
        match find_key(&keys, &key) {
            Some(i) => {
                proof {
                    assert(before[i as int].0 == key@);
                    lemma_slot_is_unique(before, i as int);
                }
                texts.set(i, text);
            },
            None => {
                proof {
                    assert forall|j: int| 0 <= j < before.len() implies (#[trigger] before[j]).0
                        != key@ by {
                        assert(keys[j]@ != key@);
                    }
                }
                keys.push(key);
                texts.push(text);
            },
        }
        proof {
            lemma_upsert_shape(before, key@, text@);
            assert(Seq::new(keys.len() as nat, |i: int| (keys[i]@, texts[i]@)) =~= upsert(
                before,
                key@,
                text@,
            ));
        }
        *self = TextStore { keys, texts };
    }

    /// Deletes the entry under `key` and says whether there was one. The
    /// other entries keep their order.
    pub fn remove(&mut self, key: &String) -> (removed: bool)
        ensures
            removed == has_key(old(self)@, key@),
            final(self)@ == without(old(self)@, key@),
            distinct_keys(old(self)@),
            distinct_keys(final(self)@),
    {
        proof {
            use_type_invariant(&*self);
        }
        let ghost before = self@;
        proof {
            lemma_without_shape(before, key@, key@);
        }
        let mut taken = TextStore::new();
        core::mem::swap(self, &mut taken);
        let TextStore { mut keys, mut texts } = taken;
        let removed = match find_key(&keys, key) {
            Some(i) => {
                proof {
                    assert(before[i as int].0 == key@);
                    lemma_slot_is_unique(before, i as int);
                }
                keys.remove(i);
                texts.remove(i);
                true
            },
            None => {
                proof {
                    assert forall|j: int| 0 <= j < before.len() implies (#[trigger] before[j]).0
                        != key@ by {
                        assert(keys[j]@ != key@);
                    }
                }
                false
            },
        };
        proof {
            assert(Seq::new(keys.len() as nat, |i: int| (keys[i]@, texts[i]@)) =~= without(
                before,
                key@,
            ));
        }
        *self = TextStore { keys, texts };
        removed
    }

    /// A copy of the text stored under `key`, if there is one.
    pub fn get(&self, key: &String) -> (found: Option<String>)
        ensures
            match found {
                Some(text) => lookup(self@, key@) == Some(text@),
                None => lookup(self@, key@).is_none(),
            },
    {
        proof {
            use_type_invariant(self);
        }
        match find_key(&self.keys, key) {
            Some(i) => {
                proof {
                    assert(self@[i as int].0 == key@);
                    lemma_slot_is_unique(self@, i as int);
                }
                Some(self.texts[i].clone())
            },
            None => {
                proof {
                    assert forall|j: int| 0 <= j < self@.len() implies (#[trigger] self@[j]).0
                        != key@ by {
                        assert(self.keys[j]@ != key@);
                    }
                }
                None
            },
        }
    }

    /// Copies of the keys of the entries whose text contains `needle`, in
    /// enumeration order.
    pub fn keys_containing(&self, needle: &String) -> (keys: Vec<String>)
        ensures
            keys.deep_view() == keys_containing(self@, needle@),
    {
        proof {
            use_type_invariant(self);
        }
        let ghost entries = self@;
        let ghost holds = |entry: (Seq<char>, Seq<char>)| text_contains(entry.1, needle@);
        let mut keys: Vec<String> = Vec::new();
        let mut i: usize = 0;
        proof {
            assert(entries.take(0) =~= Seq::empty());
            assert(keys.deep_view() =~= keys_of(entries.take(0).filter(holds)));
        }
        while i < self.keys.len()
            invariant
                i <= self.keys.len(),
                self.keys.len() == self.texts.len(),
                entries == self@,
                holds == |entry: (Seq<char>, Seq<char>)| text_contains(entry.1, needle@),
                keys.deep_view() == keys_of(entries.take(i as int).filter(holds)),
            decreases self.keys.len() - i,
        {
            let ghost shorter = entries.take(i as int);
            let ghost longer = entries.take(i + 1);
            proof {
                reveal(Seq::filter);
                assert(longer.drop_last() =~= shorter);
                assert(longer.last() == entries[i as int]);
            }
            if string_contains(&self.texts[i], needle) {
                let ghost earlier = keys.deep_view();
                keys.push(self.keys[i].clone());
                assert(keys.deep_view() =~= earlier.push(entries[i as int].0));
                assert(keys_of(longer.filter(holds)) =~= keys_of(shorter.filter(holds)).push(
                    entries[i as int].0,
                ));
            }
            i += 1;
        }
        assert(entries.take(self.keys.len() as int) =~= entries);
        keys
    }

    /// The key at position `i` of the enumeration.
    pub fn key_at(&self, i: usize) -> (key: &String)
        requires
            i < self@.len(),
        ensures
            key@ == self@[i as int].0,
    {
        proof {
            use_type_invariant(self);
        }
        &self.keys[i]
    }

    /// The text at position `i` of the enumeration.
    pub fn text_at(&self, i: usize) -> (text: &String)
        requires
            i < self@.len(),
        ensures
            text@ == self@[i as int].1,
    {
        proof {
            use_type_invariant(self);
        }
        &self.texts[i]
    }
}

} // verus!
