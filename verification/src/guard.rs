//! A plain key/value archive of analyses kept as text, with an owner and a
//! counter of stores.

use vstd::prelude::*;
use vstd::string::*;
use crate::decimal::{decimal_string, decimal_text};
use crate::keyed::{distinct_keys, has_key, lookup, upsert, without};
use crate::store::{keys_containing, TextStore};
use crate::text::{
    lemma_lex_transitive,
    lemma_text_order_total,
    lowercase,
    lowercase_text,
    string_less,
    text_less,
};

verus! {

/// The archive: who owns it, how many analyses were stored over its life,
/// and the analyses by identifier.
pub struct NearGravitySemanticGuard {
    owner: String,
    total_analyses: u64,
    analyses: TextStore,
}

/// View of a [`NearGravitySemanticGuard`]: the `(identifier, text)` entries
/// are in enumeration order.
pub struct GuardView {
    pub owner: Seq<char>,
    pub total_analyses: nat,
    pub analyses: Seq<(Seq<char>, Seq<char>)>,
}

/// The entries with every text put in lowercase, keys and order as they were.
pub open spec fn lowered(entries: Seq<(Seq<char>, Seq<char>)>) -> Seq<(Seq<char>, Seq<char>)> {
    Seq::new(entries.len(), |i: int| (entries[i].0, lowercase_text(entries[i].1)))
}

/// Each string sorts before the one in front of it.
pub open spec fn strictly_descending(ids: Seq<Seq<char>>) -> bool {
    forall|i: int, j: int| 0 <= i < j < ids.len() ==> text_less(#[trigger] ids[j], #[trigger] ids[i])
}

/// `ids` holds the `limit` greatest identifiers of `entries`, greatest first;
/// all of them where there are no more than `limit`.
pub open spec fn is_top_descending(
    entries: Seq<(Seq<char>, Seq<char>)>,
    limit: nat,
    ids: Seq<Seq<char>>,
) -> bool {
    &&& ids.len() == if limit <= entries.len() {
        limit
    } else {
        entries.len()
    }
    &&& strictly_descending(ids)
    &&& forall|i: int| 0 <= i < ids.len() ==> has_key(entries, #[trigger] ids[i])
    &&& forall|p: int, i: int|
        0 <= p < entries.len() && 0 <= i < ids.len() ==> ids.contains((#[trigger] entries[p]).0)
            || text_less(entries[p].0, #[trigger] ids[i])
}

proof fn lemma_top_descending_excludes(
    entries: Seq<(Seq<char>, Seq<char>)>,
    limit: nat,
    a: Seq<Seq<char>>,
    b: Seq<Seq<char>>,
    k: int,
)
    requires
        is_top_descending(entries, limit, a),
        is_top_descending(entries, limit, b),
        0 <= k < a.len(),
        forall|i: int| 0 <= i < k ==> a[i] == b[i],
    ensures
        !text_less(b[k], a[k]),
{
    if text_less(b[k], a[k]) {
        lemma_text_order_total(a[k], b[k]);
        lemma_text_order_total(a[k], a[k]);
        assert(has_key(entries, a[k]));
        let p = choose|p: int| 0 <= p < entries.len() && (#[trigger] entries[p]).0 == a[k];
        assert(b.contains(entries[p].0) || text_less(entries[p].0, b[k]));
        let j = choose|j: int| 0 <= j < b.len() && b[j] == a[k];
        if j < k {
            assert(text_less(a[k], a[j]));
        } else if j > k {
            assert(text_less(b[j], b[k]));
        }
    }
}

proof fn lemma_top_descending_agrees(
    entries: Seq<(Seq<char>, Seq<char>)>,
    limit: nat,
    a: Seq<Seq<char>>,
    b: Seq<Seq<char>>,
    n: int,
)
    requires
        is_top_descending(entries, limit, a),
        is_top_descending(entries, limit, b),
        0 <= n <= a.len(),
    ensures
        forall|i: int| 0 <= i < n ==> a[i] == b[i],
    decreases n,
{
    if n > 0 {
        lemma_top_descending_agrees(entries, limit, a, b, n - 1);
        lemma_top_descending_excludes(entries, limit, a, b, n - 1);
        lemma_top_descending_excludes(entries, limit, b, a, n - 1);
        lemma_text_order_total(a[n - 1], b[n - 1]);
    }
}

/// There is only one way to list the greatest identifiers, greatest first:
/// two lists that both do so for the same entries and limit are equal.
pub proof fn lemma_top_descending_is_unique(
    entries: Seq<(Seq<char>, Seq<char>)>,
    limit: nat,
    a: Seq<Seq<char>>,
    b: Seq<Seq<char>>,
)
    requires
        is_top_descending(entries, limit, a),
        is_top_descending(entries, limit, b),
    ensures
        a == b,
{
    lemma_top_descending_agrees(entries, limit, a, b, a.len() as int);
    assert(a =~= b);
}

impl GuardView {
    /// The identifiers of the entries whose text, in lowercase, contains
    /// `query` in lowercase; in enumeration order.
    pub open spec fn search(self, query: Seq<char>) -> Seq<Seq<char>> {
        keys_containing(lowered(self.analyses), lowercase_text(query))
    }
}

impl View for NearGravitySemanticGuard {
    type V = GuardView;

    closed spec fn view(&self) -> GuardView {
        GuardView {
            owner: self.owner@,
            total_analyses: self.total_analyses as nat,
            analyses: self.analyses@,
        }
    }
}

impl Default for NearGravitySemanticGuard {
    /// An empty archive owned by `NearGravity.near`.
    fn default() -> (guard: Self)
        ensures
            guard@ == (GuardView {
                owner: "NearGravity.near"@,
                total_analyses: 0,
                analyses: Seq::empty(),
            }),
    {
        NearGravitySemanticGuard {
            owner: String::from_str("NearGravity.near"),
            total_analyses: 0,
            analyses: TextStore::new(),
        }
    }
}

impl NearGravitySemanticGuard {
    /// An empty archive owned by `owner`.
    pub fn new(owner: String) -> (guard: Self)
        ensures
            guard@ == (GuardView { owner: owner@, total_analyses: 0, analyses: Seq::empty() }),
    {
        NearGravitySemanticGuard { owner, total_analyses: 0, analyses: TextStore::new() }
    }

    /// The archive that replaces whatever state was kept before: empty, and
    /// owned by `NearGravity.near`.
    pub fn migrate() -> (guard: Self)
        ensures
            guard@ == (GuardView {
                owner: "NearGravity.near"@,
                total_analyses: 0,
                analyses: Seq::empty(),
            }),
    {
        NearGravitySemanticGuard {
            owner: String::from_str("NearGravity.near"),
            total_analyses: 0,
            analyses: TextStore::new(),
        }
    }

    /// The archive with the given owner, count of stores and analyses, as
    /// read back from where it was kept.
    pub fn restore(owner: String, total_analyses: u64, analyses: TextStore) -> (guard: Self)
        ensures
            guard@ == (GuardView {
                owner: owner@,
                total_analyses: total_analyses as nat,
                analyses: analyses@,
            }),
    {
        NearGravitySemanticGuard { owner, total_analyses, analyses }
    }

    /// The analyses by identifier.
    pub fn analyses(&self) -> (store: &TextStore)
        ensures
            store@ == self@.analyses,
    {
        &self.analyses
    }

    /// The owner.
    pub fn get_owner(&self) -> (owner: String)
        ensures
            owner@ == self@.owner,
    {
        self.owner.clone()
    }

    /// The two statistics by name: first `total_analyses`, the number of
    /// stores over the archive's life, then `total_stored`, the number of
    /// analyses held now.
    pub fn get_stats(&self) -> (stats: Vec<(String, u64)>)
        ensures
            stats@.len() == 2,
            stats@[0].0@ == "total_analyses"@,
            stats@[0].1 == self@.total_analyses,
            stats@[1].0@ == "total_stored"@,
            stats@[1].1 == self@.analyses.len(),
    {
        let mut stats: Vec<(String, u64)> = Vec::new();
        stats.push((String::from_str("total_analyses"), self.total_analyses));
        stats.push((String::from_str("total_stored"), self.analyses.len() as u64));
        stats
    }

    /// Stores `analysis_json` under `analysis_id`, replacing what was stored
    /// there, counts the store, and returns `analysis_` followed by the new
    /// count. Neither argument may be empty.
    pub fn store_semantic_analysis(&mut self, analysis_id: String, analysis_json: String) -> (receipt:
        String)
        requires
            analysis_id@.len() > 0,
            analysis_json@.len() > 0,
            old(self)@.total_analyses < u64::MAX,
        ensures
            final(self)@ == (GuardView {
                total_analyses: old(self)@.total_analyses + 1,
                analyses: upsert(old(self)@.analyses, analysis_id@, analysis_json@),
                ..old(self)@
            }),
            receipt@ == "analysis_"@ + decimal_text(old(self)@.total_analyses + 1),
            distinct_keys(final(self)@.analyses),
    {
        self.total_analyses += 1;
        self.analyses.insert(analysis_id, analysis_json);
        let mut receipt = String::from_str("analysis_");
        let count = decimal_string(self.total_analyses);
        receipt.append(count.as_str());
        receipt
    }

    /// A copy of the text stored under `analysis_id`, if there is one.
    pub fn get_semantic_analysis(&self, analysis_id: String) -> (found: Option<String>)
        ensures
            match found {
                Some(text) => lookup(self@.analyses, analysis_id@) == Some(text@),
                None => lookup(self@.analyses, analysis_id@).is_none(),
            },
    {
        self.analyses.get(&analysis_id)
    }

    /// The analyses with every text put in lowercase.
    fn lowered_analyses(&self) -> (store: TextStore)
        ensures
            store@ == lowered(self@.analyses),
    {
        let n = self.analyses.len();
        let ghost entries = self@.analyses;
        let mut store = TextStore::new();
        let mut i: usize = 0;
        while i < n
            invariant
                i <= n,
                n == entries.len(),
                entries == self@.analyses,
                distinct_keys(entries),
                store@ == lowered(entries).take(i as int),
            decreases n - i,
        {
            let ghost before = store@;
            proof {
                // The key at `i` differs from those before it, so it is appended.
                assert(!has_key(before, entries[i as int].0)) by {
                    if has_key(before, entries[i as int].0) {
                        let j = choose|j: int|
                            0 <= j < before.len() && (#[trigger] before[j]).0 == entries[i as int].0;
                        assert(entries[j].0 != entries[i as int].0);
                    }
                }
            }
            store.insert(self.analyses.key_at(i).clone(), lowercase(self.analyses.text_at(i)));
            assert(store@ =~= lowered(entries).take(i + 1));
            i += 1;
        }
        assert(lowered(entries).take(n as int) =~= lowered(entries));
        store
    }

    /// The identifiers of the analyses whose text contains `query`, letter
    /// case aside, in enumeration order.
    pub fn search_by_query(&self, query: String) -> (ids: Vec<String>)
        ensures
            ids.deep_view() == self@.search(query@),
    {
        let needle = lowercase(&query);
        self.lowered_analyses().keys_containing(&needle)
    }

    /// All identifiers, greatest first.
    fn ids_descending(&self) -> (sorted: Vec<String>)
        ensures
            is_top_descending(self@.analyses, self@.analyses.len(), sorted.deep_view()),
    {
        let n = self.analyses.len();
        let ghost entries = self@.analyses;
        let mut sorted: Vec<String> = Vec::new();
        let mut i: usize = 0;
        while i < n
            invariant
                i <= n,
                n == entries.len(),
                entries == self@.analyses,
                distinct_keys(entries),
                sorted.len() == i,
                strictly_descending(sorted.deep_view()),
                forall|p: int| 0 <= p < i ==> sorted.deep_view().contains((#[trigger] entries[p]).0),
                forall|q: int|
                    0 <= q < sorted.len() ==> exists|p: int|
                        0 <= p < i && (#[trigger] entries[p]).0 == #[trigger] sorted.deep_view()[q],
            decreases n - i,
        {
            let key = self.analyses.key_at(i);
            let ghost before = sorted.deep_view();
            let mut at: usize = 0;
            while at < sorted.len() && string_less(key, &sorted[at])
                invariant
                    at <= sorted.len(),
                    before == sorted.deep_view(),
                    forall|q: int| 0 <= q < at ==> text_less(key@, #[trigger] before[q]),
                decreases sorted.len() - at,
            {
                at += 1;
            }
            proof {
                assert forall|q: int| at <= q < before.len() implies text_less(
                    #[trigger] before[q],
                    key@,
                ) by {
                    let p = choose|p: int|
                        0 <= p < i && (#[trigger] entries[p]).0 == before[at as int];
                    assert(entries[p].0 != entries[i as int].0);
                    lemma_text_order_total(key@, before[at as int]);
                    if q > at {
                        lemma_lex_transitive(
                            vstd::utf8::encode_utf8(before[q]),
                            vstd::utf8::encode_utf8(before[at as int]),
                            vstd::utf8::encode_utf8(key@),
                        );
                    }
                }
            }
            sorted.insert(at, key.clone());
            proof {
                let after = sorted.deep_view();
                assert(after =~= before.insert(at as int, key@));
                assert forall|a: int, b: int| 0 <= a < b < after.len() implies text_less(
                    #[trigger] after[b],
                    #[trigger] after[a],
                ) by {
                    if b < at {
                        assert(after[a] == before[a] && after[b] == before[b]);
                    } else if b == at {
                        assert(after[a] == before[a]);
                    } else if a < at {
                        assert(after[a] == before[a] && after[b] == before[b - 1]);
                    } else if a == at {
                        assert(after[b] == before[b - 1]);
                    } else {
                        assert(after[a] == before[a - 1] && after[b] == before[b - 1]);
                    }
                }
                assert forall|p: int| 0 <= p < i + 1 implies after.contains(
                    (#[trigger] entries[p]).0,
                ) by {
                    if p < i {
                        let q = choose|q: int| 0 <= q < before.len() && before[q] == entries[p].0;
                        let moved = if q < at {
                            q
                        } else {
                            q + 1
                        };
                        assert(after[moved] == entries[p].0);
                    } else {
                        assert(after[at as int] == entries[p].0);
                    }
                }
                assert forall|q: int| 0 <= q < after.len() implies exists|p: int|
                    0 <= p < i + 1 && (#[trigger] entries[p]).0 == #[trigger] after[q] by {
                    if q == at {
                        assert(entries[i as int].0 == after[q]);
                    } else {
                        let origin = if q < at {
                            q
                        } else {
                            q - 1
                        };
                        let p = choose|p: int|
                            0 <= p < i && (#[trigger] entries[p]).0 == before[origin];
                        assert(entries[p].0 == after[q]);
                    }
                }
            }
            i += 1;
        }
        proof {
            let ids = sorted.deep_view();
            assert forall|q: int| 0 <= q < ids.len() implies has_key(entries, #[trigger] ids[q]) by {
                let p = choose|p: int| 0 <= p < n && (#[trigger] entries[p]).0 == ids[q];
                assert(entries[p].0 == ids[q]);
            }
        }
        sorted
    }

    /// The `limit` greatest identifiers, greatest first; all of them, greatest
    /// first, where there are no more than `limit`. Identifiers are compared
    /// as strings are: byte by byte.
    pub fn get_recent_analyses(&self, limit: u32) -> (ids: Vec<String>)
        ensures
            is_top_descending(self@.analyses, limit as nat, ids.deep_view()),
    {
        let mut ids = self.ids_descending();
        let ghost sorted = ids.deep_view();
        let ghost entries = self@.analyses;
        if (limit as usize) < ids.len() {
            ids.truncate(limit as usize);
            proof {
                let top = ids.deep_view();
                assert(top =~= sorted.take(limit as int));
                assert forall|p: int, i: int|
                    0 <= p < entries.len() && 0 <= i < top.len() implies top.contains(
                    (#[trigger] entries[p]).0,
                ) || text_less(entries[p].0, #[trigger] top[i]) by {
                    assert(sorted.contains(entries[p].0) || text_less(entries[p].0, sorted[i]));
                    if sorted.contains(entries[p].0) {
                        let q = choose|q: int| 0 <= q < sorted.len() && sorted[q] == entries[p].0;
                        if q < limit {
                            assert(top[q] == entries[p].0);
                        } else {
                            assert(text_less(sorted[q], sorted[i]));
                        }
                    }
                }
            }
        }
        ids
    }

    /// Counts one more store without storing anything, and returns the new
    /// count.
    pub fn increment(&mut self) -> (total: u64)
        requires
            old(self)@.total_analyses < u64::MAX,
        ensures
            total == old(self)@.total_analyses + 1,
            final(self)@ == (GuardView { total_analyses: total as nat, ..old(self)@ }),
    {
        self.total_analyses += 1;
        self.total_analyses
    }

    /// Deletes the analysis stored under `analysis_id` and says whether
    /// there was one. The count of stores stays as it is.
    pub fn delete_analysis(&mut self, analysis_id: String) -> (deleted: bool)
        ensures
            deleted == has_key(old(self)@.analyses, analysis_id@),
            final(self)@ == (GuardView {
                analyses: without(old(self)@.analyses, analysis_id@),
                ..old(self)@
            }),
            distinct_keys(final(self)@.analyses),
    {
        self.analyses.remove(&analysis_id)
    }
}

} // verus!
