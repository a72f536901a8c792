use semantic_guard::blob::BlobStorage;
use semantic_guard::decimal::decimal_string;
use semantic_guard::guard::NearGravitySemanticGuard;
use semantic_guard::identifier::preimage_string;
use semantic_guard::store::{find_key, TextStore};
use semantic_guard::text::{bytes_contain, bytes_less, string_contains, string_less};

fn s(text: &str) -> String {
    text.to_string()
}

fn filled() -> NearGravitySemanticGuard {
    let mut guard = NearGravitySemanticGuard::new(s("owner.near"));
    guard.store_semantic_analysis(s("beta"), s("{\"topic\": \"Rust Verification\"}"));
    guard.store_semantic_analysis(s("alpha"), s("{\"topic\": \"near protocol\"}"));
    guard.store_semantic_analysis(s("gamma"), s("{\"topic\": \"RUSTY nails\"}"));
    guard
}

#[test]
fn decimal_string_matches_the_numeral() {
    assert_eq!(decimal_string(0), "0");
    assert_eq!(decimal_string(7), "7");
    assert_eq!(decimal_string(10), "10");
    assert_eq!(decimal_string(1234567890), "1234567890");
    assert_eq!(decimal_string(u64::MAX), "18446744073709551615");
    for n in [9u64, 99, 100, 101, 4096, 1_000_000_007] {
        assert_eq!(decimal_string(n), n.to_string());
    }
}

#[test]
fn preimage_joins_query_time_and_submitter() {
    assert_eq!(preimage_string("test query", 0, "bob"), "test query0bob");
    assert_eq!(preimage_string("", 42, "alice.near"), "42alice.near");
    assert_eq!(preimage_string("q", u64::MAX, ""), "q18446744073709551615");
}

#[test]
fn blob_storage_counts_blobs() {
    let mut storage = BlobStorage::default();
    assert_eq!(storage.get_count(), 0);
    assert_eq!(storage.store_blob(s("first")), 1);
    assert_eq!(storage.store_blob(String::new()), 2);
    assert_eq!(storage.store_blob(s("first")), 3);
    assert_eq!(storage.get_count(), 3);
}

#[test]
fn blob_storage_resumes_from_a_count() {
    let mut storage = BlobStorage::with_count(41);
    assert_eq!(storage.get_count(), 41);
    assert_eq!(storage.store_blob(s("next")), 42);
    assert_eq!(storage.get_count(), 42);
}

#[test]
fn guard_is_restored_from_its_parts() {
    let mut analyses = TextStore::new();
    analyses.insert(s("b"), s("{\"n\": 2}"));
    analyses.insert(s("a"), s("{\"n\": 1}"));
    let mut guard = NearGravitySemanticGuard::restore(s("keeper.near"), 7, analyses);
    assert_eq!(guard.get_owner(), "keeper.near");
    assert_eq!(guard.get_stats(), vec![(s("total_analyses"), 7), (s("total_stored"), 2)]);
    assert_eq!(guard.analyses().len(), 2);
    assert_eq!(guard.analyses().key_at(0), "b");
    assert_eq!(guard.analyses().text_at(1), "{\"n\": 1}");
    assert_eq!(guard.store_semantic_analysis(s("c"), s("{}")), "analysis_8");
    assert_eq!(guard.get_recent_analyses(2), vec!["c", "b"]);
}

#[test]
fn guard_search_lowers_letters_beyond_ascii() {
    let mut guard = NearGravitySemanticGuard::new(s("o"));
    guard.store_semantic_analysis(s("one"), s("\u{c4}RGER im \u{d6}l"));
    guard.store_semantic_analysis(s("two"), s("\u{394}\u{395}\u{39b}\u{3a4}\u{391}"));
    assert_eq!(guard.search_by_query(s("\u{e4}rger")), vec!["one"]);
    assert_eq!(guard.search_by_query(s("\u{d6}L")), vec!["one"]);
    assert_eq!(guard.search_by_query(s("\u{3b4}\u{3b5}\u{3bb}")), vec!["two"]);
    assert!(guard.search_by_query(s("oel")).is_empty());
}

#[test]
fn guard_starts_empty() {
    let guard = NearGravitySemanticGuard::new(s("someone.near"));
    assert_eq!(guard.get_owner(), "someone.near");
    assert_eq!(guard.get_stats(), vec![(s("total_analyses"), 0), (s("total_stored"), 0)]);
    assert!(guard.get_recent_analyses(5).is_empty());
    assert!(guard.search_by_query(s("")).is_empty());
    assert!(guard.get_semantic_analysis(s("x")).is_none());
}

#[test]
fn guard_default_and_migrate_are_owned_by_neargravity() {
    let guard = NearGravitySemanticGuard::default();
    assert_eq!(guard.get_owner(), "NearGravity.near");
    assert_eq!(guard.get_stats(), vec![(s("total_analyses"), 0), (s("total_stored"), 0)]);
    let migrated = NearGravitySemanticGuard::migrate();
    assert_eq!(migrated.get_owner(), "NearGravity.near");
    assert_eq!(migrated.get_stats(), vec![(s("total_analyses"), 0), (s("total_stored"), 0)]);
}

#[test]
fn guard_store_returns_numbered_receipts() {
    let mut guard = NearGravitySemanticGuard::new(s("o"));
    assert_eq!(guard.store_semantic_analysis(s("a"), s("{}")), "analysis_1");
    assert_eq!(guard.store_semantic_analysis(s("b"), s("{}")), "analysis_2");
    // Storing again under a key replaces the text and still counts.
    assert_eq!(guard.store_semantic_analysis(s("a"), s("{\"v\": 2}")), "analysis_3");
    assert_eq!(guard.get_semantic_analysis(s("a")), Some(s("{\"v\": 2}")));
    assert_eq!(guard.get_semantic_analysis(s("b")), Some(s("{}")));
    assert_eq!(guard.get_semantic_analysis(s("c")), None);
    assert_eq!(guard.get_stats(), vec![(s("total_analyses"), 3), (s("total_stored"), 2)]);
    for _ in 0..9 {
        guard.increment();
    }
    assert_eq!(guard.store_semantic_analysis(s("z"), s("{}")), "analysis_13");
}

#[test]
fn guard_search_ignores_letter_case() {
    let guard = filled();
    assert_eq!(guard.search_by_query(s("rust")), vec!["beta", "gamma"]);
    assert_eq!(guard.search_by_query(s("RUST")), vec!["beta", "gamma"]);
    assert_eq!(guard.search_by_query(s("Near")), vec!["alpha"]);
    assert_eq!(guard.search_by_query(s("topic")), vec!["beta", "alpha", "gamma"]);
    assert_eq!(guard.search_by_query(s("")), vec!["beta", "alpha", "gamma"]);
    assert!(guard.search_by_query(s("absent")).is_empty());
    // The identifier itself is not searched.
    assert!(guard.search_by_query(s("gamma")).is_empty());
}

#[test]
fn guard_recent_lists_greatest_identifiers_first() {
    let guard = filled();
    assert!(guard.get_recent_analyses(0).is_empty());
    assert_eq!(guard.get_recent_analyses(1), vec!["gamma"]);
    assert_eq!(guard.get_recent_analyses(2), vec!["gamma", "beta"]);
    assert_eq!(guard.get_recent_analyses(3), vec!["gamma", "beta", "alpha"]);
    assert_eq!(guard.get_recent_analyses(u32::MAX), vec!["gamma", "beta", "alpha"]);
}

#[test]
fn guard_recent_orders_byte_by_byte() {
    let mut guard = NearGravitySemanticGuard::new(s("o"));
    for id in ["b", "a", "ab", "B", "10", "9", "\u{e9}", "z", "aa"] {
        guard.store_semantic_analysis(s(id), s("{}"));
    }
    let mut expected: Vec<String> =
        ["b", "a", "ab", "B", "10", "9", "\u{e9}", "z", "aa"].iter().map(|id| s(id)).collect();
    expected.sort();
    expected.reverse();
    assert_eq!(guard.get_recent_analyses(20), expected);
    assert_eq!(guard.get_recent_analyses(20), vec!["\u{e9}", "z", "b", "ab", "aa", "a", "B", "9", "10"]);
    assert_eq!(guard.get_recent_analyses(4), vec!["\u{e9}", "z", "b", "ab"]);
}

#[test]
fn guard_increment_counts_without_storing() {
    let mut guard = NearGravitySemanticGuard::new(s("o"));
    assert_eq!(guard.increment(), 1);
    assert_eq!(guard.increment(), 2);
    assert_eq!(guard.get_stats(), vec![(s("total_analyses"), 2), (s("total_stored"), 0)]);
}

#[test]
fn guard_delete_removes_only_the_named_analysis() {
    let mut guard = filled();
    assert!(!guard.delete_analysis(s("delta")));
    assert!(guard.delete_analysis(s("alpha")));
    assert!(!guard.delete_analysis(s("alpha")));
    assert_eq!(guard.get_semantic_analysis(s("alpha")), None);
    assert!(guard.get_semantic_analysis(s("beta")).is_some());
    assert_eq!(guard.search_by_query(s("topic")), vec!["beta", "gamma"]);
    assert_eq!(guard.get_recent_analyses(5), vec!["gamma", "beta"]);
    assert_eq!(guard.get_stats(), vec![(s("total_analyses"), 3), (s("total_stored"), 2)]);
}

#[test]
fn text_store_keeps_arrival_order() {
    let mut store = TextStore::new();
    assert_eq!(store.len(), 0);
    store.insert(s("k2"), s("two"));
    store.insert(s("k1"), s("one"));
    store.insert(s("k2"), s("deux"));
    assert_eq!(store.len(), 2);
    assert_eq!(store.key_at(0), "k2");
    assert_eq!(store.text_at(0), "deux");
    assert_eq!(store.key_at(1), "k1");
    assert_eq!(store.get(&s("k1")), Some(s("one")));
    assert_eq!(store.get(&s("k3")), None);
    assert!(store.remove(&s("k2")));
    assert!(!store.remove(&s("k2")));
    assert_eq!(store.len(), 1);
    assert_eq!(store.key_at(0), "k1");
}

#[test]
fn text_store_finds_keys_by_text() {
    let mut store = TextStore::new();
    store.insert(s("k1"), s("alpha beta"));
    store.insert(s("k2"), s("beta gamma"));
    store.insert(s("k3"), s("Beta"));
    assert_eq!(store.keys_containing(&s("beta")), vec!["k1", "k2"]);
    assert_eq!(store.keys_containing(&s("Beta")), vec!["k3"]);
    assert_eq!(store.keys_containing(&s("a b")), vec!["k1"]);
    assert_eq!(store.keys_containing(&s("")), vec!["k1", "k2", "k3"]);
    assert!(store.keys_containing(&s("delta")).is_empty());
    assert!(TextStore::new().keys_containing(&s("")).is_empty());
}

#[test]
fn find_key_returns_the_position() {
    let keys = vec![s("a"), s("b"), s("c")];
    assert_eq!(find_key(&keys, &s("a")), Some(0));
    assert_eq!(find_key(&keys, &s("c")), Some(2));
    assert_eq!(find_key(&keys, &s("d")), None);
    assert_eq!(find_key(&Vec::new(), &s("a")), None);
}

#[test]
fn byte_order_is_lexicographic() {
    assert!(bytes_less(b"", b"a"));
    assert!(!bytes_less(b"", b""));
    assert!(!bytes_less(b"a", b""));
    assert!(bytes_less(b"a", b"b"));
    assert!(bytes_less(b"a", b"ab"));
    assert!(bytes_less(b"ab", b"b"));
    assert!(!bytes_less(b"b", b"ab"));
    assert!(!bytes_less(b"abc", b"abc"));
    assert!(bytes_less(b"Z", b"a"));
    let words = ["", "a", "B", "ab", "abc", "b", "\u{e9}", "zz", "10", "9"];
    for a in words {
        for b in words {
            assert_eq!(string_less(&s(a), &s(b)), a < b);
        }
    }
}

#[test]
fn byte_search_finds_contiguous_runs() {
    assert!(bytes_contain(b"hello world", b"o w"));
    assert!(bytes_contain(b"hello", b"hello"));
    assert!(bytes_contain(b"hello", b""));
    assert!(bytes_contain(b"", b""));
    assert!(!bytes_contain(b"", b"a"));
    assert!(!bytes_contain(b"hello", b"hello!"));
    assert!(!bytes_contain(b"hello", b"hlo"));
    assert!(bytes_contain(b"aab", b"ab"));
    let words = ["", "a", "ab", "ba", "aab", "abab", "caf\u{e9}", "\u{e9}", "f\u{e9}"];
    for hay in words {
        for needle in words {
            assert_eq!(string_contains(&s(hay), &s(needle)), hay.contains(needle));
        }
    }
}
