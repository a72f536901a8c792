//! Order and search on strings, by their UTF-8 bytes.
//!
//! Strings are ordered as the standard library orders them, byte by byte,
//! and one string contains another when its bytes hold the other's bytes as
//! a contiguous run.

use vstd::prelude::*;
use vstd::utf8::{decode_utf8, encode_utf8, encode_utf8_decode_utf8};

verus! {

/// Lexicographic order on byte sequences: `a` comes before `b` when, at the
/// first position where they differ, `a` has the smaller byte, or when `a`
/// ends there and `b` goes on.
pub open spec fn lex_less(a: Seq<u8>, b: Seq<u8>) -> bool {
    exists|k: int| decided_at(a, b, k)
}

/// The two sequences agree before position `k`, and at `k` either `a` has
/// the smaller byte or `a` has ended while `b` has not.
pub open spec fn decided_at(a: Seq<u8>, b: Seq<u8>, k: int) -> bool {
    &&& 0 <= k <= a.len()
    &&& k < b.len()
    &&& forall|i: int| 0 <= i < k ==> a[i] == b[i]
    &&& (k < a.len() ==> a[k] < b[k])
}

/// The string `a` sorts before the string `b`.
pub open spec fn text_less(a: Seq<char>, b: Seq<char>) -> bool {
    lex_less(encode_utf8(a), encode_utf8(b))
}

/// `needle` occurs in `hay` starting at position `at`.
pub open spec fn occurs_at(hay: Seq<u8>, needle: Seq<u8>, at: int) -> bool {
    &&& 0 <= at
    &&& at + needle.len() <= hay.len()
    &&& hay.subrange(at, at + needle.len()) == needle
}

/// `needle` occurs somewhere in `hay`. The empty sequence occurs in every
/// sequence.
pub open spec fn contains_bytes(hay: Seq<u8>, needle: Seq<u8>) -> bool {
    exists|at: int| occurs_at(hay, needle, at)
}

/// The string `hay` contains the string `needle`.
pub open spec fn text_contains(hay: Seq<char>, needle: Seq<char>) -> bool {
    contains_bytes(encode_utf8(hay), encode_utf8(needle))
}

/// No sequence comes before itself.
pub proof fn lemma_lex_irreflexive(a: Seq<u8>)
    ensures
        !lex_less(a, a),
{
}

/// The order is transitive.
pub proof fn lemma_lex_transitive(a: Seq<u8>, b: Seq<u8>, c: Seq<u8>)
    requires
        lex_less(a, b),
        lex_less(b, c),
    ensures
        lex_less(a, c),
{
    let k1 = choose|k: int| decided_at(a, b, k);
    let k2 = choose|k: int| decided_at(b, c, k);
    let k = if k1 <= k2 {
        k1
    } else {
        k2
    };
    assert(decided_at(a, c, k));
}

proof fn lemma_lex_total_from(a: Seq<u8>, b: Seq<u8>, k: int)
    requires
        0 <= k <= a.len(),
        k <= b.len(),
        forall|i: int| 0 <= i < k ==> a[i] == b[i],
    ensures
        a == b || lex_less(a, b) || lex_less(b, a),
    decreases a.len() - k,
{
    if k == a.len() {
        if k == b.len() {
            assert(a =~= b);
        } else {
            assert(decided_at(a, b, k));
        }
    } else if k == b.len() {
        assert(decided_at(b, a, k));
    } else if a[k] < b[k] {
        assert(decided_at(a, b, k));
    } else if b[k] < a[k] {
        assert(decided_at(b, a, k));
    } else {
        lemma_lex_total_from(a, b, k + 1);
    }
}

/// Of two different sequences one comes before the other, and never both.
pub proof fn lemma_lex_total(a: Seq<u8>, b: Seq<u8>)
    ensures
        a == b || lex_less(a, b) || lex_less(b, a),
        !(lex_less(a, b) && lex_less(b, a)),
{
    lemma_lex_total_from(a, b, 0);
    if lex_less(a, b) && lex_less(b, a) {
        lemma_lex_transitive(a, b, a);
    }
}

/// Different strings have different bytes, so of two different strings one
/// sorts before the other, and never both.
pub proof fn lemma_text_order_total(a: Seq<char>, b: Seq<char>)
    ensures
        a == b || text_less(a, b) || text_less(b, a),
        !(text_less(a, b) && text_less(b, a)),
{
    lemma_lex_total(encode_utf8(a), encode_utf8(b));
    if encode_utf8(a) == encode_utf8(b) {
        encode_utf8_decode_utf8(a);
        encode_utf8_decode_utf8(b);
        assert(decode_utf8(encode_utf8(a)) == decode_utf8(encode_utf8(b)));
    }
}

/// Whether `a` comes before `b` in lexicographic order.
pub fn bytes_less(a: &[u8], b: &[u8]) -> (less: bool)
    ensures
        less == lex_less(a@, b@),
{
    let mut i: usize = 0;
    while i < a.len() && i < b.len()
        invariant
            i <= a.len(),
            i <= b.len(),
            forall|j: int| 0 <= j < i ==> a@[j] == b@[j],
        decreases a.len() - i,
    {
        if a[i] != b[i] {
            let less = a[i] < b[i];
            proof {
                if less {
                    assert(decided_at(a@, b@, i as int));
                } else {
                    assert(decided_at(b@, a@, i as int));
                    lemma_lex_total(a@, b@);
                }
            }
            return less;
        }
        i += 1;
    }
    let less = a.len() < b.len();
    proof {
        if less {
            assert(decided_at(a@, b@, i as int));
        } else {
            if a.len() == b.len() {
                assert(a@ =~= b@);
                lemma_lex_irreflexive(a@);
            } else {
                assert(decided_at(b@, a@, i as int));
                lemma_lex_total(a@, b@);
            }
        }
    }
    less
}

/// Whether the string `a` sorts before the string `b`.
pub fn string_less(a: &String, b: &String) -> (less: bool)
    ensures
        less == text_less(a@, b@),
{
    bytes_less(a.as_str().as_bytes(), b.as_str().as_bytes())
}

/// Whether `needle` occurs in `hay` at position `at`.
fn matches_at(hay: &[u8], needle: &[u8], at: usize) -> (found: bool)
    requires
        at + needle.len() <= hay.len(),
    ensures
        found == occurs_at(hay@, needle@, at as int),
{
    let mut i: usize = 0;
    while i < needle.len()
        invariant
            i <= needle.len(),
            at + needle.len() <= hay.len(),
            forall|j: int| 0 <= j < i ==> hay@[at + j] == needle@[j],
        decreases needle.len() - i,
    {
        if hay[at + i] != needle[i] {
            assert(hay@.subrange(at as int, at + needle.len())[i as int] != needle@[i as int]);
            return false;
        }
        i += 1;
    }
    assert(hay@.subrange(at as int, at + needle.len()) =~= needle@);
    true
}

/// Whether `needle` occurs somewhere in `hay`.
pub fn bytes_contain(hay: &[u8], needle: &[u8]) -> (found: bool)
    ensures
        found == contains_bytes(hay@, needle@),
{
    if needle.len() > hay.len() {
        return false;
    }
    let last = hay.len() - needle.len();
    let mut at: usize = 0;
    loop
        invariant
            at <= last,
            last + needle.len() == hay.len(),
            forall|p: int| 0 <= p < at ==> !occurs_at(hay@, needle@, p),
        decreases last - at,
    {
        if matches_at(hay, needle, at) {
            return true;
        }
        if at == last {
            return false;
        }
        at += 1;
    }
}

/// Whether the string `hay` contains the string `needle`.
pub fn string_contains(hay: &String, needle: &String) -> (found: bool)
    ensures
        found == text_contains(hay@, needle@),
{
    bytes_contain(hay.as_str().as_bytes(), needle.as_str().as_bytes())
}

/// The lowercase form of a string, as `str::to_lowercase` of the standard
/// library returns it. It is a function of the characters alone: the
/// conversion follows the Unicode tables and consults no locale.
pub uninterp spec fn lowercase_text(text: Seq<char>) -> Seq<char>;

/// Calls `str::to_lowercase`. Trusted: the result is the string named
/// [`lowercase_text`].
#[verifier::external_body]
pub(crate) fn lowercase(text: &String) -> (lower: String)
    ensures
        lower@ == lowercase_text(text@),
{
    text.to_lowercase()
}

} // verus!
