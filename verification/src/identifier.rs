//! Record identifiers derived from what was submitted, when and by whom.

use vstd::prelude::*;
use vstd::string::*;
use vstd::utf8::encode_utf8;
use crate::decimal::{decimal_string, decimal_text};

verus! {

/// The SHA-256 digest of a byte sequence, as `near_sdk::env::sha256` returns
/// it. The digest is a function of the bytes alone; nothing else about it is
/// stated here.
pub uninterp spec fn sha256_digest(data: Seq<u8>) -> Seq<u8>;

/// The base-58 text of a byte sequence in the Bitcoin alphabet, as
/// `bs58::encode(..).into_string()` returns it. The text is a function of the
/// bytes alone; nothing else about it is stated here.
pub uninterp spec fn base58_text(bytes: Seq<u8>) -> Seq<char>;

/// Calls `near_sdk::env::sha256` on `data`. Trusted: the result is the digest
/// named [`sha256_digest`]. The host meters the call and aborts the whole
/// transaction when its budget is spent, as it does for any other work.
#[verifier::external_body]
fn sha256(data: &[u8]) -> (digest: Vec<u8>)
    ensures
        digest@ == sha256_digest(data@),
{
    near_sdk::env::sha256(data)
}

/// Calls `near_sdk::bs58::encode` on `bytes` and collects the text. Trusted:
/// the result is the text named [`base58_text`].
#[verifier::external_body]
fn base58(bytes: &Vec<u8>) -> (text: String)
    ensures
        text@ == base58_text(bytes@),
{
    near_sdk::bs58::encode(bytes).into_string()
}

/// The text that is hashed for an identifier: the query, then the timestamp
/// in decimal, then the submitter, with nothing in between.
pub open spec fn id_preimage(query: Seq<char>, timestamp: u64, submitter: Seq<char>) -> Seq<char> {
    query + decimal_text(timestamp as nat) + submitter
}

/// The identifier of a submission: the base-58 text of the SHA-256 digest of
/// the UTF-8 bytes of [`id_preimage`].
pub open spec fn analysis_id(query: Seq<char>, timestamp: u64, submitter: Seq<char>) -> Seq<char> {
    base58_text(sha256_digest(encode_utf8(id_preimage(query, timestamp, submitter))))
}

/// Builds the text that is hashed for an identifier.
pub fn preimage_string(query: &str, timestamp: u64, submitter: &str) -> (text: String)
    ensures
        text@ == id_preimage(query@, timestamp, submitter@),
{
    let mut text = String::from_str(query);
    let stamp = decimal_string(timestamp);
    text.append(stamp.as_str());
    text.append(submitter);
    text
}

/// Derives the identifier of a submission. The same query, timestamp and
/// submitter always give the same identifier; an empty query is as good as
/// any other.
pub fn generate_analysis_id(query: &str, timestamp: u64, submitter: &str) -> (id: String)
    ensures
        id@ == analysis_id(query@, timestamp, submitter@),
{
    let text = preimage_string(query, timestamp, submitter);
    let digest = sha256(text.as_str().as_bytes());
    base58(&digest)
}

/// Equal inputs have equal identifiers.
pub proof fn lemma_analysis_id_deterministic(
    query_a: Seq<char>,
    timestamp_a: u64,
    submitter_a: Seq<char>,
    query_b: Seq<char>,
    timestamp_b: u64,
    submitter_b: Seq<char>,
)
    requires
        query_a == query_b,
        timestamp_a == timestamp_b,
        submitter_a == submitter_b,
    ensures
        analysis_id(query_a, timestamp_a, submitter_a) == analysis_id(
            query_b,
            timestamp_b,
            submitter_b,
        ),
{
}

} // verus!
