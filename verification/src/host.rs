//! What the hosting ledger tells a call about itself.
//!
//! The three readings below come from the environment of the running call.
//! Nothing is promised of their values: callers are verified for every value
//! that may come back.

use vstd::prelude::*;

verus! {

/// Calls `near_sdk::env::predecessor_account_id` and renders the account as
/// text. Trusted; nothing is claimed of the result.
#[verifier::external_body]
pub(crate) fn predecessor_account_id() -> (account: String) {
    near_sdk::env::predecessor_account_id().to_string()
}

/// Calls `near_sdk::env::block_timestamp`: the time of the current block in
/// nanoseconds. Trusted; nothing is claimed of the result.
#[verifier::external_body]
pub(crate) fn block_timestamp() -> (nanos: u64) {
    near_sdk::env::block_timestamp()
}

/// Calls `near_sdk::env::block_height`: the height of the current block.
/// Trusted; nothing is claimed of the result.
#[verifier::external_body]
pub(crate) fn block_height() -> (height: u64) {
    near_sdk::env::block_height()
}

} // verus!
