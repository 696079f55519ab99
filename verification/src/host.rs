use vstd::prelude::*;

verus! {

/// Relies on near_sdk::env::block_height: the height of the block this call
/// executes in, the external monotonic counter that drives recency-slot
/// placement. Nothing is promised of its value.
#[verifier::external_body]
pub(crate) fn block_height() -> u64 {
    near_sdk::env::block_height()
}

/// Relies on near_sdk::env::signer_account_id: the account that signed the
/// transaction, used as the author when none is supplied. Nothing is
/// promised of its value.
#[verifier::external_body]
pub(crate) fn signer_account_id() -> String {
    near_sdk::env::signer_account_id().as_str().to_string()
}

} // verus!
