//! What the contract asks its host to do next.
//!
//! The contract itself calls nobody. An operation that needs the key-custody
//! service, a delegate's receiver or a transfer of funds returns one of the
//! values below; the host performs it and hands the outcome to the matching
//! continuation.

use near_sdk::AccountId;
use vstd::prelude::*;

verus! {

/// Ask the key-custody service for its latest key version, then continue
/// with `mint_callback` on these arguments.
#[derive(Clone, Debug)]
pub struct MintCall {
    pub signer: AccountId,
    pub id: u32,
    pub predecessor: AccountId,
    pub storage_usage_start: u64,
}

/// Create the token in the registry for `owner`, then settle the storage
/// accounting of `owner` against `storage_usage_start`.
#[derive(Clone, Debug)]
pub struct MintCommit {
    pub id: u32,
    pub token_id: String,
    pub owner: AccountId,
    pub title: String,
    pub storage_usage_start: u64,
}

/// What the key-custody service is asked to sign, and with which key.
#[derive(Clone, Debug)]
pub struct SignRequest {
    pub payload: Vec<u8>,
    pub path: String,
    pub key_version: u32,
}

/// Send `request` to the key-custody service with `deposit` attached, then
/// continue with `sign_callback`.
#[derive(Clone, Debug)]
pub struct SignCall {
    pub signer: AccountId,
    pub deposit: u128,
    pub request: SignRequest,
}

/// Ask the key-custody service for the public key derived along `path`.
#[derive(Clone, Debug)]
pub struct PublicKeyQuery {
    pub signer: AccountId,
    pub path: String,
}

/// Tell `receiver` that `grantor` has approved it on a token, then continue
/// with `ckt_approve_callback` on `token`, `receiver` and `approval_id`.
#[derive(Clone, Debug)]
pub struct ApprovalNotice {
    pub receiver: AccountId,
    pub grantor: AccountId,
    pub token_id: String,
    pub token: u32,
    pub approval_id: u32,
    pub msg: String,
}

/// Tell `receiver` that `grantor` has revoked its approval on a token.
#[derive(Clone, Debug)]
pub struct RevocationNotice {
    pub receiver: AccountId,
    pub grantor: AccountId,
    pub token_id: String,
    pub approval_id: u32,
    pub msg: String,
}

/// Transfer `amount` back to `to`.
#[derive(Clone, Debug)]
pub struct Refund {
    pub to: AccountId,
    pub amount: u128,
}

/// How a signing round trip ends: what goes back to the caller, and what
/// the caller is told.
#[derive(Debug)]
pub struct SignSettlement<T> {
    pub refund: Option<Refund>,
    pub result: Result<T, crate::error::Error>,
}

/// A token about to be burned, with its owner as the registry records it.
#[derive(Clone, Debug)]
pub struct BurnedToken {
    pub token_id: String,
    pub owner: Option<AccountId>,
}

} // verus!
