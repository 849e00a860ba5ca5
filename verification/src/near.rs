//! The NEAR SDK types that the library carries, and the two operations it
//! performs on them. Nothing in this file is proved: Verus takes each
//! contract on trust.

use near_sdk::AccountId;
use near_sdk::PromiseError;
use vstd::prelude::*;

verus! {

/// `near_sdk::AccountId`, a validated account name. The library never looks
/// inside one: it stores, copies and compares them.
#[verifier::external_type_specification]
#[verifier::external_body]
pub struct ExAccountId(AccountId);

/// `near_sdk::PromiseError`, the failure of a cross-contract call. The
/// library only tells failure from success.
#[verifier::external_type_specification]
#[verifier::external_body]
pub struct ExPromiseError(PromiseError);

/// `AccountId::clone`: the copy is the same account.
pub assume_specification[ <AccountId as Clone>::clone ](account: &AccountId) -> (copy: AccountId)
    ensures
        copy == *account,
;

/// `AccountId`'s `==`, which compares the two names: it holds exactly when
/// both are the same account.
#[verifier::external_body]
pub(crate) fn same_account(a: &AccountId, b: &AccountId) -> (same: bool)
    ensures
        same == (*a == *b),
{
    a == b
}

} // verus!
