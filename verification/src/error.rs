//! Why an operation was refused.

use vstd::prelude::*;

verus! {

/// The reason an operation did not go through. Every refusal leaves the
/// contract state exactly as it was.
#[derive(Clone, Copy, Debug, PartialEq, Eq, Structural)]
pub enum Error {
    /// The caller is neither the owner of the token nor the holder of a
    /// matching approval.
    Unauthorized,
    /// The token identifier is malformed, or no key record exists for it.
    NotFound,
    /// The caller has not registered for storage accounting.
    Unregistered,
    /// The escrow that the operation asks for was not attached.
    InsufficientDeposit,
    /// A call to the key-custody service or to a delegate receiver failed.
    RemoteFailure,
    /// The state no longer matches what an earlier step of the same
    /// protocol left behind.
    Inconsistent,
    /// The identifier counter has reached its last value.
    Exhausted,
}

} // verus!
