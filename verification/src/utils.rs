//! Guards on what is attached to a call.

use crate::error::Error;
use vstd::prelude::*;

verus! {

/// Whether a deposit, in yoctoNEAR, covers the escrow that signing asks for.
pub open spec fn covers_escrow(attached_deposit: u128) -> bool {
    attached_deposit >= 1
}

/// Refuses a call with less than one yoctoNEAR attached.
pub fn assert_gt_one_yocto_near(attached_deposit: u128) -> (r: Result<(), Error>)
    ensures
        r == (if covers_escrow(attached_deposit) {
            Ok::<(), Error>(())
        } else {
            Err::<(), Error>(Error::InsufficientDeposit)
        }),
{
    if attached_deposit >= 1 {
        Ok(())
    } else {
        Err(Error::InsufficientDeposit)
    }
}

} // verus!
