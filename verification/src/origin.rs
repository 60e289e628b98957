//! Call origins and the errors a dispatched call can end with.
use vstd::prelude::*;
use crate::bounty::BountyError;
use crate::membership::MembershipError;

verus! {

/// The origin of a dispatched call, as the runtime hands it to a module.
#[derive(Clone, Copy, Debug, PartialEq, Eq, Structural)]
pub enum RawOrigin {
    /// The root (sudo/council) origin.
    Root,
    /// A transaction signed by the given account.
    Signed(u64),
    /// An unsigned (inherent) origin.
    Unsigned,
}

/// The error a dispatched call ends with.
#[derive(Clone, Copy, Debug, PartialEq, Eq, Structural)]
pub enum DispatchError {
    /// The origin is not the one the call requires.
    BadOrigin,
    /// An error of the bounty module.
    Bounty(BountyError),
    /// An error of the membership module.
    Membership(MembershipError),
}

/// Succeeds exactly when the origin is root.
pub fn ensure_root(origin: RawOrigin) -> (res: Result<(), DispatchError>)
    ensures
        res is Ok <==> origin is Root,
        res is Err ==> res == Err::<(), DispatchError>(DispatchError::BadOrigin),
{
    match origin {
        RawOrigin::Root => Ok(()),
        _ => Err(DispatchError::BadOrigin),
    }
}

/// Returns the signing account, or `BadOrigin` for any other origin.
pub fn ensure_signed(origin: RawOrigin) -> (res: Result<u64, DispatchError>)
    ensures
        match origin {
            RawOrigin::Signed(who) => res == Ok::<u64, DispatchError>(who),
            _ => res == Err::<u64, DispatchError>(DispatchError::BadOrigin),
        },
{
    match origin {
        RawOrigin::Signed(who) => Ok(who),
        _ => Err(DispatchError::BadOrigin),
    }
}

} // verus!
