//! The configuration of the governance module's test runtime.
use vstd::prelude::*;
use crate::membership::MembershipConfig;

verus! {

/// The governance module's test runtime.
#[derive(Clone, Copy, Debug, PartialEq, Eq, Structural)]
pub struct Test;

impl Test {
    /// The membership settings of the test runtime: a membership price of 100, and the
    /// unit (zero) initial invitation balance and staking account limit.
    pub fn membership_config() -> (c: MembershipConfig)
        ensures
            c.default_membership_price == 100,
            c.default_initial_invitation_balance == 0,
            c.staking_account_number_limit == 0,
    {
        MembershipConfig {
            default_membership_price: 100,
            default_initial_invitation_balance: 0,
            staking_account_number_limit: 0,
        }
    }
}

} // verus!
