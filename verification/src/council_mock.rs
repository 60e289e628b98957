//! The configuration of the council module's test runtime: its super user, its origins and
//! its genesis.
use vstd::prelude::*;
use crate::origin::RawOrigin;

verus! {

/// The administrator account of the test runtime.
pub const USER_ADMIN: u64 = 1;

/// A regular account of the test runtime.
pub const USER_REGULAR: u64 = 2;

/// Minimum number of candidates in the test runtime.
pub const MIN_NUMBER_OF_CANDIDATES: u64 = 2;

/// The council module's test runtime.
#[derive(Clone, Copy, Debug, PartialEq, Eq, Structural)]
pub struct Runtime;

impl Runtime {
    /// The account is the runtime's super user.
    pub fn is_super_user(account_id: &u64) -> (r: bool)
        ensures
            r == (*account_id == USER_ADMIN),
    {
        *account_id == USER_ADMIN
    }
}

/// Origins the tests dispatch calls with.
#[derive(Clone, Copy, Debug, PartialEq, Eq, Structural)]
pub enum OriginType {
    /// Signed by the account.
    Signed(u64),
    /// Root.
    Root,
}

/// The stage the council is in.
#[derive(Clone, Copy, Debug, PartialEq, Eq, Structural)]
pub enum CouncilStage {
    /// No period is running.
    Void,
    /// Candidates are announcing themselves.
    Announcing,
}

impl Default for CouncilStage {
    fn default() -> (r: Self)
        ensures
            r == CouncilStage::Void,
    {
        CouncilStage::Void
    }
}

/// Genesis configuration of the council module: its stage and the block it started at.
#[derive(Clone, Copy, Debug)]
pub struct CouncilGenesisConfig {
    pub stage: (CouncilStage, u64),
}

/// The default genesis of the test runtime: the default stage, started at block 0.
pub fn default_genesis_config() -> (c: CouncilGenesisConfig)
    ensures
        c.stage == (CouncilStage::Void, 0u64),
{
    CouncilGenesisConfig { stage: (CouncilStage::default(), 0) }
}

/// Helpers for dispatching calls in the tests.
pub struct InstanceMockUtils;

impl InstanceMockUtils {
    /// The runtime origin of a signed origin type; root origins are not provided.
    pub fn mock_origin(origin: OriginType) -> (r: RawOrigin)
        requires
            origin is Signed,
        ensures
            origin matches OriginType::Signed(a) && r == RawOrigin::Signed(a),
    {
        match origin {
            OriginType::Signed(account_id) => RawOrigin::Signed(account_id),
            OriginType::Root => RawOrigin::Root,
        }
    }
}

} // verus!
