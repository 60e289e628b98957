//! Crowd-funded bounties: a member, or the council, creates a bounty with a
//! cherry and optional own funding; members fund it until the funding period
//! ends or the maximum amount is reached; a bounty without funding can be
//! canceled by its creator or vetoed by root.
//!
//! The module's storage (bounties, the funding double map and the bounty
//! counter) is the state of [`BountyModule`]. What the module reads from the
//! rest of the runtime (the current block, the council budget, an account's
//! usable balance, the verdict of the member origin validator) comes in as
//! arguments, and what it asks the rest of the runtime to do (charge a
//! balance, pay out funding, deposit events) comes back in the result.
use vstd::prelude::*;
use std::collections::BTreeMap;
use crate::origin::{RawOrigin, DispatchError, ensure_root};

verus! {

broadcast use vstd::std_specs::btree::group_btree_axioms, vstd::laws_cmp::group_laws_cmp;

/// Defines who will be the oracle of the work submissions.
#[derive(Clone, Copy, Debug, PartialEq, Eq, Structural)]
pub enum OracleType {
    /// Specific member will be the oracle.
    Member(u64),
    /// Council will become an oracle.
    Council,
}

impl Default for OracleType {
    fn default() -> (r: Self)
        ensures
            r == OracleType::Council,
    {
        OracleType::Council
    }
}

/// Defines who can submit the work.
#[derive(Clone, Debug, PartialEq, Eq)]
pub enum AssuranceContractType {
    /// Anyone can submit the work.
    Open,
    /// Only specific members can submit the work.
    Closed(Vec<u64>),
}

/// Mathematical value of an [`AssuranceContractType`].
pub enum AssuranceContractView {
    Open,
    Closed(Seq<u64>),
}

impl View for AssuranceContractType {
    type V = AssuranceContractView;

    open spec fn view(&self) -> AssuranceContractView {
        match self {
            AssuranceContractType::Open => AssuranceContractView::Open,
            AssuranceContractType::Closed(v) => AssuranceContractView::Closed(v@),
        }
    }
}

impl Default for AssuranceContractType {
    fn default() -> (r: Self)
        ensures
            r@ == AssuranceContractView::Open,
    {
        AssuranceContractType::Open
    }
}

impl AssuranceContractType {
    /// A copy of this contract type.
    pub fn duplicate(&self) -> (r: Self)
        ensures
            r@ == self@,
    {
        match self {
            AssuranceContractType::Open => AssuranceContractType::Open,
            AssuranceContractType::Closed(v) => {
                let w = v.clone();
                assert(w@ =~= v@);
                AssuranceContractType::Closed(w)
            },
        }
    }
}

/// Bounty creator: the council or a member.
#[derive(Clone, Copy, Debug, PartialEq, Eq, Structural)]
pub enum BountyCreator {
    /// Bounty was created by a council.
    Council,
    /// Bounty was created by a member.
    Member(u64),
}

impl Default for BountyCreator {
    fn default() -> (r: Self)
        ensures
            r == BountyCreator::Council,
    {
        BountyCreator::Council
    }
}

/// Defines parameters for the bounty creation.
#[derive(Clone, Debug, PartialEq, Eq, Default)]
pub struct BountyParameters {
    /// Origin that will select winner(s), is either a given member or a council.
    pub oracle: OracleType,
    /// Contract type defines who can submit the work.
    pub contract_type: AssuranceContractType,
    /// Bounty creator: could be a member or a council.
    pub creator: BountyCreator,
    /// An amount of funding, possibly 0, provided by the creator which will be split among all
    /// other contributors should the min funding bound not be reached.
    pub cherry: u64,
    /// The minimum total quantity of funds, possibly 0, required for the bounty to become
    /// available for people to work on.
    pub min_amount: u64,
    /// Maximum funding accepted, if this limit is reached, funding automatically is over.
    pub max_amount: u64,
    /// Amount of stake required, possibly 0, to enter bounty as entrant.
    pub entrant_stake: u64,
    /// Number of blocks from creation until funding is no longer possible. If not provided,
    /// then funding is called perpetual, and it only ends when minimum amount is reached.
    pub funding_period: Option<u64>,
    /// Number of blocks from end of funding period until people can no longer submit
    /// bounty submissions.
    pub work_period: u64,
    /// Number of block from end of work period until oracle can no longer decide winners.
    pub judging_period: u64,
    /// Funds provided by a bounty creator.
    pub creator_funding: u64,
}

/// Mathematical value of [`BountyParameters`].
pub struct BountyParametersView {
    pub oracle: OracleType,
    pub contract_type: AssuranceContractView,
    pub creator: BountyCreator,
    pub cherry: u64,
    pub min_amount: u64,
    pub max_amount: u64,
    pub entrant_stake: u64,
    pub funding_period: Option<u64>,
    pub work_period: u64,
    pub judging_period: u64,
    pub creator_funding: u64,
}

impl View for BountyParameters {
    type V = BountyParametersView;

    open spec fn view(&self) -> BountyParametersView {
        BountyParametersView {
            oracle: self.oracle,
            contract_type: self.contract_type@,
            creator: self.creator,
            cherry: self.cherry,
            min_amount: self.min_amount,
            max_amount: self.max_amount,
            entrant_stake: self.entrant_stake,
            funding_period: self.funding_period,
            work_period: self.work_period,
            judging_period: self.judging_period,
            creator_funding: self.creator_funding,
        }
    }
}

impl BountyParameters {
    /// A copy of these parameters.
    pub fn duplicate(&self) -> (r: Self)
        ensures
            r@ == self@,
    {
        BountyParameters {
            oracle: self.oracle,
            contract_type: self.contract_type.duplicate(),
            creator: self.creator,
            cherry: self.cherry,
            min_amount: self.min_amount,
            max_amount: self.max_amount,
            entrant_stake: self.entrant_stake,
            funding_period: self.funding_period,
            work_period: self.work_period,
            judging_period: self.judging_period,
            creator_funding: self.creator_funding,
        }
    }
}

/// Defines current bounty stage.
#[derive(Clone, Copy, Debug, PartialEq, Eq, Structural)]
pub enum BountyStage {
    /// Bounty funding stage.
    Funding,
    /// A bounty was canceled.
    Canceled,
    /// Funding and cherry can be withdrawn.
    Withdrawal,
    /// A bounty has gathered necessary funds and ready to accept work submissions.
    WorkSubmission,
}

/// Defines the facts known about a bounty.
#[derive(Clone, Copy, Debug, PartialEq, Eq, Structural)]
pub enum BountyMilestone {
    /// Bounty was created at given block number.
    Created(u64),
    /// A bounty was canceled.
    Canceled,
    /// A bounty funding was successful on the provided block.
    /// The stage is set when the funding exceeded max funding amount.
    MaxFundingReached(u64),
}

impl Default for BountyMilestone {
    fn default() -> (r: Self)
        ensures
            r == BountyMilestone::Created(0),
    {
        BountyMilestone::Created(0)
    }
}

/// Crowdfunded bounty record.
#[derive(Clone, Debug, PartialEq, Eq, Default)]
pub struct BountyRecord {
    /// Bounty creation parameters.
    pub creation_params: BountyParameters,
    /// Total funding balance reached so far.
    /// Includes initial funding by a creator and other members funding.
    pub total_funding: u64,
    /// Bounty current state: the facts known about it (created, canceled, max funding reached).
    pub state: BountyMilestone,
}

/// Mathematical value of a [`BountyRecord`].
pub struct BountyRecordView {
    pub creation_params: BountyParametersView,
    pub total_funding: u64,
    pub state: BountyMilestone,
}

impl View for BountyRecord {
    type V = BountyRecordView;

    open spec fn view(&self) -> BountyRecordView {
        BountyRecordView {
            creation_params: self.creation_params@,
            total_funding: self.total_funding,
            state: self.state,
        }
    }
}

/// Bounty module errors.
#[derive(Clone, Copy, Debug, PartialEq, Eq, Structural)]
pub enum BountyError {
    /// Min funding amount cannot be greater than max amount.
    MinFundingAmountCannotBeGreaterThanMaxAmount,
    /// Bounty doesnt exist.
    BountyDoesntExist,
    /// Operation can be performed only by a bounty creator.
    NotBountyCreator,
    /// Work period cannot be zero.
    WorkPeriodCannotBeZero,
    /// Judging period cannot be zero.
    JudgingPeriodCannotBeZero,
    /// Invalid bounty stage for the operation.
    InvalidBountyStage,
    /// Insufficient balance for a bounty cherry.
    InsufficientBalanceForBounty,
    /// Funding period is not expired for the bounty.
    FundingPeriodNotExpired,
    /// A member is not a bounty funder.
    NotBountyFunder,
}

/// The stage of a bounty at block `now`, from its parameters and its milestone:
/// - a created bounty with a funding period is in its funding stage up to and including the
///   period's last block; afterwards it is open for work submissions when it gathered its
///   minimum amount, and for withdrawal otherwise;
/// - a created bounty without a funding period stays in its funding stage (its funding ends
///   when a member's funding brings it to its maximum amount);
/// - a bounty that reached its maximum amount at block `f` is open for work submissions up to
///   and including block `f + work_period`, and for withdrawal afterwards;
/// - a canceled bounty is canceled.
pub open spec fn bounty_stage(b: BountyRecordView, now: u64) -> BountyStage {
    match b.state {
        BountyMilestone::Created(created_at) => match b.creation_params.funding_period {
            Some(funding_period) => {
                if created_at + funding_period >= now {
                    BountyStage::Funding
                } else if b.total_funding >= b.creation_params.min_amount {
                    BountyStage::WorkSubmission
                } else {
                    BountyStage::Withdrawal
                }
            },
            None => BountyStage::Funding,
        },
        BountyMilestone::Canceled => BountyStage::Canceled,
        BountyMilestone::MaxFundingReached(funding_completed) => {
            if now <= funding_completed + b.creation_params.work_period {
                BountyStage::WorkSubmission
            } else {
                BountyStage::Withdrawal
            }
        },
    }
}

/// The block arithmetic of the stage computation fits in a block number.
pub open spec fn stage_computable(b: BountyRecordView) -> bool {
    match b.state {
        BountyMilestone::Created(created_at) => match b.creation_params.funding_period {
            Some(funding_period) => created_at + funding_period <= u64::MAX,
            None => true,
        },
        BountyMilestone::Canceled => true,
        BountyMilestone::MaxFundingReached(funding_completed) => {
            funding_completed + b.creation_params.work_period <= u64::MAX
        },
    }
}

/// Computes the stage of a bounty at block `now` based on its creation parameters and
/// its current state.
pub fn get_bounty_stage(bounty: &BountyRecord, now: u64) -> (stage: BountyStage)
    requires
        stage_computable(bounty@),
    ensures
        stage == bounty_stage(bounty@, now),
{
    match bounty.state {
        BountyMilestone::Created(created_at) => {
            match bounty.creation_params.funding_period {
                Some(funding_period) => {
                    if created_at + funding_period >= now {
                        BountyStage::Funding
                    } else if bounty.total_funding >= bounty.creation_params.min_amount {
                        BountyStage::WorkSubmission
                    } else {
                        BountyStage::Withdrawal
                    }
                },
                None => BountyStage::Funding,
            }
        },
        BountyMilestone::Canceled => BountyStage::Canceled,
        BountyMilestone::MaxFundingReached(funding_completed) => {
            // Work period is not over.
            if now <= funding_completed + bounty.creation_params.work_period {
                BountyStage::WorkSubmission
            } else {
                BountyStage::Withdrawal
            }
        },
    }
}

/// The first rule that the parameters of a new bounty break, if any.
pub open spec fn parameters_error(p: BountyParametersView) -> Option<BountyError> {
    if p.work_period == 0 {
        Some(BountyError::WorkPeriodCannotBeZero)
    } else if p.judging_period == 0 {
        Some(BountyError::JudgingPeriodCannotBeZero)
    } else if p.min_amount > p.max_amount {
        Some(BountyError::MinFundingAmountCannotBeGreaterThanMaxAmount)
    } else {
        None
    }
}

/// Validates parameters for a bounty creation.
pub fn ensure_create_bounty_parameters_valid(params: &BountyParameters) -> (res: Result<
    (),
    DispatchError,
>)
    ensures
        match parameters_error(params@) {
            Some(e) => res == Err::<(), DispatchError>(DispatchError::Bounty(e)),
            None => res is Ok,
        },
{
    if params.work_period == 0 {
        return Err(DispatchError::Bounty(BountyError::WorkPeriodCannotBeZero));
    }
    if params.judging_period == 0 {
        return Err(DispatchError::Bounty(BountyError::JudgingPeriodCannotBeZero));
    }
    if params.min_amount > params.max_amount {
        return Err(
            DispatchError::Bounty(BountyError::MinFundingAmountCannotBeGreaterThanMaxAmount),
        );
    }
    Ok(())
}

/// Verifies that an account's usable balance covers `amount`.
pub fn check_balance_for_account(amount: u64, usable_balance: u64) -> (res: bool)
    ensures
        res == (usable_balance >= amount),
{
    usable_balance >= amount
}

/// Who pays for a bounty being created: the council budget, or a member's controller account.
#[derive(Clone, Copy, Debug, PartialEq, Eq, Structural)]
pub enum BountyCreatorManager {
    /// Bounty is created by the council.
    Council,
    /// Bounty is created by a member: the controller account and the member id.
    Member(u64, u64),
}

/// What creating a bounty takes from its creator.
#[derive(Clone, Copy, Debug, PartialEq, Eq, Structural)]
pub enum BalanceCharge {
    /// The council budget is set to the given new value.
    CouncilBudget { new_budget: u64 },
    /// The given amount is slashed from the given account.
    Account { account: u64, amount: u64 },
}

/// The manager for a creator, given the call's origin and the member origin validator's
/// verdict for (origin, member id) when the creator is a member.
pub open spec fn creator_manager(
    origin: RawOrigin,
    creator: BountyCreator,
    member_check: Result<u64, DispatchError>,
) -> Result<BountyCreatorManager, DispatchError> {
    match creator {
        BountyCreator::Member(member_id) => match member_check {
            Ok(account_id) => Ok(BountyCreatorManager::Member(account_id, member_id)),
            Err(e) => Err(e),
        },
        BountyCreator::Council => if origin is Root {
            Ok(BountyCreatorManager::Council)
        } else {
            Err(DispatchError::BadOrigin)
        },
    }
}

/// The creator that a manager stands for.
pub open spec fn manager_creator(m: BountyCreatorManager) -> BountyCreator {
    match m {
        BountyCreatorManager::Council => BountyCreator::Council,
        BountyCreatorManager::Member(_, member_id) => BountyCreator::Member(member_id),
    }
}

/// The balance the manager draws from covers `required`.
pub open spec fn balance_sufficient(
    m: BountyCreatorManager,
    required: int,
    council_budget: u64,
    account_balance: u64,
) -> bool {
    match m {
        BountyCreatorManager::Council => council_budget >= required,
        BountyCreatorManager::Member(..) => account_balance >= required,
    }
}

/// The charge for `required`, drawn from what the manager stands for.
pub open spec fn charge_for(m: BountyCreatorManager, required: u64, council_budget: u64) -> BalanceCharge {
    match m {
        BountyCreatorManager::Council => BalanceCharge::CouncilBudget {
            new_budget: if council_budget >= required { (council_budget - required) as u64 } else { 0 },
        },
        BountyCreatorManager::Member(account_id, _) => BalanceCharge::Account {
            account: account_id,
            amount: required,
        },
    }
}

impl BountyCreatorManager {
    /// Construct the manager from the extrinsic origin and the claimed creator.
    /// `member_check` is what the member origin validator answered for the origin and the
    /// creator's member id (the controller account, or its error); it is read only for
    /// member creators.
    pub fn get_bounty_creator(
        origin: RawOrigin,
        creator: BountyCreator,
        member_check: Result<u64, DispatchError>,
    ) -> (res: Result<BountyCreatorManager, DispatchError>)
        ensures
            res == creator_manager(origin, creator, member_check),
    {
        match creator {
            BountyCreator::Member(member_id) => {
                match member_check {
                    Ok(account_id) => Ok(BountyCreatorManager::Member(account_id, member_id)),
                    Err(e) => Err(e),
                }
            },
            BountyCreator::Council => {
                match ensure_root(origin) {
                    Ok(()) => Ok(BountyCreatorManager::Council),
                    Err(e) => Err(e),
                }
            },
        }
    }

    /// Validate that the creator's balance is sufficient for the bounty: the council budget
    /// for the council, the usable balance of the controller account for a member.
    pub fn validate_balance_sufficiency(
        &self,
        cherry: u64,
        creator_funding: u64,
        council_budget: u64,
        account_balance: u64,
    ) -> (res: Result<(), DispatchError>)
        requires
            cherry + creator_funding <= u64::MAX,
        ensures
            balance_sufficient(*self, cherry + creator_funding, council_budget, account_balance)
                ==> res is Ok,
            !balance_sufficient(*self, cherry + creator_funding, council_budget, account_balance)
                ==> res == Err::<(), DispatchError>(
                DispatchError::Bounty(BountyError::InsufficientBalanceForBounty),
            ),
    {
        let required_balance = cherry + creator_funding;
        let balance_is_sufficient = match self {
            BountyCreatorManager::Council => Self::check_council_budget(
                required_balance,
                council_budget,
            ),
            BountyCreatorManager::Member(_, _) => check_balance_for_account(
                required_balance,
                account_balance,
            ),
        };
        if !balance_is_sufficient {
            return Err(DispatchError::Bounty(BountyError::InsufficientBalanceForBounty));
        }
        Ok(())
    }

    /// Verifies that council budget is sufficient for a bounty.
    pub fn check_council_budget(amount: u64, council_budget: u64) -> (res: bool)
        ensures
            res == (council_budget >= amount),
    {
        council_budget >= amount
    }

    /// Validate that the provided creator is the one this manager stands for.
    pub fn validate_creator(&self, creator: BountyCreator) -> (res: Result<(), DispatchError>)
        ensures
            manager_creator(*self) == creator ==> res is Ok,
            manager_creator(*self) != creator ==> res == Err::<(), DispatchError>(
                DispatchError::Bounty(BountyError::NotBountyCreator),
            ),
    {
        let initial_creator = match self {
            BountyCreatorManager::Council => BountyCreator::Council,
            BountyCreatorManager::Member(_, member_id) => BountyCreator::Member(*member_id),
        };
        if initial_creator != creator {
            return Err(DispatchError::Bounty(BountyError::NotBountyCreator));
        }
        Ok(())
    }

    /// The charge for creating a bounty with the given cherry and creator funding.
    pub fn slash_balance(&self, cherry: u64, creator_funding: u64, council_budget: u64) -> (res:
        BalanceCharge)
        requires
            cherry + creator_funding <= u64::MAX,
        ensures
            res == charge_for(*self, (cherry + creator_funding) as u64, council_budget),
    {
        let required_balance = cherry + creator_funding;
        match self {
            BountyCreatorManager::Council => BalanceCharge::CouncilBudget {
                new_budget: Self::remove_balance_from_council_budget(
                    required_balance,
                    council_budget,
                ),
            },
            BountyCreatorManager::Member(account_id, _) => BalanceCharge::Account {
                account: *account_id,
                amount: required_balance,
            },
        }
    }

    /// The council budget after `amount` is removed from it (saturating at zero).
    pub fn remove_balance_from_council_budget(amount: u64, council_budget: u64) -> (new_budget:
        u64)
        ensures
            new_budget == if council_budget >= amount { (council_budget - amount) as u64 } else { 0 },
    {
        council_budget.saturating_sub(amount)
    }
}

/// Events of the bounty module.
#[derive(Clone, Debug, PartialEq, Eq)]
pub enum BountyEvent {
    /// A bounty was created.
    BountyCreated(u64, BountyParameters),
    /// A bounty was canceled.
    BountyCanceled(u64, BountyCreator),
    /// A bounty was vetoed.
    BountyVetoed(u64),
    /// A bounty was funded by a member: bounty id, member id, amount.
    BountyFunded(u64, u64, u64),
    /// A bounty has reached its maximum funding amount.
    BountyMaxFundingReached(u64),
    /// A member has withdrawn the funding: bounty id, member id.
    BountyMemberFundingWithdrawal(u64, u64),
}

/// What a successful bounty creation asks of the runtime.
#[derive(Debug)]
pub struct CreatedBounty {
    /// The id of the new bounty.
    pub bounty_id: u64,
    /// The cherry and creator funding taken from the creator.
    pub charge: BalanceCharge,
    /// The event to deposit.
    pub event: BountyEvent,
}

/// What a successful member funding asks of the runtime.
#[derive(Debug)]
pub struct FundedBounty {
    /// The member's controller account to slash.
    pub account: u64,
    /// The amount to slash from it.
    pub amount: u64,
    /// The events to deposit, in order.
    pub events: Vec<BountyEvent>,
}

/// What a successful funding withdrawal asks of the runtime.
#[derive(Debug)]
pub struct WithdrawnFunding {
    /// The member's controller account to credit.
    pub account: u64,
    /// The amount to deposit into it.
    pub amount: u64,
    /// The event to deposit.
    pub event: BountyEvent,
}

/// The bounty module's storage.
pub struct BountyModule {
    bounties: BTreeMap<u64, BountyRecord>,
    funding: BTreeMap<u64, BTreeMap<u64, u64>>,
    bounty_count: u32,
}

/// Mathematical value of the bounty module's storage.
pub struct BountyModuleView {
    /// Bounty records by id.
    pub bounties: Map<u64, BountyRecordView>,
    /// Member funding by (bounty id, member id).
    pub funding: Map<(u64, u64), u64>,
    /// Count of all bounties that have been created.
    pub bounty_count: u32,
}

impl View for BountyModule {
    type V = BountyModuleView;

    closed spec fn view(&self) -> BountyModuleView {
        BountyModuleView {
            bounties: self.bounties@.map_values(|r: BountyRecord| r@),
            funding: Map::new(
                |k: (u64, u64)|
                    self.funding@.contains_key(k.0) && self.funding@[k.0]@.contains_key(k.1),
                |k: (u64, u64)| self.funding@[k.0]@[k.1],
            ),
            bounty_count: self.bounty_count,
        }
    }
}

/// Invariant of the storage seen from outside: bounty ids run from 1 to the bounty count,
/// and funding is only recorded for existing bounties.
pub open spec fn view_wf(v: BountyModuleView) -> bool {
    &&& forall|id: u64| #[trigger] v.bounties.contains_key(id) ==> 1 <= id <= v.bounty_count
    &&& forall|k: (u64, u64)| #[trigger] v.funding.contains_key(k) ==> v.bounties.contains_key(k.0)
}

/// Some member has funded the bounty.
pub open spec fn funding_started(v: BountyModuleView, bounty_id: u64) -> bool {
    exists|m: u64| v.funding.contains_key((bounty_id, m))
}

/// A member's recorded funding of a bounty (zero when there is none).
pub open spec fn funding_of(v: BountyModuleView, bounty_id: u64, member_id: u64) -> u64 {
    if v.funding.contains_key((bounty_id, member_id)) {
        v.funding[(bounty_id, member_id)]
    } else {
        0
    }
}

/// `a + b`, saturating at the largest balance.
pub open spec fn sat_add(a: u64, b: u64) -> u64 {
    if a + b > u64::MAX { u64::MAX } else { (a + b) as u64 }
}

/// `a - b`, saturating at zero.
pub open spec fn sat_sub(a: u64, b: u64) -> u64 {
    if a >= b { (a - b) as u64 } else { 0 }
}

/// The record of a bounty created at block `now`.
pub open spec fn created_record(p: BountyParametersView, now: u64) -> BountyRecordView {
    BountyRecordView { creation_params: p, total_funding: p.creator_funding, state: BountyMilestone::Created(now) }
}

/// A record with another milestone.
pub open spec fn with_state(r: BountyRecordView, state: BountyMilestone) -> BountyRecordView {
    BountyRecordView { creation_params: r.creation_params, total_funding: r.total_funding, state }
}

/// The checks of `create_bounty`, in order: the manager for the creator, or the first error.
pub open spec fn create_bounty_check(
    origin: RawOrigin,
    p: BountyParametersView,
    member_check: Result<u64, DispatchError>,
    council_budget: u64,
    account_balance: u64,
) -> Result<BountyCreatorManager, DispatchError> {
    match creator_manager(origin, p.creator, member_check) {
        Err(e) => Err(e),
        Ok(m) => if !balance_sufficient(m, p.cherry + p.creator_funding, council_budget, account_balance) {
            Err(DispatchError::Bounty(BountyError::InsufficientBalanceForBounty))
        } else {
            match parameters_error(p) {
                Some(e) => Err(DispatchError::Bounty(e)),
                None => Ok(m),
            }
        },
    }
}

/// The storage after a bounty with parameters `p` was created at block `now`.
pub open spec fn after_create(v: BountyModuleView, p: BountyParametersView, now: u64) -> BountyModuleView {
    BountyModuleView {
        bounties: v.bounties.insert((v.bounty_count + 1) as u64, created_record(p, now)),
        funding: v.funding,
        bounty_count: (v.bounty_count + 1) as u32,
    }
}

/// The checks of `cancel_bounty`, in order.
pub open spec fn cancel_bounty_check(
    v: BountyModuleView,
    origin: RawOrigin,
    creator: BountyCreator,
    bounty_id: u64,
    member_check: Result<u64, DispatchError>,
    now: u64,
) -> Result<(), DispatchError> {
    match creator_manager(origin, creator, member_check) {
        Err(e) => Err(e),
        Ok(m) => if !v.bounties.contains_key(bounty_id) {
            Err(DispatchError::Bounty(BountyError::BountyDoesntExist))
        } else if manager_creator(m) != v.bounties[bounty_id].creation_params.creator {
            Err(DispatchError::Bounty(BountyError::NotBountyCreator))
        } else if bounty_stage(v.bounties[bounty_id], now) != BountyStage::Funding {
            Err(DispatchError::Bounty(BountyError::InvalidBountyStage))
        } else if funding_started(v, bounty_id) {
            Err(DispatchError::Bounty(BountyError::InvalidBountyStage))
        } else {
            Ok(())
        },
    }
}

/// `cancel_bounty` computes the stage of the bounty: its creator checks passed.
pub open spec fn cancel_reaches_stage(
    v: BountyModuleView,
    origin: RawOrigin,
    creator: BountyCreator,
    bounty_id: u64,
    member_check: Result<u64, DispatchError>,
) -> bool {
    match creator_manager(origin, creator, member_check) {
        Err(_) => false,
        Ok(m) => v.bounties.contains_key(bounty_id) && manager_creator(m)
            == v.bounties[bounty_id].creation_params.creator,
    }
}

/// The checks of `veto_bounty`, in order.
pub open spec fn veto_bounty_check(v: BountyModuleView, origin: RawOrigin, bounty_id: u64, now: u64) -> Result<
    (),
    DispatchError,
> {
    if !(origin is Root) {
        Err(DispatchError::BadOrigin)
    } else if !v.bounties.contains_key(bounty_id) {
        Err(DispatchError::Bounty(BountyError::BountyDoesntExist))
    } else if bounty_stage(v.bounties[bounty_id], now) != BountyStage::Funding {
        Err(DispatchError::Bounty(BountyError::InvalidBountyStage))
    } else if funding_started(v, bounty_id) {
        Err(DispatchError::Bounty(BountyError::InvalidBountyStage))
    } else {
        Ok(())
    }
}

/// The storage after a bounty was canceled or vetoed.
pub open spec fn after_cancel(v: BountyModuleView, bounty_id: u64) -> BountyModuleView {
    BountyModuleView {
        bounties: v.bounties.insert(bounty_id, with_state(v.bounties[bounty_id], BountyMilestone::Canceled)),
        funding: v.funding,
        bounty_count: v.bounty_count,
    }
}

/// The checks of `fund_bounty`, in order: the member's controller account, or the first error.
pub open spec fn fund_bounty_check(
    v: BountyModuleView,
    bounty_id: u64,
    amount: u64,
    member_check: Result<u64, DispatchError>,
    account_balance: u64,
    now: u64,
) -> Result<u64, DispatchError> {
    match member_check {
        Err(e) => Err(e),
        Ok(account_id) => if !v.bounties.contains_key(bounty_id) {
            Err(DispatchError::Bounty(BountyError::BountyDoesntExist))
        } else if account_balance < amount {
            Err(DispatchError::Bounty(BountyError::InsufficientBalanceForBounty))
        } else if bounty_stage(v.bounties[bounty_id], now) != BountyStage::Funding {
            Err(DispatchError::Bounty(BountyError::InvalidBountyStage))
        } else {
            Ok(account_id)
        },
    }
}

/// The new total funding of a bounty funded with `amount`.
pub open spec fn funded_total(v: BountyModuleView, bounty_id: u64, amount: u64) -> u64 {
    sat_add(v.bounties[bounty_id].total_funding, amount)
}

/// Funding with `amount` brings the bounty to its maximum funding amount.
pub open spec fn reaches_max_funding(v: BountyModuleView, bounty_id: u64, amount: u64) -> bool {
    funded_total(v, bounty_id, amount) >= v.bounties[bounty_id].creation_params.max_amount
}

/// The storage after `member_id` funded the bounty with `amount` at block `now`.
pub open spec fn after_fund(v: BountyModuleView, member_id: u64, bounty_id: u64, amount: u64, now: u64) -> BountyModuleView {
    let r = v.bounties[bounty_id];
    let state = if reaches_max_funding(v, bounty_id, amount) {
        BountyMilestone::MaxFundingReached(now)
    } else {
        r.state
    };
    BountyModuleView {
        bounties: v.bounties.insert(
            bounty_id,
            BountyRecordView {
                creation_params: r.creation_params,
                total_funding: funded_total(v, bounty_id, amount),
                state,
            },
        ),
        funding: v.funding.insert((bounty_id, member_id), sat_add(funding_of(v, bounty_id, member_id), amount)),
        bounty_count: v.bounty_count,
    }
}

/// The checks of `withdraw_member_funding`, in order: the member's controller account, or the
/// first error.
pub open spec fn withdraw_check(
    v: BountyModuleView,
    member_id: u64,
    bounty_id: u64,
    member_check: Result<u64, DispatchError>,
) -> Result<u64, DispatchError> {
    match member_check {
        Err(e) => Err(e),
        Ok(account_id) => if !v.bounties.contains_key(bounty_id) {
            Err(DispatchError::Bounty(BountyError::BountyDoesntExist))
        } else if !v.funding.contains_key((bounty_id, member_id)) {
            Err(DispatchError::Bounty(BountyError::NotBountyFunder))
        } else {
            Ok(account_id)
        },
    }
}

/// The storage after `member_id` withdrew its funding of the bounty.
pub open spec fn after_withdraw(v: BountyModuleView, member_id: u64, bounty_id: u64) -> BountyModuleView {
    let r = v.bounties[bounty_id];
    BountyModuleView {
        bounties: v.bounties.insert(
            bounty_id,
            BountyRecordView {
                creation_params: r.creation_params,
                total_funding: sat_sub(r.total_funding, v.funding[(bounty_id, member_id)]),
                state: r.state,
            },
        ),
        funding: v.funding.remove((bounty_id, member_id)),
        bounty_count: v.bounty_count,
    }
}

impl BountyModule {
    /// Internal invariant: the storage invariant, and no empty funding row.
    pub closed spec fn wf(&self) -> bool {
        &&& view_wf(self@)
        &&& forall|b: u64| #[trigger]
            self.funding@.contains_key(b) ==> exists|m: u64| self.funding@[b]@.contains_key(m)
    }

    /// The invariant implies the storage invariant.
    pub proof fn lemma_wf(&self)
        requires
            self.wf(),
        ensures
            view_wf(self@),
    {
    }

    /// Empty storage.
    pub fn new() -> (s: Self)
        ensures
            s.wf(),
            s@.bounties == Map::<u64, BountyRecordView>::empty(),
            s@.funding == Map::<(u64, u64), u64>::empty(),
            s@.bounty_count == 0,
    {
        let s = BountyModule { bounties: BTreeMap::new(), funding: BTreeMap::new(), bounty_count: 0 };
        assert(s@.bounties =~= Map::<u64, BountyRecordView>::empty());
        assert(s@.funding =~= Map::<(u64, u64), u64>::empty());
        s
    }

    /// Count of all bounties that have been created.
    pub fn bounty_count(&self) -> (c: u32)
        ensures
            c == self@.bounty_count,
    {
        self.bounty_count
    }

    /// The record of a bounty, if it exists.
    pub fn bounties(&self, bounty_id: u64) -> (r: Option<&BountyRecord>)
        ensures
            match r {
                Some(b) => self@.bounties.contains_key(bounty_id) && b@ == self@.bounties[bounty_id],
                None => !self@.bounties.contains_key(bounty_id),
            },
    {
        self.bounties.get(&bounty_id)
    }

    /// A member's funding of a bounty (zero when the member has not funded it).
    pub fn funding_by_bounty_by_member(&self, bounty_id: u64, member_id: u64) -> (f: u64)
        ensures
            f == funding_of(self@, bounty_id, member_id),
    {
        match self.funding.get(&bounty_id) {
            Some(row) => match row.get(&member_id) {
                Some(f) => *f,
                None => 0,
            },
            None => 0,
        }
    }

    /// Verifies that the bounty has some member funding.
    pub fn bounty_funding_started(&self, bounty_id: u64) -> (res: bool)
        requires
            self.wf(),
        ensures
            res == funding_started(self@, bounty_id),
    {
        let res = self.funding.contains_key(&bounty_id);
        proof {
            if res {
                let m = choose|m: u64| self.funding@[bounty_id]@.contains_key(m);
                assert(self@.funding.contains_key((bounty_id, m)));
            }
        }
        res
    }

    /// Creates a bounty. `member_check` is the member origin validator's answer for the origin
    /// and the creator's member id (read only for member creators), `council_budget` the
    /// council budget and `account_balance` the usable balance of the member's controller
    /// account, `now` the current block. The metadata is only kept in the transaction log.
    pub fn create_bounty(
        &mut self,
        origin: RawOrigin,
        params: BountyParameters,
        metadata: Vec<u8>,
        member_check: Result<u64, DispatchError>,
        council_budget: u64,
        account_balance: u64,
        now: u64,
    ) -> (res: Result<CreatedBounty, DispatchError>)
        requires
            old(self).wf(),
            creator_manager(origin, params.creator, member_check) is Ok ==> params.cherry
                + params.creator_funding <= u64::MAX,
            create_bounty_check(origin, params@, member_check, council_budget, account_balance)
                is Ok ==> old(self)@.bounty_count < u32::MAX,
        ensures
            final(self).wf(),
            res is Ok <==> ({
                &&& match params.creator {
                    BountyCreator::Council => origin is Root && council_budget >= params.cherry
                        + params.creator_funding,
                    BountyCreator::Member(_) => member_check is Ok && account_balance
                        >= params.cherry + params.creator_funding,
                }
                &&& params.work_period != 0
                &&& params.judging_period != 0
                &&& params.min_amount <= params.max_amount
            }),
            res matches Ok(out) ==> match params.creator {
                BountyCreator::Council => out.charge == (BalanceCharge::CouncilBudget {
                    new_budget: (council_budget - (params.cherry + params.creator_funding)) as u64,
                }),
                BountyCreator::Member(_) => member_check matches Ok(a) && out.charge == (
                BalanceCharge::Account {
                    account: a,
                    amount: (params.cherry + params.creator_funding) as u64,
                }),
            },
            res matches Ok(out) ==> {
                &&& final(self)@.bounties.contains_key(out.bounty_id)
                &&& final(self)@.bounties[out.bounty_id].total_funding == params.creator_funding
                &&& final(self)@.bounties[out.bounty_id].state == BountyMilestone::Created(now)
            },
            match res {
                Ok(out) => {
                    &&& create_bounty_check(
                        origin,
                        params@,
                        member_check,
                        council_budget,
                        account_balance,
                    ) matches Ok(m)
                    &&& final(self)@ == after_create(old(self)@, params@, now)
                    &&& out.bounty_id == old(self)@.bounty_count + 1
                    &&& out.charge == charge_for(
                        m,
                        (params.cherry + params.creator_funding) as u64,
                        council_budget,
                    )
                    &&& (out.event matches BountyEvent::BountyCreated(id, p) && id == out.bounty_id
                        && p@ == params@)
                },
                Err(e) => {
                    &&& create_bounty_check(
                        origin,
                        params@,
                        member_check,
                        council_budget,
                        account_balance,
                    ) == Err::<BountyCreatorManager, DispatchError>(e)
                    &&& final(self)@ == old(self)@
                },
            },
    {
        let _ = metadata;
        let manager = match BountyCreatorManager::get_bounty_creator(origin, params.creator, member_check) {
            Ok(m) => m,
            Err(e) => return Err(e),
        };
        match manager.validate_balance_sufficiency(
            params.cherry,
            params.creator_funding,
            council_budget,
            account_balance,
        ) {
            Ok(()) => {},
            Err(e) => return Err(e),
        }
        match ensure_create_bounty_parameters_valid(&params) {
            Ok(()) => {},
            Err(e) => return Err(e),
        }

        //
        // == MUTATION SAFE ==
        //

        let charge = manager.slash_balance(params.cherry, params.creator_funding, council_budget);
        let next_bounty_count_value = self.bounty_count + 1;
        let bounty_id = next_bounty_count_value as u64;
        let event_params = params.duplicate();
        let total_funding = params.creator_funding;
        let bounty = BountyRecord {
            creation_params: params,
            total_funding,
            state: BountyMilestone::Created(now),
        };
        let ghost old_v = self@;
        self.bounties.insert(bounty_id, bounty);
        self.bounty_count = next_bounty_count_value;
        proof {
            assert(self@.bounties =~= old_v.bounties.insert(bounty_id, created_record(event_params@, now)));
            assert(self@.funding =~= old_v.funding);
        }
        Ok(CreatedBounty {
            bounty_id,
            charge,
            event: BountyEvent::BountyCreated(bounty_id, event_params),
        })
    }

    /// Sets the milestone of an existing bounty to `Canceled`.
    fn mark_canceled(&mut self, bounty_id: u64)
        requires
            old(self).wf(),
            old(self)@.bounties.contains_key(bounty_id),
        ensures
            final(self).wf(),
            final(self)@ == after_cancel(old(self)@, bounty_id),
    {
        let ghost old_v = self@;
        let mut bounty = self.bounties.remove(&bounty_id).unwrap();
        bounty.state = BountyMilestone::Canceled;
        self.bounties.insert(bounty_id, bounty);
        proof {
            assert(self@.bounties =~= old_v.bounties.insert(
                bounty_id,
                with_state(old_v.bounties[bounty_id], BountyMilestone::Canceled),
            ));
            assert(self@.funding =~= old_v.funding);
        }
    }

    /// Cancels a bounty. `member_check` is the member origin validator's answer for the
    /// origin and the member id of `creator` (read only for member creators); `now` is the
    /// current block.
    pub fn cancel_bounty(
        &mut self,
        origin: RawOrigin,
        creator: BountyCreator,
        bounty_id: u64,
        member_check: Result<u64, DispatchError>,
        now: u64,
    ) -> (res: Result<BountyEvent, DispatchError>)
        requires
            old(self).wf(),
            cancel_reaches_stage(old(self)@, origin, creator, bounty_id, member_check)
                ==> stage_computable(old(self)@.bounties[bounty_id]),
        ensures
            final(self).wf(),
            res is Ok <==> ({
                &&& match creator {
                    BountyCreator::Council => origin is Root,
                    BountyCreator::Member(_) => member_check is Ok,
                }
                &&& old(self)@.bounties.contains_key(bounty_id)
                &&& old(self)@.bounties[bounty_id].creation_params.creator == creator
                &&& bounty_stage(old(self)@.bounties[bounty_id], now) == BountyStage::Funding
                &&& !(exists|m: u64| old(self)@.funding.contains_key((bounty_id, m)))
            }),
            res is Ok ==> {
                &&& final(self)@.bounties[bounty_id].state == BountyMilestone::Canceled
                &&& final(self)@.bounties[bounty_id].total_funding == old(self)@.bounties[bounty_id].total_funding
                &&& final(self)@.funding == old(self)@.funding
            },
            match res {
                Ok(ev) => {
                    &&& cancel_bounty_check(old(self)@, origin, creator, bounty_id, member_check, now)
                        is Ok
                    &&& final(self)@ == after_cancel(old(self)@, bounty_id)
                    &&& (ev matches BountyEvent::BountyCanceled(id, c) && id == bounty_id && c
                        == creator)
                },
                Err(e) => {
                    &&& cancel_bounty_check(old(self)@, origin, creator, bounty_id, member_check, now)
                        == Err::<(), DispatchError>(e)
                    &&& final(self)@ == old(self)@
                },
            },
    {
        let manager = match BountyCreatorManager::get_bounty_creator(origin, creator, member_check) {
            Ok(m) => m,
            Err(e) => return Err(e),
        };
        let bounty = match self.bounties.get(&bounty_id) {
            Some(b) => b,
            None => return Err(DispatchError::Bounty(BountyError::BountyDoesntExist)),
        };
        match manager.validate_creator(bounty.creation_params.creator) {
            Ok(()) => {},
            Err(e) => return Err(e),
        }
        let current_bounty_stage = get_bounty_stage(bounty, now);
        if current_bounty_stage != BountyStage::Funding {
            return Err(DispatchError::Bounty(BountyError::InvalidBountyStage));
        }
        if self.bounty_funding_started(bounty_id) {
            return Err(DispatchError::Bounty(BountyError::InvalidBountyStage));
        }

        //
        // == MUTATION SAFE ==
        //

        self.mark_canceled(bounty_id);
        Ok(BountyEvent::BountyCanceled(bounty_id, creator))
    }

    /// Vetoes a bounty (root only); `now` is the current block.
    pub fn veto_bounty(&mut self, origin: RawOrigin, bounty_id: u64, now: u64) -> (res: Result<
        BountyEvent,
        DispatchError,
    >)
        requires
            old(self).wf(),
            origin is Root && old(self)@.bounties.contains_key(bounty_id) ==> stage_computable(
                old(self)@.bounties[bounty_id],
            ),
        ensures
            final(self).wf(),
            res is Ok <==> ({
                &&& origin is Root
                &&& old(self)@.bounties.contains_key(bounty_id)
                &&& bounty_stage(old(self)@.bounties[bounty_id], now) == BountyStage::Funding
                &&& !(exists|m: u64| old(self)@.funding.contains_key((bounty_id, m)))
            }),
            res is Ok ==> {
                &&& final(self)@.bounties[bounty_id].state == BountyMilestone::Canceled
                &&& final(self)@.funding == old(self)@.funding
            },
            match res {
                Ok(ev) => {
                    &&& veto_bounty_check(old(self)@, origin, bounty_id, now) is Ok
                    &&& final(self)@ == after_cancel(old(self)@, bounty_id)
                    &&& (ev matches BountyEvent::BountyVetoed(id) && id == bounty_id)
                },
                Err(e) => {
                    &&& veto_bounty_check(old(self)@, origin, bounty_id, now) == Err::<
                        (),
                        DispatchError,
                    >(e)
                    &&& final(self)@ == old(self)@
                },
            },
    {
        match ensure_root(origin) {
            Ok(()) => {},
            Err(e) => return Err(e),
        }
        let bounty = match self.bounties.get(&bounty_id) {
            Some(b) => b,
            None => return Err(DispatchError::Bounty(BountyError::BountyDoesntExist)),
        };
        let current_bounty_stage = get_bounty_stage(bounty, now);
        if current_bounty_stage != BountyStage::Funding {
            return Err(DispatchError::Bounty(BountyError::InvalidBountyStage));
        }
        if self.bounty_funding_started(bounty_id) {
            return Err(DispatchError::Bounty(BountyError::InvalidBountyStage));
        }

        //
        // == MUTATION SAFE ==
        //

        self.mark_canceled(bounty_id);
        Ok(BountyEvent::BountyVetoed(bounty_id))
    }

    /// Records `value` as the member's funding of an existing bounty.
    fn record_funding(&mut self, bounty_id: u64, member_id: u64, value: u64)
        requires
            old(self).wf(),
            old(self)@.bounties.contains_key(bounty_id),
        ensures
            final(self).wf(),
            final(self)@.bounties == old(self)@.bounties,
            final(self)@.bounty_count == old(self)@.bounty_count,
            final(self)@.funding == old(self)@.funding.insert((bounty_id, member_id), value),
    {
        let ghost old_v = self@;
        let ghost old_f = self.funding@;
        let mut row = match self.funding.remove(&bounty_id) {
            Some(r) => r,
            None => BTreeMap::new(),
        };
        row.insert(member_id, value);
        self.funding.insert(bounty_id, row);
        proof {
            assert(self.funding@[bounty_id]@.contains_key(member_id));
            assert(self@.funding =~= old_v.funding.insert((bounty_id, member_id), value));
            assert(self@.bounties =~= old_v.bounties);
            assert forall|b: u64| #[trigger] self.funding@.contains_key(b) implies exists|m: u64|
                self.funding@[b]@.contains_key(m) by {
                if b != bounty_id {
                    assert(old_f.contains_key(b));
                    let m = choose|m: u64| old_f[b]@.contains_key(m);
                    assert(self.funding@[b]@.contains_key(m));
                } else {
                    assert(self.funding@[b]@.contains_key(member_id));
                }
            }
        }
    }

    /// Removes the member's funding record of a bounty.
    fn remove_funding(&mut self, bounty_id: u64, member_id: u64)
        requires
            old(self).wf(),
            old(self)@.funding.contains_key((bounty_id, member_id)),
        ensures
            final(self).wf(),
            final(self)@.bounties == old(self)@.bounties,
            final(self)@.bounty_count == old(self)@.bounty_count,
            final(self)@.funding == old(self)@.funding.remove((bounty_id, member_id)),
    {
        let ghost old_v = self@;
        let ghost old_f = self.funding@;
        let mut row = self.funding.remove(&bounty_id).unwrap();
        row.remove(&member_id);
        if !row.is_empty() {
            self.funding.insert(bounty_id, row);
        }
        proof {
            assert(self@.funding =~= old_v.funding.remove((bounty_id, member_id)));
            assert(self@.bounties =~= old_v.bounties);
            assert forall|b: u64| #[trigger] self.funding@.contains_key(b) implies exists|m: u64|
                self.funding@[b]@.contains_key(m) by {
                if b != bounty_id {
                    assert(old_f.contains_key(b));
                    let m = choose|m: u64| old_f[b]@.contains_key(m);
                    assert(self.funding@[b]@.contains_key(m));
                } else {
                    assert(!self.funding@[b]@.is_empty());
                }
            }
        }
    }

    /// Provides bounty funding. `member_check` is the member origin validator's answer for the
    /// origin and `member_id`, `account_balance` the usable balance of that controller
    /// account, `now` the current block.
    pub fn fund_bounty(
        &mut self,
        member_id: u64,
        bounty_id: u64,
        amount: u64,
        member_check: Result<u64, DispatchError>,
        account_balance: u64,
        now: u64,
    ) -> (res: Result<FundedBounty, DispatchError>)
        requires
            old(self).wf(),
            member_check is Ok && old(self)@.bounties.contains_key(bounty_id) && account_balance
                >= amount ==> stage_computable(old(self)@.bounties[bounty_id]),
        ensures
            final(self).wf(),
            res is Ok <==> ({
                &&& member_check is Ok
                &&& old(self)@.bounties.contains_key(bounty_id)
                &&& account_balance >= amount
                &&& bounty_stage(old(self)@.bounties[bounty_id], now) == BountyStage::Funding
            }),
            res matches Ok(out) ==> ({
                let before = old(self)@.bounties[bounty_id];
                let after = final(self)@.bounties[bounty_id];
                let reached = before.total_funding + amount >= before.creation_params.max_amount;
                &&& member_check == Ok::<u64, DispatchError>(out.account)
                &&& out.amount == amount
                &&& after.total_funding == if before.total_funding + amount > u64::MAX {
                    u64::MAX
                } else {
                    (before.total_funding + amount) as u64
                }
                &&& after.creation_params == before.creation_params
                &&& reached ==> after.state == BountyMilestone::MaxFundingReached(now)
                &&& !reached ==> after.state == before.state
                &&& before.state is Created
                &&& out.events@.len() == if reached { 2int } else { 1int }
                &&& out.events@[0] == BountyEvent::BountyFunded(bounty_id, member_id, amount)
                &&& reached ==> out.events@[1] == BountyEvent::BountyMaxFundingReached(bounty_id)
                &&& final(self)@.funding.contains_key((bounty_id, member_id))
                &&& final(self)@.funding[(bounty_id, member_id)] as int == if funding_of(
                    old(self)@,
                    bounty_id,
                    member_id,
                ) + amount > u64::MAX {
                    u64::MAX as int
                } else {
                    funding_of(old(self)@, bounty_id, member_id) + amount
                }
            }),
            match res {
                Ok(out) => {
                    &&& fund_bounty_check(old(self)@, bounty_id, amount, member_check, account_balance, now)
                        == Ok::<u64, DispatchError>(out.account)
                    &&& out.amount == amount
                    &&& final(self)@ == after_fund(old(self)@, member_id, bounty_id, amount, now)
                    &&& out.events@.len() == if reaches_max_funding(old(self)@, bounty_id, amount) {
                        2int
                    } else {
                        1int
                    }
                    &&& (out.events@[0] matches BountyEvent::BountyFunded(b, m, a) && b == bounty_id
                        && m == member_id && a == amount)
                    &&& reaches_max_funding(old(self)@, bounty_id, amount) ==> (
                    out.events@[1] matches BountyEvent::BountyMaxFundingReached(b) && b == bounty_id)
                },
                Err(e) => {
                    &&& fund_bounty_check(old(self)@, bounty_id, amount, member_check, account_balance, now)
                        == Err::<u64, DispatchError>(e)
                    &&& final(self)@ == old(self)@
                },
            },
    {
        let account_id = match member_check {
            Ok(a) => a,
            Err(e) => return Err(e),
        };
        let bounty = match self.bounties.get(&bounty_id) {
            Some(b) => b,
            None => return Err(DispatchError::Bounty(BountyError::BountyDoesntExist)),
        };
        if !check_balance_for_account(amount, account_balance) {
            return Err(DispatchError::Bounty(BountyError::InsufficientBalanceForBounty));
        }
        let current_bounty_stage = get_bounty_stage(bounty, now);
        if current_bounty_stage != BountyStage::Funding {
            return Err(DispatchError::Bounty(BountyError::InvalidBountyStage));
        }

        //
        // == MUTATION SAFE ==
        //

        let ghost old_v = self@;
        let funds_so_far = self.funding_by_bounty_by_member(bounty_id, member_id);
        let mut bounty = self.bounties.remove(&bounty_id).unwrap();
        bounty.total_funding = bounty.total_funding.saturating_add(amount);
        let maximum_funding_reached = bounty.total_funding >= bounty.creation_params.max_amount;
        if maximum_funding_reached {
            bounty.state = BountyMilestone::MaxFundingReached(now);
        }
        let ghost new_record = bounty@;
        self.bounties.insert(bounty_id, bounty);
        proof {
            assert(self@.bounties =~= old_v.bounties.insert(bounty_id, new_record));
            assert(self@.funding =~= old_v.funding);
        }
        let total_funding = funds_so_far.saturating_add(amount);
        self.record_funding(bounty_id, member_id, total_funding);

        let mut events: Vec<BountyEvent> = Vec::new();
        events.push(BountyEvent::BountyFunded(bounty_id, member_id, amount));
        if maximum_funding_reached {
            events.push(BountyEvent::BountyMaxFundingReached(bounty_id));
        }
        Ok(FundedBounty { account: account_id, amount, events })
    }

    /// Withdraws a member's funding of a bounty. `member_check` is the member origin
    /// validator's answer for the origin and `member_id`.
    pub fn withdraw_member_funding(
        &mut self,
        member_id: u64,
        bounty_id: u64,
        member_check: Result<u64, DispatchError>,
    ) -> (res: Result<WithdrawnFunding, DispatchError>)
        requires
            old(self).wf(),
        ensures
            final(self).wf(),
            res is Ok <==> ({
                &&& member_check is Ok
                &&& old(self)@.bounties.contains_key(bounty_id)
                &&& old(self)@.funding.contains_key((bounty_id, member_id))
            }),
            res matches Ok(out) ==> ({
                let before = old(self)@.bounties[bounty_id];
                let after = final(self)@.bounties[bounty_id];
                &&& member_check == Ok::<u64, DispatchError>(out.account)
                &&& out.amount == old(self)@.funding[(bounty_id, member_id)]
                &&& after.total_funding == if before.total_funding >= out.amount {
                    (before.total_funding - out.amount) as u64
                } else {
                    0
                }
                &&& after.state == before.state
                &&& after.creation_params == before.creation_params
                &&& !final(self)@.funding.contains_key((bounty_id, member_id))
            }),
            match res {
                Ok(out) => {
                    &&& withdraw_check(old(self)@, member_id, bounty_id, member_check) == Ok::<
                        u64,
                        DispatchError,
                    >(out.account)
                    &&& out.amount == old(self)@.funding[(bounty_id, member_id)]
                    &&& final(self)@ == after_withdraw(old(self)@, member_id, bounty_id)
                    &&& (out.event matches BountyEvent::BountyMemberFundingWithdrawal(b, m) && b
                        == bounty_id && m == member_id)
                },
                Err(e) => {
                    &&& withdraw_check(old(self)@, member_id, bounty_id, member_check) == Err::<
                        u64,
                        DispatchError,
                    >(e)
                    &&& final(self)@ == old(self)@
                },
            },
    {
        let account_id = match member_check {
            Ok(a) => a,
            Err(e) => return Err(e),
        };
        if !self.bounties.contains_key(&bounty_id) {
            return Err(DispatchError::Bounty(BountyError::BountyDoesntExist));
        }
        let funding_amount = match self.funding.get(&bounty_id) {
            Some(row) => match row.get(&member_id) {
                Some(f) => *f,
                None => return Err(DispatchError::Bounty(BountyError::NotBountyFunder)),
            },
            None => return Err(DispatchError::Bounty(BountyError::NotBountyFunder)),
        };

        //
        // == MUTATION SAFE ==
        //

        let ghost old_v = self@;
        let mut bounty = self.bounties.remove(&bounty_id).unwrap();
        bounty.total_funding = bounty.total_funding.saturating_sub(funding_amount);
        let ghost new_record = bounty@;
        self.bounties.insert(bounty_id, bounty);
        proof {
            assert(self@.bounties =~= old_v.bounties.insert(bounty_id, new_record));
            assert(self@.funding =~= old_v.funding);
        }
        self.remove_funding(bounty_id, member_id);
        Ok(WithdrawnFunding {
            account: account_id,
            amount: funding_amount,
            event: BountyEvent::BountyMemberFundingWithdrawal(bounty_id, member_id),
        })
    }
}

} // verus!