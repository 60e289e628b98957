use std::collections::HashMap;

use joystream_pallets::bounty::{
    AssuranceContractType, BalanceCharge, BountyCreatorManager, BountyCreator, BountyError, BountyEvent, BountyMilestone,
    BountyModule, BountyParameters, BountyRecord, BountyStage, OracleType, get_bounty_stage,
};
use joystream_pallets::origin::{DispatchError, RawOrigin};

/// The test runtime around the bounty module: balances, the council budget, the block
/// number, the member origin validator and the event log.
struct TestRuntime {
    bounty: BountyModule,
    balances: HashMap<u64, u64>,
    council_budget: u64,
    block: u64,
    events: Vec<BountyEvent>,
}

impl TestRuntime {
    fn new() -> Self {
        TestRuntime {
            bounty: BountyModule::new(),
            balances: HashMap::new(),
            council_budget: 0,
            block: 0,
            events: Vec::new(),
        }
    }

    fn run_to_block(&mut self, n: u64) {
        self.block = n;
    }

    fn usable_balance(&self, account: u64) -> u64 {
        *self.balances.get(&account).unwrap_or(&0)
    }

    fn increase_total_balance_issuance_using_account_id(&mut self, account: u64, amount: u64) {
        let b = self.usable_balance(account);
        self.balances.insert(account, b + amount);
    }

    fn slash(&mut self, account: u64, amount: u64) {
        let b = self.usable_balance(account);
        self.balances.insert(account, b.saturating_sub(amount));
    }

    // The member origin validator of the test runtime: any signed origin controls any member.
    fn member_origin(origin: RawOrigin) -> Result<u64, DispatchError> {
        match origin {
            RawOrigin::Signed(account) => Ok(account),
            _ => Err(DispatchError::BadOrigin),
        }
    }

    fn create_bounty(&mut self, origin: RawOrigin, params: BountyParameters) -> Result<(), DispatchError> {
        let check = Self::member_origin(origin);
        let balance = match check {
            Ok(account) => self.usable_balance(account),
            Err(_) => 0,
        };
        let out = self.bounty.create_bounty(
            origin,
            params,
            b"Bounty text".to_vec(),
            check,
            self.council_budget,
            balance,
            self.block,
        )?;
        match out.charge {
            BalanceCharge::CouncilBudget { new_budget } => self.council_budget = new_budget,
            BalanceCharge::Account { account, amount } => self.slash(account, amount),
        }
        self.events.push(out.event);
        Ok(())
    }

    fn cancel_bounty(
        &mut self,
        origin: RawOrigin,
        creator: BountyCreator,
        bounty_id: u64,
    ) -> Result<(), DispatchError> {
        let check = Self::member_origin(origin);
        let ev = self.bounty.cancel_bounty(origin, creator, bounty_id, check, self.block)?;
        self.events.push(ev);
        Ok(())
    }

    fn veto_bounty(&mut self, origin: RawOrigin, bounty_id: u64) -> Result<(), DispatchError> {
        let ev = self.bounty.veto_bounty(origin, bounty_id, self.block)?;
        self.events.push(ev);
        Ok(())
    }

    fn fund_bounty(
        &mut self,
        origin: RawOrigin,
        member_id: u64,
        bounty_id: u64,
        amount: u64,
    ) -> Result<(), DispatchError> {
        let check = Self::member_origin(origin);
        let balance = match check {
            Ok(account) => self.usable_balance(account),
            Err(_) => 0,
        };
        let out = self.bounty.fund_bounty(member_id, bounty_id, amount, check, balance, self.block)?;
        self.slash(out.account, out.amount);
        self.events.extend(out.events);
        Ok(())
    }

    fn withdraw_member_funding(
        &mut self,
        origin: RawOrigin,
        member_id: u64,
        bounty_id: u64,
    ) -> Result<(), DispatchError> {
        let check = Self::member_origin(origin);
        let out = self.bounty.withdraw_member_funding(member_id, bounty_id, check)?;
        self.increase_total_balance_issuance_using_account_id(out.account, out.amount);
        self.events.push(out.event);
        Ok(())
    }

    fn last_event(&self) -> &BountyEvent {
        self.events.last().unwrap()
    }
}

fn default_params() -> BountyParameters {
    BountyParameters {
        oracle: OracleType::Council,
        contract_type: AssuranceContractType::Open,
        creator: BountyCreator::Council,
        cherry: 0,
        min_amount: 0,
        max_amount: 0,
        entrant_stake: 0,
        funding_period: None,
        work_period: 1,
        judging_period: 1,
        creator_funding: 0,
    }
}

fn member_params(member_id: u64) -> BountyParameters {
    BountyParameters { creator: BountyCreator::Member(member_id), ..default_params() }
}

fn err(e: BountyError) -> Result<(), DispatchError> {
    Err(DispatchError::Bounty(e))
}

#[test]
fn create_bounty_succeeds() {
    let mut rt = TestRuntime::new();
    rt.run_to_block(1);
    let params = default_params();
    assert_eq!(rt.create_bounty(RawOrigin::Root, params.clone()), Ok(()));
    let bounty_id = 1u64;
    assert_eq!(rt.last_event(), &BountyEvent::BountyCreated(bounty_id, params));
}

#[test]
fn create_bounty_slashes_the_member_balance_correctly() {
    let mut rt = TestRuntime::new();
    let member_id = 1;
    let account_id = 1;
    let cherry = 100;
    let initial_balance = 500;
    let creator_funding = 200;
    rt.increase_total_balance_issuance_using_account_id(account_id, initial_balance);
    let params = BountyParameters { cherry, creator_funding, ..member_params(member_id) };
    assert_eq!(rt.create_bounty(RawOrigin::Signed(account_id), params), Ok(()));
    assert_eq!(rt.usable_balance(account_id), initial_balance - cherry - creator_funding);
}

#[test]
fn create_bounty_slashes_the_council_balance_correctly() {
    let mut rt = TestRuntime::new();
    let cherry = 100;
    let initial_balance = 500;
    let creator_funding = 200;
    rt.council_budget = initial_balance;
    let params = BountyParameters { cherry, creator_funding, ..default_params() };
    assert_eq!(rt.create_bounty(RawOrigin::Root, params), Ok(()));
    assert_eq!(rt.council_budget, initial_balance - cherry - creator_funding);
}

#[test]
fn create_bounty_fails_with_invalid_origin() {
    let mut rt = TestRuntime::new();
    assert_eq!(rt.create_bounty(RawOrigin::Signed(1), default_params()), Err(DispatchError::BadOrigin));
    assert_eq!(rt.create_bounty(RawOrigin::Root, member_params(1)), Err(DispatchError::BadOrigin));
}

#[test]
fn create_bounty_fails_with_invalid_min_max_amounts() {
    let mut rt = TestRuntime::new();
    let params = BountyParameters { min_amount: 100, max_amount: 0, ..default_params() };
    assert_eq!(
        rt.create_bounty(RawOrigin::Root, params),
        err(BountyError::MinFundingAmountCannotBeGreaterThanMaxAmount)
    );
}

#[test]
fn create_bounty_fails_with_invalid_periods() {
    let mut rt = TestRuntime::new();
    let params = BountyParameters { work_period: 0, ..default_params() };
    assert_eq!(rt.create_bounty(RawOrigin::Root, params), err(BountyError::WorkPeriodCannotBeZero));
    let params = BountyParameters { judging_period: 0, ..default_params() };
    assert_eq!(rt.create_bounty(RawOrigin::Root, params), err(BountyError::JudgingPeriodCannotBeZero));
}

#[test]
fn create_bounty_fails_with_insufficient_balances() {
    let mut rt = TestRuntime::new();
    let member_id = 1;
    let account_id = 1;
    let cherry = 100;
    let params = BountyParameters { cherry, ..default_params() };
    assert_eq!(rt.create_bounty(RawOrigin::Root, params), err(BountyError::InsufficientBalanceForBounty));
    let params = BountyParameters { cherry, ..member_params(member_id) };
    assert_eq!(
        rt.create_bounty(RawOrigin::Signed(account_id), params),
        err(BountyError::InsufficientBalanceForBounty)
    );
}

#[test]
fn cancel_bounty_succeeds() {
    let mut rt = TestRuntime::new();
    rt.run_to_block(1);
    assert_eq!(rt.create_bounty(RawOrigin::Root, default_params()), Ok(()));
    let bounty_id = 1u64;
    assert_eq!(rt.cancel_bounty(RawOrigin::Root, BountyCreator::Council, bounty_id), Ok(()));
    assert_eq!(rt.last_event(), &BountyEvent::BountyCanceled(bounty_id, BountyCreator::Council));
}

#[test]
fn cancel_bounty_by_member_succeeds() {
    let mut rt = TestRuntime::new();
    rt.run_to_block(1);
    let member_id = 1;
    let account_id = 1;
    let initial_balance = 500;
    rt.increase_total_balance_issuance_using_account_id(account_id, initial_balance);
    assert_eq!(rt.create_bounty(RawOrigin::Signed(account_id), member_params(member_id)), Ok(()));
    let bounty_id = 1u64;
    assert_eq!(
        rt.cancel_bounty(RawOrigin::Signed(account_id), BountyCreator::Member(member_id), bounty_id),
        Ok(())
    );
    assert_eq!(rt.last_event(), &BountyEvent::BountyCanceled(bounty_id, BountyCreator::Member(member_id)));
}

#[test]
fn cancel_bounty_fails_with_invalid_bounty_id() {
    let mut rt = TestRuntime::new();
    let invalid_bounty_id = 11u64;
    assert_eq!(
        rt.cancel_bounty(RawOrigin::Root, BountyCreator::Council, invalid_bounty_id),
        err(BountyError::BountyDoesntExist)
    );
}

#[test]
fn cancel_bounty_fails_with_invalid_origin() {
    let mut rt = TestRuntime::new();
    let member_id = 1;
    let account_id = 1;

    // Created by council - try to cancel with bad origin
    assert_eq!(rt.create_bounty(RawOrigin::Root, default_params()), Ok(()));
    let bounty_id = 1u64;
    assert_eq!(
        rt.cancel_bounty(RawOrigin::Signed(account_id), BountyCreator::Council, bounty_id),
        Err(DispatchError::BadOrigin)
    );

    // Created by a member - try to cancel with invalid member_id
    assert_eq!(rt.create_bounty(RawOrigin::Signed(account_id), member_params(member_id)), Ok(()));
    let bounty_id = 2u64;
    let invalid_member_id = 2;
    assert_eq!(
        rt.cancel_bounty(RawOrigin::Signed(account_id), BountyCreator::Member(invalid_member_id), bounty_id),
        err(BountyError::NotBountyCreator)
    );

    // Created by a member - try to cancel with bad origin
    assert_eq!(rt.create_bounty(RawOrigin::Signed(1), member_params(member_id)), Ok(()));
    let bounty_id = 3u64;
    assert_eq!(
        rt.cancel_bounty(RawOrigin::Unsigned, BountyCreator::Member(member_id), bounty_id),
        Err(DispatchError::BadOrigin)
    );

    // Created by a member  - try to cancel by council
    assert_eq!(rt.create_bounty(RawOrigin::Signed(account_id), member_params(member_id)), Ok(()));
    let bounty_id = 4u64;
    assert_eq!(
        rt.cancel_bounty(RawOrigin::Root, BountyCreator::Council, bounty_id),
        err(BountyError::NotBountyCreator)
    );
}

#[test]
fn cancel_bounty_fails_with_invalid_stage() {
    let mut rt = TestRuntime::new();
    assert_eq!(rt.create_bounty(RawOrigin::Root, default_params()), Ok(()));
    let bounty_id = 1u64;
    assert_eq!(rt.cancel_bounty(RawOrigin::Root, BountyCreator::Council, bounty_id), Ok(()));
    assert_eq!(
        rt.cancel_bounty(RawOrigin::Root, BountyCreator::Council, bounty_id),
        err(BountyError::InvalidBountyStage)
    );
}

#[test]
fn veto_bounty_succeeds() {
    let mut rt = TestRuntime::new();
    rt.run_to_block(1);
    assert_eq!(rt.create_bounty(RawOrigin::Root, default_params()), Ok(()));
    let bounty_id = 1u64;
    assert_eq!(rt.veto_bounty(RawOrigin::Root, bounty_id), Ok(()));
    assert_eq!(rt.last_event(), &BountyEvent::BountyVetoed(bounty_id));
}

#[test]
fn veto_bounty_fails_with_invalid_bounty_id() {
    let mut rt = TestRuntime::new();
    let invalid_bounty_id = 11u64;
    assert_eq!(rt.veto_bounty(RawOrigin::Root, invalid_bounty_id), err(BountyError::BountyDoesntExist));
}

#[test]
fn veto_bounty_fails_with_invalid_origin() {
    let mut rt = TestRuntime::new();
    let account_id = 1;
    assert_eq!(rt.create_bounty(RawOrigin::Root, default_params()), Ok(()));
    let bounty_id = 1u64;
    assert_eq!(rt.veto_bounty(RawOrigin::Signed(account_id), bounty_id), Err(DispatchError::BadOrigin));
}

#[test]
fn veto_bounty_fails_with_invalid_stage() {
    let mut rt = TestRuntime::new();
    assert_eq!(rt.create_bounty(RawOrigin::Root, default_params()), Ok(()));
    let bounty_id = 1u64;
    assert_eq!(rt.veto_bounty(RawOrigin::Root, bounty_id), Ok(()));
    assert_eq!(rt.veto_bounty(RawOrigin::Root, bounty_id), err(BountyError::InvalidBountyStage));
}

#[test]
fn fund_bounty_succeeds() {
    let mut rt = TestRuntime::new();
    rt.run_to_block(1);
    let max_amount = 500;
    let amount = 100;
    let account_id = 1;
    let member_id = 1;
    let initial_balance = 500;
    rt.increase_total_balance_issuance_using_account_id(account_id, initial_balance);
    let params = BountyParameters { max_amount, ..default_params() };
    assert_eq!(rt.create_bounty(RawOrigin::Root, params), Ok(()));
    let bounty_id = 1u64;
    assert_eq!(rt.fund_bounty(RawOrigin::Signed(account_id), member_id, bounty_id, amount), Ok(()));
    assert_eq!(rt.usable_balance(account_id), initial_balance - amount);
    assert_eq!(rt.last_event(), &BountyEvent::BountyFunded(bounty_id, member_id, amount));
}

#[test]
fn fund_bounty_succeeds_with_reaching_max_funding_amount() {
    let mut rt = TestRuntime::new();
    let starting_block = 1;
    rt.run_to_block(starting_block);
    let max_amount = 50;
    let amount = 100;
    let account_id = 1;
    let member_id = 1;
    let initial_balance = 500;
    rt.increase_total_balance_issuance_using_account_id(account_id, initial_balance);
    let params = BountyParameters { max_amount, ..default_params() };
    assert_eq!(rt.create_bounty(RawOrigin::Root, params), Ok(()));
    let bounty_id = 1u64;
    assert_eq!(rt.fund_bounty(RawOrigin::Signed(account_id), member_id, bounty_id, amount), Ok(()));
    assert_eq!(rt.usable_balance(account_id), initial_balance - amount);
    let bounty = rt.bounty.bounties(bounty_id).unwrap();
    assert_eq!(bounty.state, BountyMilestone::MaxFundingReached(starting_block));
    assert_eq!(rt.last_event(), &BountyEvent::BountyMaxFundingReached(bounty_id));
}

#[test]
fn multiple_fund_bounty_succeed() {
    let mut rt = TestRuntime::new();
    let max_amount = 5000;
    let amount = 100;
    let account_id = 1;
    let member_id = 1;
    let initial_balance = 500;
    rt.increase_total_balance_issuance_using_account_id(account_id, initial_balance);
    let params = BountyParameters { max_amount, ..default_params() };
    assert_eq!(rt.create_bounty(RawOrigin::Root, params), Ok(()));
    let bounty_id = 1u64;
    assert_eq!(rt.fund_bounty(RawOrigin::Signed(account_id), member_id, bounty_id, amount), Ok(()));
    assert_eq!(rt.fund_bounty(RawOrigin::Signed(account_id), member_id, bounty_id, amount), Ok(()));
    assert_eq!(rt.usable_balance(account_id), initial_balance - 2 * amount);
}

#[test]
fn fund_bounty_fails_with_invalid_bounty_id() {
    let mut rt = TestRuntime::new();
    let invalid_bounty_id = 11u64;
    assert_eq!(
        rt.fund_bounty(RawOrigin::Signed(1), 1, invalid_bounty_id, 100),
        err(BountyError::BountyDoesntExist)
    );
}

#[test]
fn fund_bounty_fails_with_invalid_origin() {
    let mut rt = TestRuntime::new();
    assert_eq!(rt.create_bounty(RawOrigin::Root, default_params()), Ok(()));
    let bounty_id = 1u64;
    assert_eq!(rt.fund_bounty(RawOrigin::Root, 1, bounty_id, 100), Err(DispatchError::BadOrigin));
}

#[test]
fn fund_bounty_fails_with_insufficient_balance() {
    let mut rt = TestRuntime::new();
    let member_id = 1;
    let account_id = 1;
    let amount = 100;
    assert_eq!(rt.create_bounty(RawOrigin::Root, default_params()), Ok(()));
    assert_eq!(
        rt.fund_bounty(RawOrigin::Signed(account_id), member_id, 1, amount),
        err(BountyError::InsufficientBalanceForBounty)
    );
}

#[test]
fn fund_bounty_fails_with_invalid_stage() {
    let mut rt = TestRuntime::new();
    let amount = 100;
    let account_id = 1;
    let member_id = 1;
    let initial_balance = 500;
    rt.increase_total_balance_issuance_using_account_id(account_id, initial_balance);
    assert_eq!(rt.create_bounty(RawOrigin::Root, default_params()), Ok(()));
    let bounty_id = 1u64;
    assert_eq!(rt.cancel_bounty(RawOrigin::Root, BountyCreator::Council, bounty_id), Ok(()));
    assert_eq!(
        rt.fund_bounty(RawOrigin::Signed(account_id), member_id, bounty_id, amount),
        err(BountyError::InvalidBountyStage)
    );
}

#[test]
fn fund_bounty_fails_with_expired_funding_period() {
    let mut rt = TestRuntime::new();
    let amount = 100;
    let account_id = 1;
    let member_id = 1;
    let initial_balance = 500;
    let funding_period = 10;
    rt.increase_total_balance_issuance_using_account_id(account_id, initial_balance);
    let params = BountyParameters { funding_period: Some(funding_period), ..default_params() };
    assert_eq!(rt.create_bounty(RawOrigin::Root, params), Ok(()));
    rt.run_to_block(funding_period + 1);
    assert_eq!(
        rt.fund_bounty(RawOrigin::Signed(account_id), member_id, 1, amount),
        err(BountyError::InvalidBountyStage)
    );
}

#[test]
fn withdraw_member_funding_succeeds() {
    let mut rt = TestRuntime::new();
    rt.run_to_block(1);
    let max_amount = 500;
    let amount = 100;
    let account_id = 1;
    let member_id = 1;
    let initial_balance = 500;
    rt.increase_total_balance_issuance_using_account_id(account_id, initial_balance);
    let params = BountyParameters { max_amount, ..default_params() };
    assert_eq!(rt.create_bounty(RawOrigin::Root, params), Ok(()));
    let bounty_id = 1u64;
    assert_eq!(rt.fund_bounty(RawOrigin::Signed(account_id), member_id, bounty_id, amount), Ok(()));
    assert_eq!(rt.withdraw_member_funding(RawOrigin::Signed(account_id), member_id, bounty_id), Ok(()));
    assert_eq!(rt.usable_balance(account_id), initial_balance);
    assert_eq!(rt.last_event(), &BountyEvent::BountyMemberFundingWithdrawal(bounty_id, member_id));
}

#[test]
fn withdraw_member_funding_fails_with_invalid_bounty_id() {
    let mut rt = TestRuntime::new();
    let invalid_bounty_id = 11u64;
    assert_eq!(
        rt.withdraw_member_funding(RawOrigin::Signed(1), 1, invalid_bounty_id),
        err(BountyError::BountyDoesntExist)
    );
}

#[test]
fn withdraw_member_funding_fails_with_invalid_origin() {
    let mut rt = TestRuntime::new();
    assert_eq!(rt.create_bounty(RawOrigin::Root, default_params()), Ok(()));
    let bounty_id = 1u64;
    assert_eq!(rt.withdraw_member_funding(RawOrigin::Root, 1, bounty_id), Err(DispatchError::BadOrigin));
}

// ---- further cases ----

fn record(params: BountyParameters, total_funding: u64, state: BountyMilestone) -> BountyRecord {
    BountyRecord { creation_params: params, total_funding, state }
}

#[test]
fn bounty_stage_follows_the_funding_period() {
    let params = BountyParameters { funding_period: Some(10), min_amount: 50, max_amount: 100, ..default_params() };
    let created = record(params.clone(), 0, BountyMilestone::Created(5));
    assert_eq!(get_bounty_stage(&created, 15), BountyStage::Funding);
    assert_eq!(get_bounty_stage(&created, 16), BountyStage::Withdrawal);
    let funded = record(params.clone(), 60, BountyMilestone::Created(5));
    assert_eq!(get_bounty_stage(&funded, 16), BountyStage::WorkSubmission);
    let perpetual = record(default_params(), 0, BountyMilestone::Created(5));
    assert_eq!(get_bounty_stage(&perpetual, 1_000_000), BountyStage::Funding);
    let canceled = record(default_params(), 0, BountyMilestone::Canceled);
    assert_eq!(get_bounty_stage(&canceled, 0), BountyStage::Canceled);
    assert_eq!(get_bounty_stage(&canceled, u64::MAX), BountyStage::Canceled);
}

#[test]
fn bounty_stage_after_max_funding() {
    let params = BountyParameters { work_period: 10, ..default_params() };
    let reached = record(params, 100, BountyMilestone::MaxFundingReached(5));
    assert_eq!(get_bounty_stage(&reached, 6), BountyStage::WorkSubmission);
    assert_eq!(get_bounty_stage(&reached, 15), BountyStage::WorkSubmission);
    assert_eq!(get_bounty_stage(&reached, 16), BountyStage::Withdrawal);
    let params = BountyParameters { work_period: 10, judging_period: 1, max_amount: 50, ..Default::default() };
    let reached = record(params, 100, BountyMilestone::MaxFundingReached(1));
    assert_eq!(get_bounty_stage(&reached, 2), BountyStage::WorkSubmission);
}

#[test]
fn bounty_ids_are_sequential_and_records_kept() {
    let mut rt = TestRuntime::new();
    rt.run_to_block(3);
    let params = BountyParameters {
        creator_funding: 40,
        contract_type: AssuranceContractType::Closed(vec![1, 2]),
        ..default_params()
    };
    rt.council_budget = 100;
    assert_eq!(rt.create_bounty(RawOrigin::Root, params.clone()), Ok(()));
    assert_eq!(rt.create_bounty(RawOrigin::Root, default_params()), Ok(()));
    assert_eq!(rt.bounty.bounty_count(), 2);
    let first = rt.bounty.bounties(1).unwrap();
    assert_eq!(first.total_funding, 40);
    assert_eq!(first.state, BountyMilestone::Created(3));
    assert_eq!(first.creation_params, params);
    assert!(rt.bounty.bounties(2).is_some());
    assert!(rt.bounty.bounties(3).is_none());
    assert_eq!(rt.council_budget, 60);
}

#[test]
fn funded_bounty_cannot_be_canceled_or_vetoed_until_withdrawn() {
    let mut rt = TestRuntime::new();
    rt.increase_total_balance_issuance_using_account_id(7, 500);
    let params = BountyParameters { max_amount: 1000, ..default_params() };
    assert_eq!(rt.create_bounty(RawOrigin::Root, params), Ok(()));
    assert!(!rt.bounty.bounty_funding_started(1));
    assert_eq!(rt.fund_bounty(RawOrigin::Signed(7), 3, 1, 100), Ok(()));
    assert!(rt.bounty.bounty_funding_started(1));
    assert_eq!(rt.bounty.funding_by_bounty_by_member(1, 3), 100);
    assert_eq!(rt.veto_bounty(RawOrigin::Root, 1), err(BountyError::InvalidBountyStage));
    assert_eq!(
        rt.cancel_bounty(RawOrigin::Root, BountyCreator::Council, 1),
        err(BountyError::InvalidBountyStage)
    );
    assert_eq!(rt.withdraw_member_funding(RawOrigin::Signed(7), 3, 1), Ok(()));
    assert!(!rt.bounty.bounty_funding_started(1));
    assert_eq!(rt.bounty.funding_by_bounty_by_member(1, 3), 0);
    assert_eq!(rt.bounty.bounties(1).unwrap().total_funding, 0);
    assert_eq!(rt.veto_bounty(RawOrigin::Root, 1), Ok(()));
}

#[test]
fn withdraw_fails_for_non_funder() {
    let mut rt = TestRuntime::new();
    assert_eq!(rt.create_bounty(RawOrigin::Root, default_params()), Ok(()));
    assert_eq!(rt.withdraw_member_funding(RawOrigin::Signed(1), 1, 1), err(BountyError::NotBountyFunder));
}

#[test]
fn member_funding_accumulates() {
    let mut rt = TestRuntime::new();
    rt.increase_total_balance_issuance_using_account_id(1, 1000);
    let params = BountyParameters { max_amount: 1000, ..default_params() };
    assert_eq!(rt.create_bounty(RawOrigin::Root, params), Ok(()));
    assert_eq!(rt.fund_bounty(RawOrigin::Signed(1), 1, 1, 100), Ok(()));
    assert_eq!(rt.fund_bounty(RawOrigin::Signed(1), 1, 1, 250), Ok(()));
    assert_eq!(rt.bounty.funding_by_bounty_by_member(1, 1), 350);
    assert_eq!(rt.bounty.bounties(1).unwrap().total_funding, 350);
    assert_eq!(rt.bounty.bounties(1).unwrap().state, BountyMilestone::Created(0));
}

#[test]
fn council_budget_charge_saturates() {
    assert_eq!(BountyCreatorManager::remove_balance_from_council_budget(300, 100), 0);
    assert_eq!(BountyCreatorManager::remove_balance_from_council_budget(30, 100), 70);
    assert_eq!(
        BountyCreatorManager::Council.slash_balance(10, 20, 100),
        BalanceCharge::CouncilBudget { new_budget: 70 }
    );
    assert_eq!(
        BountyCreatorManager::Member(5, 9).slash_balance(10, 20, 100),
        BalanceCharge::Account { account: 5, amount: 30 }
    );
    assert!(BountyCreatorManager::check_council_budget(30, 30));
    assert!(!BountyCreatorManager::check_council_budget(31, 30));
}

#[test]
fn default_records() {
    let p = BountyParameters::default();
    assert_eq!(p.creator, BountyCreator::Council);
    assert_eq!(p.funding_period, None);
    let r = BountyRecord::default();
    assert_eq!(r.state, BountyMilestone::Created(0));
    assert_eq!(r.total_funding, 0);
}

#[test]
fn defaults_match_the_runtime() {
    assert_eq!(OracleType::default(), OracleType::Council);
    assert_eq!(BountyCreator::default(), BountyCreator::Council);
    assert_eq!(BountyMilestone::default(), BountyMilestone::Created(0));
    assert_eq!(AssuranceContractType::default(), AssuranceContractType::Open);
}

#[test]
fn reaching_max_funding_ends_the_funding_stage() {
    let mut rt = TestRuntime::new();
    rt.increase_total_balance_issuance_using_account_id(1, 1000);
    let params = BountyParameters { max_amount: 100, work_period: 10, ..default_params() };
    assert_eq!(rt.create_bounty(RawOrigin::Root, params), Ok(()));
    assert_eq!(rt.fund_bounty(RawOrigin::Signed(1), 1, 1, 100), Ok(()));
    let n = rt.events.len();
    assert_eq!(rt.events[n - 2], BountyEvent::BountyFunded(1, 1, 100));
    assert_eq!(rt.events[n - 1], BountyEvent::BountyMaxFundingReached(1));
    assert_eq!(rt.fund_bounty(RawOrigin::Signed(1), 1, 1, 1), err(BountyError::InvalidBountyStage));
    rt.run_to_block(10);
    assert_eq!(rt.fund_bounty(RawOrigin::Signed(1), 1, 1, 1), err(BountyError::InvalidBountyStage));
    assert_eq!(rt.usable_balance(1), 900);
}

#[test]
fn total_funding_is_creator_plus_members() {
    let mut rt = TestRuntime::new();
    rt.council_budget = 1000;
    rt.increase_total_balance_issuance_using_account_id(1, 1000);
    rt.increase_total_balance_issuance_using_account_id(2, 1000);
    let params = BountyParameters { creator_funding: 70, max_amount: 10_000, ..default_params() };
    assert_eq!(rt.create_bounty(RawOrigin::Root, params), Ok(()));
    assert_eq!(rt.fund_bounty(RawOrigin::Signed(1), 1, 1, 100), Ok(()));
    assert_eq!(rt.fund_bounty(RawOrigin::Signed(2), 2, 1, 30), Ok(()));
    assert_eq!(rt.fund_bounty(RawOrigin::Signed(1), 1, 1, 5), Ok(()));
    let members = rt.bounty.funding_by_bounty_by_member(1, 1) + rt.bounty.funding_by_bounty_by_member(1, 2);
    assert_eq!(members, 135);
    assert_eq!(rt.bounty.bounties(1).unwrap().total_funding, 70 + members);
    assert_eq!(rt.withdraw_member_funding(RawOrigin::Signed(2), 2, 1), Ok(()));
    assert_eq!(rt.bounty.bounties(1).unwrap().total_funding, 70 + 105);
}
