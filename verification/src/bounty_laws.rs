//! Properties of the bounty module that span its operations.
use vstd::prelude::*;
use crate::origin::{RawOrigin, DispatchError};
use crate::bounty::{
    BountyCreator, BountyCreatorManager, BountyError, BountyMilestone, BountyModuleView, BountyParametersView,
    BountyRecordView, BountyStage, after_cancel, after_create, after_fund, after_withdraw, bounty_stage,
    cancel_bounty_check, create_bounty_check, fund_bounty_check, funding_of, funding_started, reaches_max_funding,
    sat_add, veto_bounty_check, view_wf,
};

verus! {

/// A canceled (or vetoed) bounty is in the `Canceled` stage at every block.
pub proof fn lemma_canceled_stage_is_final(v: BountyModuleView, bounty_id: u64, now: u64)
    requires
        v.bounties.contains_key(bounty_id),
    ensures
        bounty_stage(after_cancel(v, bounty_id).bounties[bounty_id], now) == BountyStage::Canceled,
{
}

/// A canceled bounty can be neither funded, canceled nor vetoed again: each of these calls
/// fails with `InvalidBountyStage` once its origin checks pass.
pub proof fn lemma_canceled_bounty_is_closed(
    v: BountyModuleView,
    bounty_id: u64,
    member_id: u64,
    amount: u64,
    member_check: Result<u64, DispatchError>,
    account_balance: u64,
    creator: BountyCreator,
    origin: RawOrigin,
    now: u64,
)
    requires
        v.bounties.contains_key(bounty_id),
        v.bounties[bounty_id].state == BountyMilestone::Canceled,
    ensures
        fund_bounty_check(v, bounty_id, amount, member_check, account_balance, now) is Err,
        (member_check is Ok && account_balance >= amount) ==> fund_bounty_check(
            v,
            bounty_id,
            amount,
            member_check,
            account_balance,
            now,
        ) == Err::<u64, DispatchError>(DispatchError::Bounty(BountyError::InvalidBountyStage)),
        cancel_bounty_check(v, origin, creator, bounty_id, member_check, now) is Err,
        veto_bounty_check(v, origin, bounty_id, now) is Err,
        origin is Root ==> veto_bounty_check(v, origin, bounty_id, now) == Err::<(), DispatchError>(
            DispatchError::Bounty(BountyError::InvalidBountyStage),
        ),
{
}

/// Cancel and veto succeed only on a bounty in its funding stage that no member has funded.
pub proof fn lemma_cancel_only_unfunded(
    v: BountyModuleView,
    origin: RawOrigin,
    creator: BountyCreator,
    bounty_id: u64,
    member_check: Result<u64, DispatchError>,
    now: u64,
)
    ensures
        cancel_bounty_check(v, origin, creator, bounty_id, member_check, now) is Ok ==> {
            &&& bounty_stage(v.bounties[bounty_id], now) == BountyStage::Funding
            &&& !funding_started(v, bounty_id)
            &&& v.bounties[bounty_id].creation_params.creator == creator
        },
        veto_bounty_check(v, origin, bounty_id, now) is Ok ==> {
            &&& origin is Root
            &&& bounty_stage(v.bounties[bounty_id], now) == BountyStage::Funding
            &&& !funding_started(v, bounty_id)
        },
{
}

/// A new bounty gets the next id, which no bounty had before; the storage invariant is kept,
/// and the new bounty starts in its funding stage at its creation block.
pub proof fn lemma_create_assigns_fresh_id(v: BountyModuleView, p: BountyParametersView, now: u64)
    requires
        view_wf(v),
        v.bounty_count < u32::MAX,
    ensures
        !v.bounties.contains_key((v.bounty_count + 1) as u64),
        view_wf(after_create(v, p, now)),
        after_create(v, p, now).bounty_count == v.bounty_count + 1,
        after_create(v, p, now).bounties.contains_key((v.bounty_count + 1) as u64),
        bounty_stage(after_create(v, p, now).bounties[(v.bounty_count + 1) as u64], now)
            == BountyStage::Funding,
        !funding_started(after_create(v, p, now), (v.bounty_count + 1) as u64),
{
    let w = after_create(v, p, now);
    assert forall|k: (u64, u64)| #[trigger] w.funding.contains_key(k) implies w.bounties.contains_key(
        k.0,
    ) by {
        assert(v.bounties.contains_key(k.0));
    }
}

/// Funding a bounty adds the amount to both the bounty's total and the member's funding
/// (saturating), and keeps the storage invariant.
pub proof fn lemma_fund_accumulates(
    v: BountyModuleView,
    member_id: u64,
    bounty_id: u64,
    amount: u64,
    now: u64,
)
    requires
        view_wf(v),
        v.bounties.contains_key(bounty_id),
    ensures
        view_wf(after_fund(v, member_id, bounty_id, amount, now)),
        after_fund(v, member_id, bounty_id, amount, now).bounties[bounty_id].total_funding == sat_add(
            v.bounties[bounty_id].total_funding,
            amount,
        ),
        funding_of(after_fund(v, member_id, bounty_id, amount, now), bounty_id, member_id)
            == sat_add(funding_of(v, bounty_id, member_id), amount),
        funding_started(after_fund(v, member_id, bounty_id, amount, now), bounty_id),
{
    let w = after_fund(v, member_id, bounty_id, amount, now);
    assert(w.funding.contains_key((bounty_id, member_id)));
    assert forall|id: u64| #[trigger] w.bounties.contains_key(id) implies 1 <= id <= w.bounty_count by {
        assert(v.bounties.contains_key(id));
    }
    assert forall|k: (u64, u64)| #[trigger] w.funding.contains_key(k) implies w.bounties.contains_key(
        k.0,
    ) by {
        if k != (bounty_id, member_id) {
            assert(v.funding.contains_key(k));
        }
    }
}

/// A member who had not funded a bounty, funds it and then withdraws, gets back exactly the
/// amount paid in; the bounty's total funding and the funding records return to what they
/// were (when the total does not saturate).
pub proof fn lemma_fund_then_withdraw_restores(
    v: BountyModuleView,
    member_id: u64,
    bounty_id: u64,
    amount: u64,
    now: u64,
)
    requires
        view_wf(v),
        v.bounties.contains_key(bounty_id),
        !v.funding.contains_key((bounty_id, member_id)),
        v.bounties[bounty_id].total_funding + amount <= u64::MAX,
    ensures
        ({
            let funded = after_fund(v, member_id, bounty_id, amount, now);
            let back = after_withdraw(funded, member_id, bounty_id);
            &&& funded.funding[(bounty_id, member_id)] == amount
            &&& back.funding == v.funding
            &&& back.bounties[bounty_id].total_funding == v.bounties[bounty_id].total_funding
            &&& back.bounties[bounty_id].creation_params == v.bounties[bounty_id].creation_params
            &&& back.bounty_count == v.bounty_count
        }),
{
    let funded = after_fund(v, member_id, bounty_id, amount, now);
    let back = after_withdraw(funded, member_id, bounty_id);
    assert(back.funding =~= v.funding);
}

/// Once a bounty reaches its maximum funding amount its funding stage is over for good: at
/// every later block it is in the work submission or withdrawal stage.
pub proof fn lemma_max_funding_ends_funding(
    v: BountyModuleView,
    member_id: u64,
    bounty_id: u64,
    amount: u64,
    now: u64,
    later: u64,
)
    requires
        v.bounties.contains_key(bounty_id),
        reaches_max_funding(v, bounty_id, amount),
    ensures
        after_fund(v, member_id, bounty_id, amount, now).bounties[bounty_id].state
            == BountyMilestone::MaxFundingReached(now),
        bounty_stage(after_fund(v, member_id, bounty_id, amount, now).bounties[bounty_id], later)
            != BountyStage::Funding,
{
}

/// Withdrawing funding keeps the storage invariant.
pub proof fn lemma_withdraw_keeps_invariant(v: BountyModuleView, member_id: u64, bounty_id: u64)
    requires
        view_wf(v),
        v.funding.contains_key((bounty_id, member_id)),
    ensures
        view_wf(after_withdraw(v, member_id, bounty_id)),
        !after_withdraw(v, member_id, bounty_id).funding.contains_key((bounty_id, member_id)),
{
    let w = after_withdraw(v, member_id, bounty_id);
    assert forall|id: u64| #[trigger] w.bounties.contains_key(id) implies 1 <= id <= w.bounty_count by {
        assert(v.bounties.contains_key(id));
    }
    assert forall|k: (u64, u64)| #[trigger] w.funding.contains_key(k) implies w.bounties.contains_key(
        k.0,
    ) by {
        assert(v.funding.contains_key(k));
    }
}

/// Without a funding period, funding is perpetual: a created bounty stays in its funding
/// stage at every block until its maximum funding amount is reached.
pub proof fn lemma_perpetual_funding(b: BountyRecordView, created_at: u64, now: u64)
    requires
        b.state == BountyMilestone::Created(created_at),
        b.creation_params.funding_period is None,
    ensures
        bounty_stage(b, now) == BountyStage::Funding,
{
}

/// With a funding period, a created bounty is in its funding stage exactly up to the block
/// where the period ends; afterwards it is open for work when the minimum amount was
/// gathered, and open for withdrawal otherwise.
pub proof fn lemma_funding_period_ends(b: BountyRecordView, created_at: u64, period: u64, now: u64)
    requires
        b.state == BountyMilestone::Created(created_at),
        b.creation_params.funding_period == Some(period),
    ensures
        (bounty_stage(b, now) == BountyStage::Funding) <==> now <= created_at + period,
        now > created_at + period ==> (bounty_stage(b, now) == BountyStage::WorkSubmission
            <==> b.total_funding >= b.creation_params.min_amount),
{
}

/// After the maximum funding amount was reached at block `f`, work can be submitted until the
/// work period ends (its last block included); afterwards the funds can be withdrawn.
pub proof fn lemma_work_period(b: BountyRecordView, f: u64, now: u64)
    requires
        b.state == BountyMilestone::MaxFundingReached(f),
    ensures
        (bounty_stage(b, now) == BountyStage::WorkSubmission) <==> now <= f + b.creation_params.work_period,
        now > f + b.creation_params.work_period ==> bounty_stage(b, now) == BountyStage::Withdrawal,
{
}

/// A storage change made by a successful call of the bounty module: creation (with the
/// parameters and the block), cancel or veto (the bounty id), member funding (member,
/// bounty, amount, block) and funding withdrawal (member, bounty).
pub enum BountyStep {
    Create(BountyParametersView, u64),
    Cancel(u64),
    Fund(u64, u64, u64, u64),
    Withdraw(u64, u64),
}

/// The storage after one step, as the calls' contracts give it.
pub open spec fn apply_step(v: BountyModuleView, step: BountyStep) -> BountyModuleView {
    match step {
        BountyStep::Create(p, now) => after_create(v, p, now),
        BountyStep::Cancel(bounty_id) => after_cancel(v, bounty_id),
        BountyStep::Fund(member_id, bounty_id, amount, now) => after_fund(v, member_id, bounty_id, amount, now),
        BountyStep::Withdraw(member_id, bounty_id) => after_withdraw(v, member_id, bounty_id),
    }
}

/// The storage after the steps, in order.
pub open spec fn run_steps(v: BountyModuleView, steps: Seq<BountyStep>) -> BountyModuleView
    decreases steps.len(),
{
    if steps.len() == 0 {
        v
    } else {
        apply_step(run_steps(v, steps.drop_last()), steps.last())
    }
}

/// The member funded the bounty in these steps and did not withdraw that funding afterwards.
pub open spec fn funding_outstanding(steps: Seq<BountyStep>, bounty_id: u64, member_id: u64) -> bool
    decreases steps.len(),
{
    if steps.len() == 0 {
        false
    } else {
        match steps.last() {
            BountyStep::Fund(m, b, _, _) if b == bounty_id && m == member_id => true,
            BountyStep::Withdraw(m, b) if b == bounty_id && m == member_id => false,
            _ => funding_outstanding(steps.drop_last(), bounty_id, member_id),
        }
    }
}

/// Empty bounty storage, as `BountyModule::new` gives it.
pub open spec fn empty_bounty_storage() -> BountyModuleView {
    BountyModuleView { bounties: Map::empty(), funding: Map::empty(), bounty_count: 0 }
}

/// From empty storage, a member's funding record of a bounty exists exactly when the member
/// funded it and has not withdrawn since.
pub proof fn lemma_funding_record_trace(steps: Seq<BountyStep>, bounty_id: u64, member_id: u64)
    ensures
        run_steps(empty_bounty_storage(), steps).funding.contains_key((bounty_id, member_id))
            <==> funding_outstanding(steps, bounty_id, member_id),
    decreases steps.len(),
{
    if steps.len() > 0 {
        lemma_funding_record_trace(steps.drop_last(), bounty_id, member_id);
    }
}

/// From empty storage, through any sequence of successful calls, the funding of a bounty has
/// started exactly when some member funded it and has not withdrawn that funding since; in
/// particular it has not started right after the bounty's creation.
pub proof fn lemma_funding_started_trace(steps: Seq<BountyStep>, bounty_id: u64)
    ensures
        funding_started(run_steps(empty_bounty_storage(), steps), bounty_id) <==> exists|m: u64|
            funding_outstanding(steps, bounty_id, m),
{
    let v = run_steps(empty_bounty_storage(), steps);
    if funding_started(v, bounty_id) {
        let m = choose|m: u64| v.funding.contains_key((bounty_id, m));
        lemma_funding_record_trace(steps, bounty_id, m);
    }
    if exists|m: u64| funding_outstanding(steps, bounty_id, m) {
        let m = choose|m: u64| funding_outstanding(steps, bounty_id, m);
        lemma_funding_record_trace(steps, bounty_id, m);
        assert(v.funding.contains_key((bounty_id, m)));
    }
}

/// A member's recorded funding of a bounty in a funding map (zero when there is none).
pub open spec fn funding_value(funding: Map<(u64, u64), u64>, bounty_id: u64, member_id: u64) -> int {
    if funding.contains_key((bounty_id, member_id)) {
        funding[(bounty_id, member_id)] as int
    } else {
        0
    }
}

/// The recorded funding of a bounty by the members with ids below `n`.
pub open spec fn funding_sum_below(funding: Map<(u64, u64), u64>, bounty_id: u64, n: nat) -> int
    decreases n,
{
    if n == 0 {
        0
    } else {
        funding_sum_below(funding, bounty_id, (n - 1) as nat) + funding_value(funding, bounty_id, (n - 1) as u64)
    }
}

/// The number of member ids.
pub open spec fn member_id_count() -> nat {
    0x1_0000_0000_0000_0000nat
}

/// The recorded funding of a bounty by all its members.
pub open spec fn members_funding(v: BountyModuleView, bounty_id: u64) -> int {
    funding_sum_below(v.funding, bounty_id, member_id_count())
}

/// Every bounty's total funding is its creator's funding plus its members' recorded funding.
pub open spec fn funding_accounted(v: BountyModuleView) -> bool {
    forall|b: u64| #[trigger] v.bounties.contains_key(b) ==> v.bounties[b].total_funding as int
        == v.bounties[b].creation_params.creator_funding + members_funding(v, b)
}

/// Changing a funding map at one member changes the bounty's sum by the change at that member.
pub proof fn lemma_funding_sum_change(
    f: Map<(u64, u64), u64>,
    g: Map<(u64, u64), u64>,
    bounty_id: u64,
    member_id: u64,
    n: nat,
)
    requires
        n <= member_id_count(),
        forall|x: u64| x != member_id ==> #[trigger] funding_value(g, bounty_id, x) == funding_value(
            f,
            bounty_id,
            x,
        ),
    ensures
        funding_sum_below(g, bounty_id, n) == funding_sum_below(f, bounty_id, n) + if member_id < n {
            funding_value(g, bounty_id, member_id) - funding_value(f, bounty_id, member_id)
        } else {
            0
        },
    decreases n,
{
    if n > 0 {
        lemma_funding_sum_change(f, g, bounty_id, member_id, (n - 1) as nat);
        let x = (n - 1) as u64;
        if x != member_id {
            assert(funding_value(g, bounty_id, x) == funding_value(f, bounty_id, x));
        }
    }
}

/// A bounty no member funded has a zero sum.
pub proof fn lemma_funding_sum_zero(f: Map<(u64, u64), u64>, bounty_id: u64, n: nat)
    requires
        n <= member_id_count(),
        forall|x: u64| #[trigger] funding_value(f, bounty_id, x) == 0,
    ensures
        funding_sum_below(f, bounty_id, n) == 0,
    decreases n,
{
    if n > 0 {
        lemma_funding_sum_zero(f, bounty_id, (n - 1) as nat);
        assert(funding_value(f, bounty_id, (n - 1) as u64) == 0);
    }
}

/// Each member's recorded funding is at most the bounty's sum.
pub proof fn lemma_funding_term_bounded(f: Map<(u64, u64), u64>, bounty_id: u64, member_id: u64, n: nat)
    requires
        n <= member_id_count(),
    ensures
        0 <= funding_sum_below(f, bounty_id, n),
        member_id < n ==> funding_value(f, bounty_id, member_id) <= funding_sum_below(f, bounty_id, n),
    decreases n,
{
    if n > 0 {
        lemma_funding_term_bounded(f, bounty_id, member_id, (n - 1) as nat);
    }
}

/// The structural conditions under which a call's storage change happens, and nothing
/// saturates: a creation needs room in the bounty counter, a cancel or veto an existing
/// bounty, a funding an existing bounty whose total does not overflow, and a withdrawal a
/// recorded funding.
pub open spec fn step_ok(v: BountyModuleView, step: BountyStep) -> bool {
    match step {
        BountyStep::Create(_, _) => v.bounty_count < u32::MAX,
        BountyStep::Cancel(bounty_id) => v.bounties.contains_key(bounty_id),
        BountyStep::Fund(_, bounty_id, amount, _) => v.bounties.contains_key(bounty_id)
            && v.bounties[bounty_id].total_funding + amount <= u64::MAX,
        BountyStep::Withdraw(member_id, bounty_id) => v.funding.contains_key((bounty_id, member_id)),
    }
}

/// Every step of the sequence meets its conditions in the storage it is applied to.
pub open spec fn steps_ok(v: BountyModuleView, steps: Seq<BountyStep>) -> bool
    decreases steps.len(),
{
    if steps.len() == 0 {
        true
    } else {
        steps_ok(v, steps.drop_last()) && step_ok(run_steps(v, steps.drop_last()), steps.last())
    }
}

/// Each successful call, while nothing saturates, keeps every bounty's total funding equal to
/// its creator's funding plus its members' recorded funding, and keeps the storage invariant.
pub proof fn lemma_total_funding_step(v: BountyModuleView, step: BountyStep)
    requires
        view_wf(v),
        funding_accounted(v),
        step_ok(v, step),
    ensures
        view_wf(apply_step(v, step)),
        funding_accounted(apply_step(v, step)),
{
    let w = apply_step(v, step);
    match step {
        BountyStep::Create(p, now) => {
            lemma_create_assigns_fresh_id(v, p, now);
            let n = (v.bounty_count + 1) as u64;
            assert forall|x: u64| #[trigger] funding_value(w.funding, n, x) == 0 by {
                if w.funding.contains_key((n, x)) {
                    assert(v.bounties.contains_key(n));
                }
            }
            lemma_funding_sum_zero(w.funding, n, member_id_count());
            assert forall|b: u64| #[trigger] w.bounties.contains_key(b) implies w.bounties[b].total_funding as int
                == w.bounties[b].creation_params.creator_funding + members_funding(w, b) by {
                if b != n {
                    assert(v.bounties.contains_key(b));
                }
            }
        },
        BountyStep::Cancel(bounty_id) => {
            assert forall|b: u64| #[trigger] w.bounties.contains_key(b) implies 1 <= b <= w.bounty_count by {
                assert(v.bounties.contains_key(b));
            }
            assert forall|b: u64| #[trigger] w.bounties.contains_key(b) implies w.bounties[b].total_funding as int
                == w.bounties[b].creation_params.creator_funding + members_funding(w, b) by {
                assert(v.bounties.contains_key(b));
            }
        },
        BountyStep::Fund(member_id, bounty_id, amount, now) => {
            lemma_fund_accumulates(v, member_id, bounty_id, amount, now);
            lemma_funding_term_bounded(v.funding, bounty_id, member_id, member_id_count());
            assert(funding_of(v, bounty_id, member_id) == funding_value(v.funding, bounty_id, member_id));
            assert forall|b: u64| #[trigger] w.bounties.contains_key(b) implies w.bounties[b].total_funding as int
                == w.bounties[b].creation_params.creator_funding + members_funding(w, b) by {
                assert(v.bounties.contains_key(b));
                assert forall|x: u64| x != member_id implies #[trigger] funding_value(w.funding, b, x)
                    == funding_value(v.funding, b, x) by {}
                lemma_funding_sum_change(v.funding, w.funding, b, member_id, member_id_count());
                if b == bounty_id {
                    assert(funding_value(w.funding, b, member_id) == funding_value(v.funding, b, member_id)
                        + amount);
                } else {
                    assert(funding_value(w.funding, b, member_id) == funding_value(v.funding, b, member_id));
                }
            }
        },
        BountyStep::Withdraw(member_id, bounty_id) => {
            lemma_withdraw_keeps_invariant(v, member_id, bounty_id);
            assert(v.bounties.contains_key(bounty_id));
            lemma_funding_term_bounded(v.funding, bounty_id, member_id, member_id_count());
            assert forall|b: u64| #[trigger] w.bounties.contains_key(b) implies w.bounties[b].total_funding as int
                == w.bounties[b].creation_params.creator_funding + members_funding(w, b) by {
                assert(v.bounties.contains_key(b));
                assert forall|x: u64| x != member_id implies #[trigger] funding_value(w.funding, b, x)
                    == funding_value(v.funding, b, x) by {}
                lemma_funding_sum_change(v.funding, w.funding, b, member_id, member_id_count());
            }
        },
    }
}

/// From empty storage, through any sequence of successful calls in which nothing saturates,
/// every bounty's total funding is its creator's funding plus its members' recorded funding.
pub proof fn lemma_total_funding_trace(steps: Seq<BountyStep>)
    requires
        steps_ok(empty_bounty_storage(), steps),
    ensures
        view_wf(run_steps(empty_bounty_storage(), steps)),
        funding_accounted(run_steps(empty_bounty_storage(), steps)),
    decreases steps.len(),
{
    if steps.len() > 0 {
        lemma_total_funding_trace(steps.drop_last());
        lemma_total_funding_step(run_steps(empty_bounty_storage(), steps.drop_last()), steps.last());
    }
}

/// A successful funding adds the amount to the bounty's total (saturating at the largest
/// balance) and ends the funding exactly when the old total plus the amount reaches the
/// maximum amount: the bounty then records the block of that funding, and any later funding
/// of it, by any member at any block, is refused with `InvalidBountyStage`. Below the maximum
/// the bounty keeps its milestone.
pub proof fn lemma_fund_max_funding_exactly(
    v: BountyModuleView,
    member_id: u64,
    bounty_id: u64,
    amount: u64,
    member_check: Result<u64, DispatchError>,
    account_balance: u64,
    now: u64,
    next_amount: u64,
    next_member_check: Result<u64, DispatchError>,
    next_balance: u64,
    later: u64,
)
    requires
        fund_bounty_check(v, bounty_id, amount, member_check, account_balance, now) is Ok,
    ensures
        ({
            let before = v.bounties[bounty_id];
            let after = after_fund(v, member_id, bounty_id, amount, now).bounties[bounty_id];
            &&& after.total_funding as int == if before.total_funding + amount > u64::MAX {
                u64::MAX as int
            } else {
                before.total_funding + amount
            }
            &&& (after.state == BountyMilestone::MaxFundingReached(now)) <==> before.total_funding
                + amount >= before.creation_params.max_amount
            &&& before.total_funding + amount < before.creation_params.max_amount ==> after.state
                == before.state
        }),
        ({
            let before = v.bounties[bounty_id];
            (before.total_funding + amount >= before.creation_params.max_amount
                && next_member_check is Ok && next_balance >= next_amount) ==> fund_bounty_check(
                after_fund(v, member_id, bounty_id, amount, now),
                bounty_id,
                next_amount,
                next_member_check,
                next_balance,
                later,
            ) == Err::<u64, DispatchError>(DispatchError::Bounty(BountyError::InvalidBountyStage))
        }),
{
    let before = v.bounties[bounty_id];
    assert(before.state is Created);
}

/// Creating a bounty succeeds exactly when the creator may create it (root for the council,
/// a passing member check for a member), the balance it draws from (the council budget, or
/// the member's usable balance) covers the cherry plus the creator's funding, and the
/// parameters are valid. With the creator accepted, a balance below the cherry plus the
/// creator's funding is refused with `InsufficientBalanceForBounty`.
pub proof fn lemma_create_requires_full_balance(
    origin: RawOrigin,
    p: BountyParametersView,
    member_check: Result<u64, DispatchError>,
    council_budget: u64,
    account_balance: u64,
)
    ensures
        create_bounty_check(origin, p, member_check, council_budget, account_balance) is Ok <==> ({
            &&& match p.creator {
                BountyCreator::Council => origin is Root && council_budget >= p.cherry
                    + p.creator_funding,
                BountyCreator::Member(_) => member_check is Ok && account_balance >= p.cherry
                    + p.creator_funding,
            }
            &&& p.work_period != 0
            &&& p.judging_period != 0
            &&& p.min_amount <= p.max_amount
        }),
        (p.creator is Council && origin is Root && council_budget < p.cherry + p.creator_funding)
            ==> create_bounty_check(origin, p, member_check, council_budget, account_balance)
            == Err::<BountyCreatorManager, DispatchError>(
            DispatchError::Bounty(BountyError::InsufficientBalanceForBounty),
        ),
        (p.creator is Member && member_check is Ok && account_balance < p.cherry + p.creator_funding)
            ==> create_bounty_check(origin, p, member_check, council_budget, account_balance)
            == Err::<BountyCreatorManager, DispatchError>(
            DispatchError::Bounty(BountyError::InsufficientBalanceForBounty),
        ),
{
}

/// Cancel succeeds whenever the origin stands for the bounty's creator (root for the
/// council, a passing member check for a member), the bounty is in its funding stage and no
/// member has a funding record for it, whatever its total funding (the creator's own
/// funding included); the bounty is then canceled with its total funding and the funding
/// records unchanged. Veto succeeds on the same bounties when the origin is root.
pub proof fn lemma_cancel_complete(
    v: BountyModuleView,
    origin: RawOrigin,
    creator: BountyCreator,
    bounty_id: u64,
    member_check: Result<u64, DispatchError>,
    now: u64,
)
    requires
        match creator {
            BountyCreator::Council => origin is Root,
            BountyCreator::Member(_) => member_check is Ok,
        },
        v.bounties.contains_key(bounty_id),
        v.bounties[bounty_id].creation_params.creator == creator,
        bounty_stage(v.bounties[bounty_id], now) == BountyStage::Funding,
        forall|m: u64| !v.funding.contains_key((bounty_id, m)),
    ensures
        cancel_bounty_check(v, origin, creator, bounty_id, member_check, now) is Ok,
        origin is Root ==> veto_bounty_check(v, origin, bounty_id, now) is Ok,
        after_cancel(v, bounty_id).bounties[bounty_id].state == BountyMilestone::Canceled,
        after_cancel(v, bounty_id).bounties[bounty_id].total_funding == v.bounties[bounty_id].total_funding,
        after_cancel(v, bounty_id).funding == v.funding,
{
}

} // verus!
