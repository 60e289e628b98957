//! Memberships: the stable identifiers under which actors occupy roles. A membership has
//! a root and a controller account, a unique handle (kept as its hash), an invitation
//! count and a set of staking accounts, each confirmed or not.
//!
//! The module's storage is the state of [`MembershipModule`]. What the module reads from
//! the rest of the runtime (an account's usable balance, the working group's verdicts)
//! comes in as arguments; what it asks of the rest of the runtime (slashing the fee,
//! paying the referral reward, depositing events) comes back in the result.
use vstd::prelude::*;
use std::collections::BTreeMap;
use crate::origin::{RawOrigin, DispatchError, ensure_root, ensure_signed};
use crate::handle_hash::{blake2_256_of, hash_handle};

verus! {

broadcast use vstd::std_specs::btree::group_btree_axioms, vstd::laws_cmp::group_laws_cmp;

/// Membership module errors.
#[derive(Clone, Copy, Debug, PartialEq, Eq, Structural)]
pub enum MembershipError {
    /// Not enough balance to buy membership.
    NotEnoughBalanceToBuyMembership,
    /// Controller account required.
    ControllerAccountRequired,
    /// Root account required.
    RootAccountRequired,
    /// Invalid origin.
    UnsignedOrigin,
    /// Member profile not found (invalid member id).
    MemberProfileNotFound,
    /// Handle already registered.
    HandleAlreadyRegistered,
    /// Handle must be provided during registration.
    HandleMustBeProvidedDuringRegistration,
    /// Cannot find a membership for a provided referrer id.
    ReferrerIsNotMember,
    /// Should be a member to receive invites.
    CannotTransferInvitesForNotMember,
    /// Not enough invites to perform an operation.
    NotEnoughInvites,
    /// Membership working group leader is not set.
    WorkingGroupLeaderNotSet,
    /// Staking account for membership exists.
    StakingAccountExists,
    /// Staking account for membership doesn't exist.
    StakingAccountDoesntExist,
    /// Cannot add more staking account id.
    MaximumStakingAccountNumberExceeded,
}

/// Invitations a member gets when buying a membership, by default.
pub const DEFAULT_MEMBER_INVITES_COUNT: u32 = 5;

/// Stored information about a registered user.
#[derive(Debug)]
pub struct MembershipObject {
    /// The hash of the handle chosen by member.
    pub handle_hash: Vec<u8>,
    /// Member's root account id. Only the root account is permitted to set a new root
    /// account and update the controller account.
    pub root_account: u64,
    /// Member's controller account id. This account is intended to be used by a member to
    /// act under their identity in other modules.
    pub controller_account: u64,
    /// An indicator that reflects whether the implied real world identity in the profile
    /// corresponds to the true actor behind the membership.
    pub verified: bool,
    /// Defines how many invitations this member has.
    pub invites: u32,
    /// Staking account IDs bound to the membership, with their confirmation flags.
    pub staking_account_ids: BTreeMap<u64, bool>,
}

/// Mathematical value of a [`MembershipObject`].
pub struct MembershipView {
    pub handle_hash: Seq<u8>,
    pub root_account: u64,
    pub controller_account: u64,
    pub verified: bool,
    pub invites: u32,
    pub staking_account_ids: Map<u64, bool>,
}

impl View for MembershipObject {
    type V = MembershipView;

    open spec fn view(&self) -> MembershipView {
        MembershipView {
            handle_hash: self.handle_hash@,
            root_account: self.root_account,
            controller_account: self.controller_account,
            verified: self.verified,
            invites: self.invites,
            staking_account_ids: self.staking_account_ids@,
        }
    }
}

/// A membership view with other staking accounts.
pub open spec fn with_staking(m: MembershipView, staking: Map<u64, bool>) -> MembershipView {
    MembershipView {
        handle_hash: m.handle_hash,
        root_account: m.root_account,
        controller_account: m.controller_account,
        verified: m.verified,
        invites: m.invites,
        staking_account_ids: staking,
    }
}

/// The staking account is bound to the membership and confirmed.
pub open spec fn staking_confirmed(m: MembershipView, staking_account_id: u64) -> bool {
    m.staking_account_ids.contains_key(staking_account_id) && m.staking_account_ids[staking_account_id]
}

impl Default for MembershipObject {
    fn default() -> (r: Self)
        ensures
            r@.handle_hash == Seq::<u8>::empty(),
            r@.root_account == 0,
            r@.controller_account == 0,
            !r@.verified,
            r@.invites == 0,
            r@.staking_account_ids == Map::<u64, bool>::empty(),
    {
        let r = MembershipObject {
            handle_hash: Vec::new(),
            root_account: 0,
            controller_account: 0,
            verified: false,
            invites: 0,
            staking_account_ids: BTreeMap::new(),
        };
        assert(r@.handle_hash =~= Seq::<u8>::empty());
        r
    }
}

impl MembershipObject {
    /// A copy of this membership.
    pub fn duplicate(&self) -> (r: Self)
        ensures
            r@ == self@,
    {
        let h = self.handle_hash.clone();
        assert(h@ =~= self.handle_hash@);
        MembershipObject {
            handle_hash: h,
            root_account: self.root_account,
            controller_account: self.controller_account,
            verified: self.verified,
            invites: self.invites,
            staking_account_ids: self.staking_account_ids.clone(),
        }
    }

    /// Add staking account id to the membership. Set its confirmation flag to false by default.
    pub fn add_staking_account_candidate(&mut self, staking_account_id: u64)
        ensures
            final(self)@ == with_staking(
                old(self)@,
                old(self)@.staking_account_ids.insert(staking_account_id, false),
            ),
    {
        self.staking_account_ids.insert(staking_account_id, false);
    }

    /// Remove staking account id from the membership.
    pub fn remove_staking_account(&mut self, staking_account_id: u64)
        ensures
            final(self)@ == with_staking(
                old(self)@,
                old(self)@.staking_account_ids.remove(staking_account_id),
            ),
    {
        self.staking_account_ids.remove(&staking_account_id);
    }

    /// Sets staking account confirmation flag as true. No effect on non-existing account.
    pub fn confirm_staking_account(&mut self, staking_account_id: u64)
        ensures
            old(self)@.staking_account_ids.contains_key(staking_account_id) ==> final(self)@
                == with_staking(
                old(self)@,
                old(self)@.staking_account_ids.insert(staking_account_id, true),
            ),
            !old(self)@.staking_account_ids.contains_key(staking_account_id) ==> final(self)@
                == old(self)@,
    {
        if self.staking_account_exists(&staking_account_id) {
            self.staking_account_ids.insert(staking_account_id, true);
        }
    }

    /// Verifies existence of the staking account.
    pub fn staking_account_exists(&self, staking_account_id: &u64) -> (res: bool)
        ensures
            res == self@.staking_account_ids.contains_key(*staking_account_id),
    {
        self.staking_account_ids.contains_key(staking_account_id)
    }

    /// Verifies confirmation of the staking account.
    pub fn staking_account_confirmed(&self, staking_account_id: &u64) -> (res: bool)
        ensures
            res == staking_confirmed(self@, *staking_account_id),
    {
        match self.staking_account_ids.get(staking_account_id) {
            Some(confirmed) => *confirmed,
            None => false,
        }
    }

    /// Returns current staking account number.
    pub fn staking_account_count(&self) -> (res: u32)
        ensures
            res == self@.staking_account_ids.len() as u32,
    {
        self.staking_account_ids.len() as u32
    }
}

/// Byte-wise equality of two byte strings.
pub fn bytes_equal(a: &Vec<u8>, b: &Vec<u8>) -> (res: bool)
    ensures
        res == (a@ == b@),
{
    if a.len() != b.len() {
        return false;
    }
    let mut i: usize = 0;
    while i < a.len()
        invariant
            a.len() == b.len(),
            i <= a.len(),
            forall|j: int| 0 <= j < i ==> a@[j] == b@[j],
        decreases a.len() - i,
    {
        if a[i] != b[i] {
            return false;
        }
        i = i + 1;
    }
    assert(a@ =~= b@);
    true
}

/// The keys of a handle table are pairwise different.
pub open spec fn handle_keys_unique(s: Seq<(Vec<u8>, u64)>) -> bool {
    forall|i: int, j: int| 0 <= i < s.len() && 0 <= j < s.len() && i != j ==> #[trigger] s[i].0@ != #[trigger] s[j].0@
}

/// The map from handle hashes to member ids that a handle table stands for.
pub open spec fn handles_map(s: Seq<(Vec<u8>, u64)>) -> Map<Seq<u8>, u64> {
    Map::new(
        |h: Seq<u8>| exists|i: int| 0 <= i < s.len() && #[trigger] s[i].0@ == h,
        |h: Seq<u8>| s[choose|i: int| 0 <= i < s.len() && #[trigger] s[i].0@ == h].1,
    )
}

/// An entry of a table with unique keys is what the map holds for its key.
pub proof fn lemma_handles_map_entry(s: Seq<(Vec<u8>, u64)>, i: int)
    requires
        handle_keys_unique(s),
        0 <= i < s.len(),
    ensures
        handles_map(s).contains_key(s[i].0@),
        handles_map(s)[s[i].0@] == s[i].1,
{
    let h = s[i].0@;
    assert(0 <= i < s.len() && s[i].0@ == h);
    let j = choose|j: int| 0 <= j < s.len() && #[trigger] s[j].0@ == h;
    assert(j == i);
}

/// The membership module's settings from the runtime configuration.
#[derive(Clone, Copy, Debug, PartialEq, Eq, Structural)]
pub struct MembershipConfig {
    /// Defines the default membership fee.
    pub default_membership_price: u64,
    /// Defines the default balance for the invited member.
    pub default_initial_invitation_balance: u64,
    /// Defines the maximum staking account number.
    pub staking_account_number_limit: u32,
}

/// Events of the membership module.
#[derive(Clone, Copy, Debug, PartialEq, Eq, Structural)]
pub enum MembershipEvent {
    MemberRegistered(u64),
    MemberProfileUpdated(u64),
    MemberAccountsUpdated(u64),
    MemberVerificationStatusUpdated(u64, bool),
    ReferralCutUpdated(u64),
    InvitesTransferred(u64, u64, u32),
    MembershipPriceUpdated(u64),
    InitialInvitationBalanceUpdated(u64),
    LeaderInvitationQuotaUpdated(u32),
    InitialInvitationCountUpdated(u32),
    StakingAccountAdded(u64, u64),
    StakingAccountRemoved(u64, u64),
    StakingAccountConfirmed(u64, u64),
}

/// An account index seen through the views of its member id lists.
pub open spec fn ids_view(m: Map<u64, Vec<u64>>) -> Map<u64, Seq<u64>> {
    m.map_values(|v: Vec<u64>| v@)
}

/// The predicate "is not `id`".
pub open spec fn not_id(id: u64) -> spec_fn(u64) -> bool {
    |x: u64| x != id
}

/// The membership module's storage.
pub struct MembershipModule {
    next_member_id: u64,
    membership_by_id: BTreeMap<u64, MembershipObject>,
    member_ids_by_root_account_id: BTreeMap<u64, Vec<u64>>,
    member_ids_by_controller_account_id: BTreeMap<u64, Vec<u64>>,
    member_id_by_handle_hash: Vec<(Vec<u8>, u64)>,
    referral_cut: u64,
    membership_price: u64,
    initial_invitation_count: u32,
    initial_invitation_balance: u64,
    staking_account_number_limit: u32,
}

/// Mathematical value of the membership module's storage.
pub struct MembershipModuleView {
    /// Member id to assign to the next member; also the number of members created.
    pub next_member_id: u64,
    /// Memberships by member id.
    pub memberships: Map<u64, MembershipView>,
    /// Member ids by root account.
    pub member_ids_by_root_account_id: Map<u64, Seq<u64>>,
    /// Member ids by controller account.
    pub member_ids_by_controller_account_id: Map<u64, Seq<u64>>,
    /// Registered handle hashes and their owners.
    pub handles: Map<Seq<u8>, u64>,
    /// Referral cut to receive on buying the membership.
    pub referral_cut: u64,
    /// Current membership price.
    pub membership_price: u64,
    /// Initial invitation count for the newly bought membership.
    pub initial_invitation_count: u32,
    /// Initial invitation balance for the invited member.
    pub initial_invitation_balance: u64,
    /// Maximum number of staking accounts of a membership.
    pub staking_account_number_limit: u32,
}

impl View for MembershipModule {
    type V = MembershipModuleView;

    closed spec fn view(&self) -> MembershipModuleView {
        MembershipModuleView {
            next_member_id: self.next_member_id,
            memberships: self.membership_by_id@.map_values(|m: MembershipObject| m@),
            member_ids_by_root_account_id: ids_view(self.member_ids_by_root_account_id@),
            member_ids_by_controller_account_id: ids_view(self.member_ids_by_controller_account_id@),
            handles: handles_map(self.member_id_by_handle_hash@),
            referral_cut: self.referral_cut,
            membership_price: self.membership_price,
            initial_invitation_count: self.initial_invitation_count,
            initial_invitation_balance: self.initial_invitation_balance,
            staking_account_number_limit: self.staking_account_number_limit,
        }
    }
}

/// Invariant of the storage seen from outside: member ids are below the next member id.
pub open spec fn membership_view_wf(v: MembershipModuleView) -> bool {
    forall|id: u64| #[trigger] v.memberships.contains_key(id) ==> id < v.next_member_id
}

/// The member ids recorded for an account (none when it has no entry).
pub open spec fn ids_of(m: Map<u64, Seq<u64>>, account: u64) -> Seq<u64> {
    if m.contains_key(account) { m[account] } else { Seq::empty() }
}

/// The index after `id` was appended to the account's member ids.
pub open spec fn push_id(m: Map<u64, Seq<u64>>, account: u64, id: u64) -> Map<u64, Seq<u64>> {
    m.insert(account, ids_of(m, account).push(id))
}

/// The index after `id` was taken out of the account's member ids.
pub open spec fn retain_others(m: Map<u64, Seq<u64>>, account: u64, id: u64) -> Map<u64, Seq<u64>> {
    m.insert(account, ids_of(m, account).filter(not_id(id)))
}

/// A new membership.
pub open spec fn new_membership(handle_hash: Seq<u8>, root: u64, controller: u64, invites: u32) -> MembershipView {
    MembershipView {
        handle_hash,
        root_account: root,
        controller_account: controller,
        verified: false,
        invites,
        staking_account_ids: Map::empty(),
    }
}

/// The storage after a member was inserted with the given accounts, handle hash and invites.
pub open spec fn after_insert_member(
    v: MembershipModuleView,
    root: u64,
    controller: u64,
    handle_hash: Seq<u8>,
    invites: u32,
) -> MembershipModuleView {
    MembershipModuleView {
        next_member_id: (v.next_member_id + 1) as u64,
        memberships: v.memberships.insert(v.next_member_id, new_membership(handle_hash, root, controller, invites)),
        member_ids_by_root_account_id: push_id(v.member_ids_by_root_account_id, root, v.next_member_id),
        member_ids_by_controller_account_id: push_id(
            v.member_ids_by_controller_account_id,
            controller,
            v.next_member_id,
        ),
        handles: v.handles.insert(handle_hash, v.next_member_id),
        ..v
    }
}

/// The storage with another membership record for `id`.
pub open spec fn with_membership(v: MembershipModuleView, id: u64, m: MembershipView) -> MembershipModuleView {
    MembershipModuleView { memberships: v.memberships.insert(id, m), ..v }
}

/// Validates a handle and gives its hash, or the first error.
pub open spec fn handle_hash_check(v: MembershipModuleView, handle: Option<Seq<u8>>) -> Result<Seq<u8>, MembershipError> {
    match handle {
        None => Err(MembershipError::HandleMustBeProvidedDuringRegistration),
        Some(h) => if h.len() == 0 {
            Err(MembershipError::HandleMustBeProvidedDuringRegistration)
        } else if v.handles.contains_key(blake2_256_of(h)) {
            Err(MembershipError::HandleAlreadyRegistered)
        } else {
            Ok(blake2_256_of(h))
        },
    }
}

/// The origin is signed by the controller account of an existing member, or the first error.
pub open spec fn controller_check(v: MembershipModuleView, origin: RawOrigin, member_id: u64) -> Result<(), MembershipError> {
    match origin {
        RawOrigin::Signed(who) => controller_account_check(v, member_id, who),
        _ => Err(MembershipError::UnsignedOrigin),
    }
}

/// The member exists and has `account` as its controller account, or the first error.
pub open spec fn controller_account_check(v: MembershipModuleView, member_id: u64, account: u64) -> Result<(), MembershipError> {
    if !v.memberships.contains_key(member_id) {
        Err(MembershipError::MemberProfileNotFound)
    } else if v.memberships[member_id].controller_account != account {
        Err(MembershipError::ControllerAccountRequired)
    } else {
        Ok(())
    }
}

/// The referral reward: the smaller of the membership price and the referral cut.
pub open spec fn referral_bonus(v: MembershipModuleView) -> u64 {
    if v.membership_price <= v.referral_cut { v.membership_price } else { v.referral_cut }
}

/// Optional values seen through their views.
pub open spec fn opt_view(o: Option<Vec<u8>>) -> Option<Seq<u8>> {
    match o {
        Some(v) => Some(v@),
        None => None,
    }
}

/// Parameters for the `buy_membership` call.
#[derive(Debug, Default)]
pub struct BuyMembershipParameters {
    /// New member root account.
    pub root_account: u64,
    /// New member controller account.
    pub controller_account: u64,
    /// New member user name.
    pub name: Option<Vec<u8>>,
    /// New member handle.
    pub handle: Option<Vec<u8>>,
    /// New member avatar URI.
    pub avatar_uri: Option<Vec<u8>>,
    /// New member 'about' text.
    pub about: Option<Vec<u8>>,
    /// Referrer member id.
    pub referrer_id: Option<u64>,
}

/// Parameters for the `invite_member` call.
#[derive(Debug, Default)]
pub struct InviteMembershipParameters {
    /// Inviting member id.
    pub inviting_member_id: u64,
    /// New member root account.
    pub root_account: u64,
    /// New member controller account.
    pub controller_account: u64,
    /// New member user name.
    pub name: Option<Vec<u8>>,
    /// New member handle.
    pub handle: Option<Vec<u8>>,
    /// New member avatar URI.
    pub avatar_uri: Option<Vec<u8>>,
    /// New member 'about' text.
    pub about: Option<Vec<u8>>,
}

/// What a successful membership purchase asks of the runtime.
#[derive(Clone, Copy, Debug)]
pub struct BoughtMembership {
    /// The new member's id.
    pub member_id: u64,
    /// The account that pays the fee (the signer).
    pub fee_payer: u64,
    /// The fee to slash from it.
    pub fee: u64,
    /// The referral reward to deposit: account and amount.
    pub referral_reward: Option<(u64, u64)>,
    /// The event to deposit.
    pub event: MembershipEvent,
}

/// A membership view with another invitation count.
pub open spec fn with_invites(m: MembershipView, invites: u32) -> MembershipView {
    MembershipView { invites, ..m }
}

/// `a - b` on invitation counts, saturating at zero.
pub open spec fn sat_sub_u32(a: u32, b: u32) -> u32 {
    if a >= b { (a - b) as u32 } else { 0 }
}

/// `a + b` on invitation counts, saturating at the largest count.
pub open spec fn sat_add_u32(a: u32, b: u32) -> u32 {
    if a + b > u32::MAX { u32::MAX } else { (a + b) as u32 }
}

/// The checks of `buy_membership`, in order: the new handle's hash, or the first error.
pub open spec fn buy_membership_check(
    v: MembershipModuleView,
    origin: RawOrigin,
    handle: Option<Seq<u8>>,
    referrer_id: Option<u64>,
    usable_balance: u64,
) -> Result<Seq<u8>, DispatchError> {
    match origin {
        RawOrigin::Signed(_) => if usable_balance < v.membership_price {
            Err(DispatchError::Membership(MembershipError::NotEnoughBalanceToBuyMembership))
        } else {
            match handle_hash_check(v, handle) {
                Err(e) => Err(DispatchError::Membership(e)),
                Ok(h) => match referrer_id {
                    Some(r) => if !v.memberships.contains_key(r) {
                        Err(DispatchError::Membership(MembershipError::ReferrerIsNotMember))
                    } else {
                        Ok(h)
                    },
                    None => Ok(h),
                },
            }
        },
        _ => Err(DispatchError::BadOrigin),
    }
}

/// The referral reward of a purchase: the referrer's controller account and the bonus, when
/// there is a referrer and the bonus is positive.
pub open spec fn referral_reward(v: MembershipModuleView, referrer_id: Option<u64>) -> Option<(u64, u64)> {
    match referrer_id {
        Some(r) => if referral_bonus(v) > 0 {
            Some((v.memberships[r].controller_account, referral_bonus(v)))
        } else {
            None
        },
        None => None,
    }
}

/// The checks of `update_profile` when some field is given, in order.
pub open spec fn update_profile_check(
    v: MembershipModuleView,
    origin: RawOrigin,
    member_id: u64,
    handle: Option<Seq<u8>>,
) -> Result<(), DispatchError> {
    match controller_check(v, origin, member_id) {
        Err(e) => Err(DispatchError::Membership(e)),
        Ok(()) => match handle {
            Some(h) => match handle_hash_check(v, Some(h)) {
                Err(e) => Err(DispatchError::Membership(e)),
                Ok(_) => Ok(()),
            },
            None => Ok(()),
        },
    }
}

/// The storage after the member's handle was changed to `handle`.
pub open spec fn after_update_handle(v: MembershipModuleView, member_id: u64, handle: Seq<u8>) -> MembershipModuleView {
    let m = v.memberships[member_id];
    let new_hash = blake2_256_of(handle);
    MembershipModuleView {
        memberships: v.memberships.insert(member_id, MembershipView { handle_hash: new_hash, ..m }),
        handles: v.handles.remove(m.handle_hash).insert(new_hash, member_id),
        ..v
    }
}

/// The checks of `update_accounts` when some account is given, in order.
pub open spec fn update_accounts_check(v: MembershipModuleView, origin: RawOrigin, member_id: u64) -> Result<(), DispatchError> {
    match origin {
        RawOrigin::Signed(who) => if !v.memberships.contains_key(member_id) {
            Err(DispatchError::Membership(MembershipError::MemberProfileNotFound))
        } else if v.memberships[member_id].root_account != who {
            Err(DispatchError::Membership(MembershipError::RootAccountRequired))
        } else {
            Ok(())
        },
        _ => Err(DispatchError::BadOrigin),
    }
}

/// The storage after the member's accounts were changed to those given.
pub open spec fn after_update_accounts(
    v: MembershipModuleView,
    member_id: u64,
    new_root_account: Option<u64>,
    new_controller_account: Option<u64>,
) -> MembershipModuleView {
    let m = v.memberships[member_id];
    let roots = match new_root_account {
        Some(r) => push_id(retain_others(v.member_ids_by_root_account_id, m.root_account, member_id), r, member_id),
        None => v.member_ids_by_root_account_id,
    };
    let controllers = match new_controller_account {
        Some(c) => push_id(
            retain_others(v.member_ids_by_controller_account_id, m.controller_account, member_id),
            c,
            member_id,
        ),
        None => v.member_ids_by_controller_account_id,
    };
    let root_account = match new_root_account {
        Some(r) => r,
        None => m.root_account,
    };
    let controller_account = match new_controller_account {
        Some(c) => c,
        None => m.controller_account,
    };
    MembershipModuleView {
        memberships: v.memberships.insert(member_id, MembershipView { root_account, controller_account, ..m }),
        member_ids_by_root_account_id: roots,
        member_ids_by_controller_account_id: controllers,
        ..v
    }
}

/// The checks of `transfer_invites`, in order.
pub open spec fn transfer_invites_check(
    v: MembershipModuleView,
    origin: RawOrigin,
    source_member_id: u64,
    target_member_id: u64,
    number_of_invites: u32,
) -> Result<(), DispatchError> {
    match controller_check(v, origin, source_member_id) {
        Err(e) => Err(DispatchError::Membership(e)),
        Ok(()) => if !v.memberships.contains_key(target_member_id) {
            Err(DispatchError::Membership(MembershipError::CannotTransferInvitesForNotMember))
        } else if v.memberships[source_member_id].invites < number_of_invites {
            Err(DispatchError::Membership(MembershipError::NotEnoughInvites))
        } else {
            Ok(())
        },
    }
}

/// The storage after invites moved from the source to the target member.
pub open spec fn after_transfer_invites(
    v: MembershipModuleView,
    source_member_id: u64,
    target_member_id: u64,
    number_of_invites: u32,
) -> MembershipModuleView {
    let src = v.memberships[source_member_id];
    let v1 = with_membership(v, source_member_id, with_invites(src, sat_sub_u32(src.invites, number_of_invites)));
    let tgt = v1.memberships[target_member_id];
    with_membership(v1, target_member_id, with_invites(tgt, sat_add_u32(tgt.invites, number_of_invites)))
}

/// The checks of `invite_member`, in order: the new handle's hash, or the first error.
pub open spec fn invite_member_check(
    v: MembershipModuleView,
    origin: RawOrigin,
    inviting_member_id: u64,
    handle: Option<Seq<u8>>,
) -> Result<Seq<u8>, DispatchError> {
    match controller_check(v, origin, inviting_member_id) {
        Err(e) => Err(DispatchError::Membership(e)),
        Ok(()) => if v.memberships[inviting_member_id].invites == 0 {
            Err(DispatchError::Membership(MembershipError::NotEnoughInvites))
        } else {
            match handle_hash_check(v, handle) {
                Err(e) => Err(DispatchError::Membership(e)),
                Ok(h) => Ok(h),
            }
        },
    }
}

/// The checks of `set_leader_invitation_quota`, in order: the leader's member id, or the
/// first error.
pub open spec fn leader_quota_check(v: MembershipModuleView, origin: RawOrigin, leader_member_id: Option<u64>) -> Result<u64, DispatchError> {
    if !(origin is Root) {
        Err(DispatchError::BadOrigin)
    } else {
        match leader_member_id {
            Some(l) => if !v.memberships.contains_key(l) {
                Err(DispatchError::Membership(MembershipError::MemberProfileNotFound))
            } else {
                Ok(l)
            },
            None => Err(DispatchError::Membership(MembershipError::WorkingGroupLeaderNotSet)),
        }
    }
}

/// The checks of `add_staking_account_candidate`, in order.
pub open spec fn add_staking_check(
    v: MembershipModuleView,
    origin: RawOrigin,
    member_id: u64,
    staking_account_id: u64,
) -> Result<(), DispatchError> {
    match controller_check(v, origin, member_id) {
        Err(e) => Err(DispatchError::Membership(e)),
        Ok(()) => if v.memberships[member_id].staking_account_ids.contains_key(staking_account_id) {
            Err(DispatchError::Membership(MembershipError::StakingAccountExists))
        } else if v.memberships[member_id].staking_account_ids.len() as u32 >= v.staking_account_number_limit {
            Err(DispatchError::Membership(MembershipError::MaximumStakingAccountNumberExceeded))
        } else {
            Ok(())
        },
    }
}

/// The checks of `remove_staking_account`, in order.
pub open spec fn remove_staking_check(
    v: MembershipModuleView,
    origin: RawOrigin,
    member_id: u64,
    staking_account_id: u64,
) -> Result<(), DispatchError> {
    match controller_check(v, origin, member_id) {
        Err(e) => Err(DispatchError::Membership(e)),
        Ok(()) => if !v.memberships[member_id].staking_account_ids.contains_key(staking_account_id) {
            Err(DispatchError::Membership(MembershipError::StakingAccountDoesntExist))
        } else {
            Ok(())
        },
    }
}

/// The checks of `confirm_staking_account`, in order: the signer (the staking account), or
/// the first error.
pub open spec fn confirm_staking_check(v: MembershipModuleView, origin: RawOrigin, member_id: u64) -> Result<u64, DispatchError> {
    match origin {
        RawOrigin::Signed(who) => if !v.memberships.contains_key(member_id) {
            Err(DispatchError::Membership(MembershipError::MemberProfileNotFound))
        } else if !v.memberships[member_id].staking_account_ids.contains_key(who) {
            Err(DispatchError::Membership(MembershipError::StakingAccountDoesntExist))
        } else {
            Ok(who)
        },
        _ => Err(DispatchError::BadOrigin),
    }
}

/// The storage after the member's staking accounts changed to `staking`.
pub open spec fn after_staking(v: MembershipModuleView, member_id: u64, staking: Map<u64, bool>) -> MembershipModuleView {
    with_membership(v, member_id, with_staking(v.memberships[member_id], staking))
}

/// A member imported at genesis.
#[derive(Debug)]
pub struct GenesisMember {
    /// The member id the member must get.
    pub member_id: u64,
    /// Root account.
    pub root_account: u64,
    /// Controller account.
    pub controller_account: u64,
    /// Handle (bytes of the handle text).
    pub handle: Vec<u8>,
}

/// The storage of a fresh module with the given settings.
pub open spec fn initial_view(config: MembershipConfig) -> MembershipModuleView {
    MembershipModuleView {
        next_member_id: 0,
        memberships: Map::empty(),
        member_ids_by_root_account_id: Map::empty(),
        member_ids_by_controller_account_id: Map::empty(),
        handles: Map::empty(),
        referral_cut: 0,
        membership_price: config.default_membership_price,
        initial_invitation_count: DEFAULT_MEMBER_INVITES_COUNT,
        initial_invitation_balance: config.default_initial_invitation_balance,
        staking_account_number_limit: config.staking_account_number_limit,
    }
}

/// The storage after importing the genesis members in order, each with a validated
/// handle, no invitations and exactly its declared member id; `None` when an import fails
/// (an empty or taken handle, or an unexpected member id), which aborts the genesis build.
pub open spec fn genesis_state(config: MembershipConfig, members: Seq<GenesisMember>) -> Option<MembershipModuleView>
    decreases members.len(),
{
    if members.len() == 0 {
        Some(initial_view(config))
    } else {
        match genesis_state(config, members.drop_last()) {
            None => None,
            Some(v) => {
                let m = members.last();
                match handle_hash_check(v, Some(m.handle@)) {
                    Err(_) => None,
                    Ok(h) => if v.next_member_id == u64::MAX || m.member_id != v.next_member_id {
                        None
                    } else {
                        Some(after_insert_member(v, m.root_account, m.controller_account, h, 0))
                    },
                }
            },
        }
    }
}

/// The root account of each member.
pub open spec fn root_owners(v: MembershipModuleView) -> Map<u64, u64> {
    v.memberships.map_values(|m: MembershipView| m.root_account)
}

/// The controller account of each member.
pub open spec fn controller_owners(v: MembershipModuleView) -> Map<u64, u64> {
    v.memberships.map_values(|m: MembershipView| m.controller_account)
}

/// An account index lists under each account exactly the members that have that account.
pub open spec fn index_matches(idx: Map<u64, Seq<u64>>, owners: Map<u64, u64>) -> bool {
    forall|a: u64, id: u64| #[trigger] ids_of(idx, a).contains(id) <==> (owners.contains_key(id) && owners[id] == a)
}

/// Both account indexes match the members' accounts.
pub open spec fn accounts_indexed(v: MembershipModuleView) -> bool {
    &&& index_matches(v.member_ids_by_root_account_id, root_owners(v))
    &&& index_matches(v.member_ids_by_controller_account_id, controller_owners(v))
}

/// The account is the root or the controller account of some member.
pub open spec fn is_account_of_member(v: MembershipModuleView, who: u64) -> bool {
    exists|id: u64| #[trigger] v.memberships.contains_key(id) && (v.memberships[id].root_account == who
        || v.memberships[id].controller_account == who)
}

/// Taking `id` out of a list keeps exactly the other entries.
pub proof fn lemma_retained_contains(s: Seq<u64>, id: u64, x: u64)
    ensures
        s.filter(not_id(id)).contains(x) <==> (s.contains(x) && x != id),
{
    let f = s.filter(not_id(id));
    if f.contains(x) {
        s.lemma_filter_contains_rev(not_id(id), x);
        let i = choose|i: int| 0 <= i < f.len() && f[i] == x;
        s.lemma_filter_pred(not_id(id), i);
    }
    if s.contains(x) && x != id {
        let i = choose|i: int| 0 <= i < s.len() && s[i] == x;
        s.lemma_filter_contains(not_id(id), i);
    }
}

/// Recording a new member under its account keeps an index matching.
pub proof fn lemma_index_push(idx: Map<u64, Seq<u64>>, owners: Map<u64, u64>, account: u64, n: u64)
    requires
        index_matches(idx, owners),
        !owners.contains_key(n),
    ensures
        index_matches(push_id(idx, account, n), owners.insert(n, account)),
{
    let new_idx = push_id(idx, account, n);
    let new_owners = owners.insert(n, account);
    assert forall|a: u64, id: u64| #[trigger] ids_of(new_idx, a).contains(id) <==> (new_owners.contains_key(id)
        && new_owners[id] == a) by {
        if a == account {
            assert(ids_of(new_idx, a) == ids_of(idx, a).push(n));
            if ids_of(idx, a).push(n).contains(id) && id != n {
                let i = choose|i: int| 0 <= i < ids_of(idx, a).push(n).len() && ids_of(idx, a).push(n)[i] == id;
                assert(ids_of(idx, a)[i] == id);
                assert(ids_of(idx, a).contains(id));
            }
            if id == n {
                assert(ids_of(idx, a).push(n)[ids_of(idx, a).len() as int] == n);
            } else if owners.contains_key(id) && owners[id] == a {
                assert(ids_of(idx, a).contains(id));
                let i = choose|i: int| 0 <= i < ids_of(idx, a).len() && ids_of(idx, a)[i] == id;
                assert(ids_of(idx, a).push(n)[i] == id);
            }
        } else {
            assert(ids_of(new_idx, a) == ids_of(idx, a));
            if id == n {
                assert(!ids_of(idx, a).contains(n));
            }
        }
    }
}

/// Moving a member from its old account to `account` keeps an index matching.
pub proof fn lemma_index_move(idx: Map<u64, Seq<u64>>, owners: Map<u64, u64>, id: u64, account: u64)
    requires
        index_matches(idx, owners),
        owners.contains_key(id),
    ensures
        index_matches(push_id(retain_others(idx, owners[id], id), account, id), owners.insert(id, account)),
{
    let mid = retain_others(idx, owners[id], id);
    let removed = owners.remove(id);
    assert forall|a: u64, x: u64| #[trigger] ids_of(mid, a).contains(x) <==> (removed.contains_key(x)
        && removed[x] == a) by {
        if a == owners[id] {
            lemma_retained_contains(ids_of(idx, a), id, x);
            assert(ids_of(idx, a).contains(x) <==> (owners.contains_key(x) && owners[x] == a));
        } else {
            assert(ids_of(mid, a) == ids_of(idx, a));
            assert(ids_of(idx, a).contains(x) <==> (owners.contains_key(x) && owners[x] == a));
            if x == id {
                assert(!ids_of(idx, a).contains(id));
            }
        }
    }
    lemma_index_push(mid, removed, account, id);
    assert(removed.insert(id, account) =~= owners.insert(id, account));
}

/// Updating a member's accounts keeps the account indexes matching.
pub proof fn lemma_update_accounts_indexed(
    v: MembershipModuleView,
    member_id: u64,
    new_root_account: Option<u64>,
    new_controller_account: Option<u64>,
)
    requires
        accounts_indexed(v),
        v.memberships.contains_key(member_id),
    ensures
        accounts_indexed(after_update_accounts(v, member_id, new_root_account, new_controller_account)),
{
    let w = after_update_accounts(v, member_id, new_root_account, new_controller_account);
    let m = v.memberships[member_id];
    match new_root_account {
        Some(r) => {
            assert(root_owners(v)[member_id] == m.root_account);
            lemma_index_move(v.member_ids_by_root_account_id, root_owners(v), member_id, r);
            assert(root_owners(w) =~= root_owners(v).insert(member_id, r));
        },
        None => {
            assert(root_owners(w) =~= root_owners(v));
        },
    }
    match new_controller_account {
        Some(c) => {
            assert(controller_owners(v)[member_id] == m.controller_account);
            lemma_index_move(v.member_ids_by_controller_account_id, controller_owners(v), member_id, c);
            assert(controller_owners(w) =~= controller_owners(v).insert(member_id, c));
        },
        None => {
            assert(controller_owners(w) =~= controller_owners(v));
        },
    }
}

/// Inserting a member with a fresh id keeps the account indexes matching.
pub proof fn lemma_insert_member_indexed(
    v: MembershipModuleView,
    root: u64,
    controller: u64,
    handle_hash: Seq<u8>,
    invites: u32,
)
    requires
        accounts_indexed(v),
        membership_view_wf(v),
    ensures
        accounts_indexed(after_insert_member(v, root, controller, handle_hash, invites)),
{
    let w = after_insert_member(v, root, controller, handle_hash, invites);
    let n = v.next_member_id;
    assert(!v.memberships.contains_key(n));
    lemma_index_push(v.member_ids_by_root_account_id, root_owners(v), root, n);
    assert(root_owners(w) =~= root_owners(v).insert(n, root));
    lemma_index_push(v.member_ids_by_controller_account_id, controller_owners(v), controller, n);
    assert(controller_owners(w) =~= controller_owners(v).insert(n, controller));
}

impl MembershipModule {
    /// Internal invariant: the storage invariant, and handle hashes registered once.
    pub closed spec fn wf(&self) -> bool {
        &&& membership_view_wf(self@)
        &&& accounts_indexed(self@)
        &&& handle_keys_unique(self.member_id_by_handle_hash@)
    }

    /// The invariant implies the storage invariant.
    pub proof fn lemma_wf(&self)
        requires
            self.wf(),
        ensures
            membership_view_wf(self@),
            accounts_indexed(self@),
    {
    }

    /// Empty storage with the runtime's settings.
    pub fn new(config: MembershipConfig) -> (s: Self)
        ensures
            s.wf(),
            s@.next_member_id == 0,
            s@.memberships == Map::<u64, MembershipView>::empty(),
            s@.member_ids_by_root_account_id == Map::<u64, Seq<u64>>::empty(),
            s@.member_ids_by_controller_account_id == Map::<u64, Seq<u64>>::empty(),
            s@.handles == Map::<Seq<u8>, u64>::empty(),
            s@.referral_cut == 0,
            s@.membership_price == config.default_membership_price,
            s@.initial_invitation_count == DEFAULT_MEMBER_INVITES_COUNT,
            s@.initial_invitation_balance == config.default_initial_invitation_balance,
            s@.staking_account_number_limit == config.staking_account_number_limit,
    {
        let s = MembershipModule {
            next_member_id: 0,
            membership_by_id: BTreeMap::new(),
            member_ids_by_root_account_id: BTreeMap::new(),
            member_ids_by_controller_account_id: BTreeMap::new(),
            member_id_by_handle_hash: Vec::new(),
            referral_cut: 0,
            membership_price: config.default_membership_price,
            initial_invitation_count: DEFAULT_MEMBER_INVITES_COUNT,
            initial_invitation_balance: config.default_initial_invitation_balance,
            staking_account_number_limit: config.staking_account_number_limit,
        };
        assert(s@.memberships =~= Map::<u64, MembershipView>::empty());
        assert(s@.member_ids_by_root_account_id =~= Map::<u64, Seq<u64>>::empty());
        assert(s@.member_ids_by_controller_account_id =~= Map::<u64, Seq<u64>>::empty());
        assert(s@.handles =~= Map::<Seq<u8>, u64>::empty());
        s
    }

    /// Member id to assign to the next member; the number of members created.
    pub fn members_created(&self) -> (r: u64)
        ensures
            r == self@.next_member_id,
    {
        self.next_member_id
    }

    /// The membership of a member, if it exists.
    pub fn membership(&self, member_id: u64) -> (r: Option<&MembershipObject>)
        ensures
            match r {
                Some(m) => self@.memberships.contains_key(member_id) && m@ == self@.memberships[member_id],
                None => !self@.memberships.contains_key(member_id),
            },
    {
        self.membership_by_id.get(&member_id)
    }

    /// Referral cut to receive on buying the membership.
    pub fn referral_cut(&self) -> (r: u64)
        ensures
            r == self@.referral_cut,
    {
        self.referral_cut
    }

    /// Current membership price.
    pub fn membership_price(&self) -> (r: u64)
        ensures
            r == self@.membership_price,
    {
        self.membership_price
    }

    /// Initial invitation count for the newly bought membership.
    pub fn initial_invitation_count(&self) -> (r: u32)
        ensures
            r == self@.initial_invitation_count,
    {
        self.initial_invitation_count
    }

    /// Initial invitation balance for the invited member.
    pub fn initial_invitation_balance(&self) -> (r: u64)
        ensures
            r == self@.initial_invitation_balance,
    {
        self.initial_invitation_balance
    }

    /// The member ids whose root account is `account` (empty when none were recorded).
    pub fn member_ids_by_root_account_id(&self, account: u64) -> (r: Vec<u64>)
        ensures
            r@ == ids_of(self@.member_ids_by_root_account_id, account),
    {
        match self.member_ids_by_root_account_id.get(&account) {
            Some(ids) => {
                let r = ids.clone();
                assert(r@ =~= ids@);
                r
            },
            None => Vec::new(),
        }
    }

    /// The member ids whose controller account is `account` (empty when none were recorded).
    pub fn member_ids_by_controller_account_id(&self, account: u64) -> (r: Vec<u64>)
        ensures
            r@ == ids_of(self@.member_ids_by_controller_account_id, account),
    {
        match self.member_ids_by_controller_account_id.get(&account) {
            Some(ids) => {
                let r = ids.clone();
                assert(r@ =~= ids@);
                r
            },
            None => Vec::new(),
        }
    }

    /// The position of a handle hash in the handle table.
    fn find_handle(&self, handle_hash: &Vec<u8>) -> (r: Option<usize>)
        requires
            self.wf(),
        ensures
            match r {
                Some(i) => i < self.member_id_by_handle_hash@.len()
                    && self.member_id_by_handle_hash@[i as int].0@ == handle_hash@,
                None => !self@.handles.contains_key(handle_hash@),
            },
    {
        let mut i: usize = 0;
        while i < self.member_id_by_handle_hash.len()
            invariant
                i <= self.member_id_by_handle_hash@.len(),
                forall|j: int| 0 <= j < i ==> #[trigger] self.member_id_by_handle_hash@[j].0@ != handle_hash@,
            decreases self.member_id_by_handle_hash.len() - i,
        {
            if bytes_equal(&self.member_id_by_handle_hash[i].0, handle_hash) {
                return Some(i);
            }
            i = i + 1;
        }
        None
    }

    /// The owner of a registered handle hash.
    pub fn handles(&self, handle_hash: &Vec<u8>) -> (r: Option<u64>)
        requires
            self.wf(),
        ensures
            match r {
                Some(id) => self@.handles.contains_key(handle_hash@) && self@.handles[handle_hash@] == id,
                None => !self@.handles.contains_key(handle_hash@),
            },
    {
        match self.find_handle(handle_hash) {
            Some(i) => {
                proof {
                    lemma_handles_map_entry(self.member_id_by_handle_hash@, i as int);
                }
                Some(self.member_id_by_handle_hash[i].1)
            },
            None => None,
        }
    }

    /// Registers `handle_hash` as owned by `member_id`, replacing an earlier owner.
    fn insert_handle(&mut self, handle_hash: Vec<u8>, member_id: u64)
        requires
            old(self).wf(),
        ensures
            final(self).wf(),
            final(self)@ == (MembershipModuleView { handles: old(self)@.handles.insert(handle_hash@, member_id), ..old(self)@ }),
    {
        let ghost old_v = self@;
        let ghost old_s = self.member_id_by_handle_hash@;
        let ghost h = handle_hash@;
        match self.find_handle(&handle_hash) {
            Some(i) => {
                self.member_id_by_handle_hash.set(i, (handle_hash, member_id));
                proof {
                    let s = self.member_id_by_handle_hash@;
                    assert(handle_keys_unique(s)) by {
                        assert forall|a: int, b: int| 0 <= a < s.len() && 0 <= b < s.len() && a != b
                            implies #[trigger] s[a].0@ != #[trigger] s[b].0@ by {
                            assert(old_s[a].0@ != old_s[b].0@);
                        }
                    }
                    let target = old_v.handles.insert(h, member_id);
                    assert forall|k: Seq<u8>| #[trigger] handles_map(s).contains_key(k)
                        == target.contains_key(k) && (handles_map(s).contains_key(k)
                        ==> handles_map(s)[k] == target[k]) by {
                        if k == h {
                            lemma_handles_map_entry(s, i as int);
                        } else if handles_map(s).contains_key(k) {
                            let j = choose|j: int| 0 <= j < s.len() && #[trigger] s[j].0@ == k;
                            lemma_handles_map_entry(s, j);
                            lemma_handles_map_entry(old_s, j);
                        } else if old_v.handles.contains_key(k) {
                            let j = choose|j: int| 0 <= j < old_s.len() && #[trigger] old_s[j].0@ == k;
                            assert(s[j].0@ == k);
                        }
                    }
                    assert(handles_map(s) =~= target);
                }
            },
            None => {
                self.member_id_by_handle_hash.push((handle_hash, member_id));
                proof {
                    let s = self.member_id_by_handle_hash@;
                    let n = old_s.len() as int;
                    assert forall|j: int| 0 <= j < n implies #[trigger] old_s[j].0@ != h by {
                        if old_s[j].0@ == h {
                            lemma_handles_map_entry(old_s, j);
                        }
                    }
                    assert(handle_keys_unique(s)) by {
                        assert forall|a: int, b: int| 0 <= a < s.len() && 0 <= b < s.len() && a != b
                            implies #[trigger] s[a].0@ != #[trigger] s[b].0@ by {
                            if a < n && b < n {
                                assert(old_s[a].0@ != old_s[b].0@);
                            } else if a < n {
                                assert(old_s[a].0@ != h);
                            } else {
                                assert(old_s[b].0@ != h);
                            }
                        }
                    }
                    let target = old_v.handles.insert(h, member_id);
                    assert forall|k: Seq<u8>| #[trigger] handles_map(s).contains_key(k)
                        == target.contains_key(k) && (handles_map(s).contains_key(k)
                        ==> handles_map(s)[k] == target[k]) by {
                        if k == h {
                            lemma_handles_map_entry(s, n);
                        } else if handles_map(s).contains_key(k) {
                            let j = choose|j: int| 0 <= j < s.len() && #[trigger] s[j].0@ == k;
                            assert(j < n);
                            lemma_handles_map_entry(s, j);
                            lemma_handles_map_entry(old_s, j);
                        } else if old_v.handles.contains_key(k) {
                            let j = choose|j: int| 0 <= j < old_s.len() && #[trigger] old_s[j].0@ == k;
                            assert(s[j].0@ == k);
                        }
                    }
                    assert(handles_map(s) =~= target);
                }
            },
        }
        proof {
            assert(self@.memberships =~= old_v.memberships);
            assert(self@.member_ids_by_root_account_id =~= old_v.member_ids_by_root_account_id);
            assert(self@.member_ids_by_controller_account_id =~= old_v.member_ids_by_controller_account_id);
        }
    }

    /// Unregisters a handle hash.
    fn remove_handle(&mut self, handle_hash: &Vec<u8>)
        requires
            old(self).wf(),
        ensures
            final(self).wf(),
            final(self)@ == (MembershipModuleView { handles: old(self)@.handles.remove(handle_hash@), ..old(self)@ }),
    {
        let ghost old_v = self@;
        let ghost old_s = self.member_id_by_handle_hash@;
        let ghost h = handle_hash@;
        match self.find_handle(handle_hash) {
            Some(i) => {
                self.member_id_by_handle_hash.remove(i);
                proof {
                    let s = self.member_id_by_handle_hash@;
                    assert(s =~= old_s.remove(i as int));
                    assert(handle_keys_unique(s)) by {
                        assert forall|a: int, b: int| 0 <= a < s.len() && 0 <= b < s.len() && a != b
                            implies #[trigger] s[a].0@ != #[trigger] s[b].0@ by {
                            let oa = if a < i { a } else { a + 1 };
                            let ob = if b < i { b } else { b + 1 };
                            assert(s[a] == old_s[oa]);
                            assert(s[b] == old_s[ob]);
                            assert(old_s[oa].0@ != old_s[ob].0@);
                        }
                    }
                    let target = old_v.handles.remove(h);
                    assert forall|k: Seq<u8>| #[trigger] handles_map(s).contains_key(k)
                        == target.contains_key(k) && (handles_map(s).contains_key(k)
                        ==> handles_map(s)[k] == target[k]) by {
                        if handles_map(s).contains_key(k) {
                            let j = choose|j: int| 0 <= j < s.len() && #[trigger] s[j].0@ == k;
                            let oj = if j < i { j } else { j + 1 };
                            assert(s[j] == old_s[oj]);
                            assert(oj != i);
                            assert(old_s[oj].0@ != old_s[i as int].0@);
                            lemma_handles_map_entry(s, j);
                            lemma_handles_map_entry(old_s, oj);
                        } else if old_v.handles.contains_key(k) && k != h {
                            let j = choose|j: int| 0 <= j < old_s.len() && #[trigger] old_s[j].0@ == k;
                            assert(j != i);
                            let nj = if j < i { j } else { j - 1 };
                            assert(s[nj] == old_s[j]);
                        }
                    }
                    assert(handles_map(s) =~= target);
                }
            },
            None => {
                assert(self@.handles =~= old_v.handles.remove(h));
            },
        }
        proof {
            assert(self@.memberships =~= old_v.memberships);
            assert(self@.member_ids_by_root_account_id =~= old_v.member_ids_by_root_account_id);
            assert(self@.member_ids_by_controller_account_id =~= old_v.member_ids_by_controller_account_id);
        }
    }

    /// Appends `id` to the member ids recorded for `account`.
    fn push_member_id(map: &mut BTreeMap<u64, Vec<u64>>, account: u64, id: u64)
        ensures
            ids_view(final(map)@) == push_id(ids_view(old(map)@), account, id),
    {
        let ghost old_m = ids_view(map@);
        let mut ids = match map.remove(&account) {
            Some(v) => v,
            None => Vec::new(),
        };
        proof {
            assert(ids@ == ids_of(old_m, account));
        }
        ids.push(id);
        let ghost new_ids = ids@;
        map.insert(account, ids);
        proof {
            assert(ids_view(map@) =~= push_id(old_m, account, id));
        }
    }

    /// Takes `id` out of the member ids recorded for `account` (recording an empty list when
    /// the account had none).
    fn retain_member_ids(map: &mut BTreeMap<u64, Vec<u64>>, account: u64, id: u64)
        ensures
            ids_view(final(map)@) == retain_others(ids_view(old(map)@), account, id),
    {
        let ghost old_m = ids_view(map@);
        let ids = match map.remove(&account) {
            Some(v) => v,
            None => Vec::new(),
        };
        proof {
            assert(ids@ == ids_of(old_m, account));
        }
        let mut kept: Vec<u64> = Vec::new();
        let mut i: usize = 0;
        proof {
            assert(ids@.take(0) =~= Seq::<u64>::empty());
            reveal(Seq::filter);
        }
        while i < ids.len()
            invariant
                i <= ids@.len(),
                kept@ == ids@.take(i as int).filter(not_id(id)),
            decreases ids.len() - i,
        {
            let x = ids[i];
            if x != id {
                kept.push(x);
            }
            proof {
                assert(ids@.take(i + 1) =~= ids@.take(i as int).push(x));
                ids@.take(i as int).lemma_filter_push(x, not_id(id));
            }
            i = i + 1;
        }
        proof {
            assert(ids@.take(ids@.len() as int) =~= ids@);
        }
        map.insert(account, kept);
        proof {
            assert(ids_view(map@) =~= retain_others(old_m, account, id));
        }
    }

    /// Replaces the membership record of an existing member.
    fn put_membership(&mut self, member_id: u64, m: MembershipObject)
        requires
            old(self).wf(),
            old(self)@.memberships.contains_key(member_id),
            m@.root_account == old(self)@.memberships[member_id].root_account,
            m@.controller_account == old(self)@.memberships[member_id].controller_account,
        ensures
            final(self).wf(),
            final(self)@ == with_membership(old(self)@, member_id, m@),
    {
        let ghost old_v = self@;
        let ghost mv = m@;
        self.membership_by_id.insert(member_id, m);
        proof {
            assert(self@.memberships =~= old_v.memberships.insert(member_id, mv));
            assert(self@.member_ids_by_root_account_id =~= old_v.member_ids_by_root_account_id);
            assert(self@.member_ids_by_controller_account_id =~= old_v.member_ids_by_controller_account_id);
            assert(root_owners(self@) =~= root_owners(old_v));
            assert(controller_owners(self@) =~= controller_owners(old_v));
        }
    }

    /// Provided that the member exists, returns its membership; `MemberProfileNotFound`
    /// otherwise.
    pub fn ensure_membership(&self, member_id: u64) -> (r: Result<MembershipObject, MembershipError>)
        ensures
            match r {
                Ok(m) => self@.memberships.contains_key(member_id) && m@ == self@.memberships[member_id],
                Err(e) => !self@.memberships.contains_key(member_id) && e
                    == MembershipError::MemberProfileNotFound,
            },
    {
        self.ensure_membership_with_error(member_id, MembershipError::MemberProfileNotFound)
    }

    /// Provided that the member exists, returns its membership; the given error otherwise.
    pub fn ensure_membership_with_error(&self, member_id: u64, error: MembershipError) -> (r: Result<
        MembershipObject,
        MembershipError,
    >)
        ensures
            match r {
                Ok(m) => self@.memberships.contains_key(member_id) && m@ == self@.memberships[member_id],
                Err(e) => !self@.memberships.contains_key(member_id) && e == error,
            },
    {
        match self.membership_by_id.get(&member_id) {
            Some(m) => Ok(m.duplicate()),
            None => Err(error),
        }
    }

    /// Returns true if the account is either a member's root or controller account.
    pub fn is_member_account(&self, who: u64) -> (res: bool)
        requires
            self.wf(),
        ensures
            res == is_account_of_member(self@, who),
    {
        let ghost v = self@;
        let by_root = match self.member_ids_by_root_account_id.get(&who) {
            Some(ids) => ids.len() > 0,
            None => false,
        };
        let by_controller = match self.member_ids_by_controller_account_id.get(&who) {
            Some(ids) => ids.len() > 0,
            None => false,
        };
        proof {
            let rs = ids_of(v.member_ids_by_root_account_id, who);
            let cs = ids_of(v.member_ids_by_controller_account_id, who);
            assert(by_root == (rs.len() > 0));
            assert(by_controller == (cs.len() > 0));
            if rs.len() > 0 {
                assert(rs.contains(rs[0]));
                assert(v.memberships.contains_key(rs[0]));
            }
            if cs.len() > 0 {
                assert(cs.contains(cs[0]));
                assert(v.memberships.contains_key(cs[0]));
            }
            if is_account_of_member(v, who) {
                let id = choose|id: u64| #[trigger] v.memberships.contains_key(id) && (
                v.memberships[id].root_account == who || v.memberships[id].controller_account == who);
                if v.memberships[id].root_account == who {
                    assert(root_owners(v).contains_key(id) && root_owners(v)[id] == who);
                    assert(rs.contains(id));
                } else {
                    assert(controller_owners(v).contains_key(id) && controller_owners(v)[id] == who);
                    assert(cs.contains(id));
                }
            }
        }
        by_root || by_controller
    }

    /// Ensures a possible member handle hash is not registered yet.
    pub fn ensure_unique_handle_hash(&self, handle_hash: Vec<u8>) -> (r: Result<(), MembershipError>)
        requires
            self.wf(),
        ensures
            r is Ok <==> !self@.handles.contains_key(handle_hash@),
            r is Err ==> r == Err::<(), MembershipError>(MembershipError::HandleAlreadyRegistered),
    {
        match self.find_handle(&handle_hash) {
            Some(i) => {
                proof {
                    lemma_handles_map_entry(self.member_id_by_handle_hash@, i as int);
                }
                Err(MembershipError::HandleAlreadyRegistered)
            },
            None => Ok(()),
        }
    }

    /// Validates a handle and returns its hash: the handle must be given and not empty, and
    /// its hash must not be registered yet.
    pub fn get_handle_hash(&self, handle: Option<Vec<u8>>) -> (r: Result<Vec<u8>, MembershipError>)
        requires
            self.wf(),
        ensures
            match r {
                Ok(h) => handle_hash_check(self@, opt_view(handle)) == Ok::<Seq<u8>, MembershipError>(h@),
                Err(e) => handle_hash_check(self@, opt_view(handle)) == Err::<Seq<u8>, MembershipError>(e),
            },
            r is Ok <==> (handle matches Some(h) && h@.len() > 0
                && !self@.handles.contains_key(blake2_256_of(h@))),
            r matches Ok(x) ==> x@ == blake2_256_of(handle->0@),
    {
        let handle = match handle {
            Some(h) => h,
            None => return Err(MembershipError::HandleMustBeProvidedDuringRegistration),
        };
        if handle.len() == 0 {
            return Err(MembershipError::HandleMustBeProvidedDuringRegistration);
        }
        let handle_hash = hash_handle(&handle);
        let probe = handle_hash.clone();
        assert(probe@ =~= handle_hash@);
        match self.ensure_unique_handle_hash(probe) {
            Ok(()) => {},
            Err(e) => return Err(e),
        }
        Ok(handle_hash)
    }

    /// Inserts a member using validated information: its membership, the account indexes and
    /// its handle hash; the member gets the next member id.
    pub fn insert_member(
        &mut self,
        root_account: u64,
        controller_account: u64,
        handle_hash: Vec<u8>,
        allowed_invites: u32,
    ) -> (r: Result<u64, MembershipError>)
        requires
            old(self).wf(),
            old(self)@.next_member_id < u64::MAX,
        ensures
            final(self).wf(),
            r == Ok::<u64, MembershipError>(old(self)@.next_member_id),
            final(self)@.next_member_id == old(self)@.next_member_id + 1,
            final(self)@.memberships[old(self)@.next_member_id] == (MembershipView {
                handle_hash: handle_hash@,
                root_account,
                controller_account,
                verified: false,
                invites: allowed_invites,
                staking_account_ids: Map::empty(),
            }),
            final(self)@.handles[handle_hash@] == old(self)@.next_member_id,
            forall|id: u64| #[trigger] old(self)@.memberships.contains_key(id) ==> final(self)@.memberships[id]
                == old(self)@.memberships[id],
            final(self)@ == after_insert_member(
                old(self)@,
                root_account,
                controller_account,
                handle_hash@,
                allowed_invites,
            ),
    {
        let ghost old_v = self@;
        let new_member_id = self.next_member_id;
        let stored_hash = handle_hash.clone();
        assert(stored_hash@ =~= handle_hash@);
        let membership = MembershipObject {
            handle_hash: stored_hash,
            root_account,
            controller_account,
            verified: false,
            invites: allowed_invites,
            staking_account_ids: BTreeMap::new(),
        };
        let ghost mv = membership@;
        Self::push_member_id(&mut self.member_ids_by_root_account_id, root_account, new_member_id);
        Self::push_member_id(
            &mut self.member_ids_by_controller_account_id,
            controller_account,
            new_member_id,
        );
        self.membership_by_id.insert(new_member_id, membership);
        self.next_member_id = new_member_id + 1;
        proof {
            assert(mv == new_membership(handle_hash@, root_account, controller_account, allowed_invites));
            assert(self@.memberships =~= old_v.memberships.insert(new_member_id, mv));
            assert forall|id: u64| #[trigger] self@.memberships.contains_key(id) implies id
                < self@.next_member_id by {
                if id != new_member_id {
                    assert(old_v.memberships.contains_key(id));
                }
            }
            let target = after_insert_member(old_v, root_account, controller_account, handle_hash@, allowed_invites);
            lemma_insert_member_indexed(old_v, root_account, controller_account, handle_hash@, allowed_invites);
            assert(self@.memberships == target.memberships);
            assert(self@.member_ids_by_root_account_id == target.member_ids_by_root_account_id);
            assert(self@.member_ids_by_controller_account_id == target.member_ids_by_controller_account_id);
            assert(root_owners(self@) == root_owners(target));
            assert(controller_owners(self@) == controller_owners(target));
        }
        self.insert_handle(handle_hash, new_member_id);
        Ok(new_member_id)
    }

    /// Ensures that the given member has the given account as its controller account and
    /// returns its membership.
    pub fn ensure_is_controller_account_for_member(&self, member_id: &u64, account: &u64) -> (r:
        Result<MembershipObject, MembershipError>)
        ensures
            match r {
                Ok(m) => controller_account_check(self@, *member_id, *account) is Ok && m@
                    == self@.memberships[*member_id],
                Err(e) => controller_account_check(self@, *member_id, *account) == Err::<
                    (),
                    MembershipError,
                >(e),
            },
    {
        let membership = match self.membership_by_id.get(member_id) {
            Some(m) => m,
            None => return Err(MembershipError::MemberProfileNotFound),
        };
        if membership.controller_account != *account {
            return Err(MembershipError::ControllerAccountRequired);
        }
        Ok(membership.duplicate())
    }

    /// Ensures the origin is signed by the controller account of the member and returns its
    /// membership.
    pub fn ensure_member_controller_account_signed(&self, origin: RawOrigin, member_id: &u64) -> (r:
        Result<MembershipObject, MembershipError>)
        ensures
            match r {
                Ok(m) => controller_check(self@, origin, *member_id) is Ok && m@
                    == self@.memberships[*member_id],
                Err(e) => controller_check(self@, origin, *member_id) == Err::<(), MembershipError>(e),
            },
            r is Ok <==> (origin matches RawOrigin::Signed(who) && self@.memberships.contains_key(
                *member_id,
            ) && self@.memberships[*member_id].controller_account == who),
    {
        let signer_account_id = match ensure_signed(origin) {
            Ok(who) => who,
            Err(_) => return Err(MembershipError::UnsignedOrigin),
        };
        self.ensure_is_controller_account_for_member(member_id, &signer_account_id)
    }

    /// The current referral bonus: the minimum of the membership fee and the referral cut.
    pub fn get_referral_bonus(&self) -> (r: u64)
        ensures
            r == referral_bonus(self@),
            r <= self@.membership_price && r <= self@.referral_cut,
            r == self@.membership_price || r == self@.referral_cut,
    {
        let membership_fee = self.membership_price;
        let referral_cut = self.referral_cut;
        if membership_fee <= referral_cut {
            membership_fee
        } else {
            referral_cut
        }
    }

    /// The account is a confirmed staking account of an existing member.
    pub fn is_member_staking_account(&self, member_id: &u64, account_id: &u64) -> (res: bool)
        ensures
            res == (self@.memberships.contains_key(*member_id) && staking_confirmed(
                self@.memberships[*member_id],
                *account_id,
            )),
    {
        match self.ensure_membership(*member_id) {
            Ok(membership) => membership.staking_account_confirmed(account_id),
            Err(_) => false,
        }
    }

    /// Non-members can buy membership. `usable_balance` is the usable balance of the signing
    /// account.
    pub fn buy_membership(
        &mut self,
        origin: RawOrigin,
        params: BuyMembershipParameters,
        usable_balance: u64,
    ) -> (res: Result<BoughtMembership, DispatchError>)
        requires
            old(self).wf(),
            buy_membership_check(old(self)@, origin, opt_view(params.handle), params.referrer_id, usable_balance)
                is Ok ==> old(self)@.next_member_id < u64::MAX,
        ensures
            final(self).wf(),
            res is Ok <==> ({
                &&& origin is Signed
                &&& usable_balance >= old(self)@.membership_price
                &&& params.handle matches Some(h) && h@.len() > 0
                    && !old(self)@.handles.contains_key(blake2_256_of(h@))
                &&& params.referrer_id matches Some(r) ==> old(self)@.memberships.contains_key(r)
            }),
            res matches Ok(out) ==> {
                let new_member = final(self)@.memberships[out.member_id];
                &&& final(self)@.memberships.contains_key(out.member_id)
                &&& new_member.invites == old(self)@.initial_invitation_count
                &&& new_member.root_account == params.root_account
                &&& new_member.controller_account == params.controller_account
                &&& !new_member.verified
                &&& final(self)@.handles[new_member.handle_hash] == out.member_id
                &&& out.fee == old(self)@.membership_price
                &&& (params.referrer_id is Some && old(self)@.membership_price > 0
                    && old(self)@.referral_cut > 0 ==> out.referral_reward == Some(
                    (
                        old(self)@.memberships[params.referrer_id->0].controller_account,
                        if old(self)@.membership_price <= old(self)@.referral_cut {
                            old(self)@.membership_price
                        } else {
                            old(self)@.referral_cut
                        },
                    ),
                ))
                &&& (params.referrer_id is None || old(self)@.membership_price == 0
                    || old(self)@.referral_cut == 0) ==> out.referral_reward is None
            },
            match res {
                Ok(out) => {
                    &&& buy_membership_check(
                        old(self)@,
                        origin,
                        opt_view(params.handle),
                        params.referrer_id,
                        usable_balance,
                    ) matches Ok(h)
                    &&& final(self)@ == after_insert_member(
                        old(self)@,
                        params.root_account,
                        params.controller_account,
                        h,
                        old(self)@.initial_invitation_count,
                    )
                    &&& out.member_id == old(self)@.next_member_id
                    &&& origin == RawOrigin::Signed(out.fee_payer)
                    &&& out.fee == old(self)@.membership_price
                    &&& out.referral_reward == referral_reward(old(self)@, params.referrer_id)
                    &&& out.event == MembershipEvent::MemberRegistered(out.member_id)
                },
                Err(e) => {
                    &&& buy_membership_check(
                        old(self)@,
                        origin,
                        opt_view(params.handle),
                        params.referrer_id,
                        usable_balance,
                    ) == Err::<Seq<u8>, DispatchError>(e)
                    &&& final(self)@ == old(self)@
                },
            },
    {
        let who = match ensure_signed(origin) {
            Ok(w) => w,
            Err(e) => return Err(e),
        };
        let fee = self.membership_price;
        if usable_balance < fee {
            return Err(DispatchError::Membership(MembershipError::NotEnoughBalanceToBuyMembership));
        }
        let handle_hash = match self.get_handle_hash(params.handle) {
            Ok(h) => h,
            Err(e) => return Err(DispatchError::Membership(e)),
        };
        let referrer = match params.referrer_id {
            Some(referrer_id) => match self.ensure_membership_with_error(
                referrer_id,
                MembershipError::ReferrerIsNotMember,
            ) {
                Ok(m) => Some(m),
                Err(e) => return Err(DispatchError::Membership(e)),
            },
            None => None,
        };

        //
        // == MUTATION SAFE ==
        //

        let member_id = match self.insert_member(
            params.root_account,
            params.controller_account,
            handle_hash,
            self.initial_invitation_count,
        ) {
            Ok(id) => id,
            Err(e) => return Err(DispatchError::Membership(e)),
        };
        let referral_reward = match referrer {
            Some(referrer) => {
                let referral_cut = self.get_referral_bonus();
                if referral_cut > 0 {
                    Some((referrer.controller_account, referral_cut))
                } else {
                    None
                }
            },
            None => None,
        };
        Ok(BoughtMembership {
            member_id,
            fee_payer: who,
            fee,
            referral_reward,
            event: MembershipEvent::MemberRegistered(member_id),
        })
    }

    /// Updates the member's handle; the other profile fields are only kept in the
    /// transaction log. No effect if no field is given.
    pub fn update_profile(
        &mut self,
        origin: RawOrigin,
        member_id: u64,
        name: Option<Vec<u8>>,
        handle: Option<Vec<u8>>,
        avatar_uri: Option<Vec<u8>>,
        about: Option<Vec<u8>>,
    ) -> (res: Result<Option<MembershipEvent>, DispatchError>)
        requires
            old(self).wf(),
        ensures
            final(self).wf(),
            !(name is None && handle is None && avatar_uri is None && about is None) ==> (res is Ok
                <==> ({
                &&& origin matches RawOrigin::Signed(who)
                    && old(self)@.memberships.contains_key(member_id)
                    && old(self)@.memberships[member_id].controller_account == who
                &&& handle is Some ==> (handle->0)@.len() > 0
                    && !old(self)@.handles.contains_key(blake2_256_of((handle->0)@))
            })),
            (res is Ok && handle is Some) ==> {
                let new_hash = blake2_256_of((handle->0)@);
                &&& final(self)@.memberships[member_id].handle_hash == new_hash
                &&& final(self)@.handles[new_hash] == member_id
                &&& old(self)@.memberships[member_id].handle_hash != new_hash
                    ==> !final(self)@.handles.contains_key(old(self)@.memberships[member_id].handle_hash)
            },
            name is None && handle is None && avatar_uri is None && about is None ==> {
                &&& res == Ok::<Option<MembershipEvent>, DispatchError>(None)
                &&& final(self)@ == old(self)@
            },
            !(name is None && handle is None && avatar_uri is None && about is None) ==> match res {
                Ok(ev) => {
                    &&& update_profile_check(old(self)@, origin, member_id, opt_view(handle)) is Ok
                    &&& match handle {
                        Some(h) => {
                            &&& final(self)@ == after_update_handle(old(self)@, member_id, h@)
                            &&& ev == Some(MembershipEvent::MemberProfileUpdated(member_id))
                        },
                        None => final(self)@ == old(self)@ && ev is None,
                    }
                },
                Err(e) => {
                    &&& update_profile_check(old(self)@, origin, member_id, opt_view(handle))
                        == Err::<(), DispatchError>(e)
                    &&& final(self)@ == old(self)@
                },
            },
    {
        if name.is_none() && handle.is_none() && avatar_uri.is_none() && about.is_none() {
            return Ok(None);
        }
        let membership = match self.ensure_member_controller_account_signed(origin, &member_id) {
            Ok(m) => m,
            Err(e) => return Err(DispatchError::Membership(e)),
        };
        let new_handle_hash = match handle {
            Some(h) => match self.get_handle_hash(Some(h)) {
                Ok(hash) => Some(hash),
                Err(e) => return Err(DispatchError::Membership(e)),
            },
            None => None,
        };

        //
        // == MUTATION SAFE ==
        //

        match new_handle_hash {
            Some(new_handle_hash) => {
                let ghost old_v = self@;
                self.remove_handle(&membership.handle_hash);
                let mut updated = membership;
                let stored_hash = new_handle_hash.clone();
                assert(stored_hash@ =~= new_handle_hash@);
                updated.handle_hash = stored_hash;
                self.put_membership(member_id, updated);
                self.insert_handle(new_handle_hash, member_id);
                Ok(Some(MembershipEvent::MemberProfileUpdated(member_id)))
            },
            None => Ok(None),
        }
    }

    /// Updates the member's root or controller accounts (signed by the root account). No
    /// effect if both new accounts are empty.
    pub fn update_accounts(
        &mut self,
        origin: RawOrigin,
        member_id: u64,
        new_root_account: Option<u64>,
        new_controller_account: Option<u64>,
    ) -> (res: Result<Option<MembershipEvent>, DispatchError>)
        requires
            old(self).wf(),
        ensures
            final(self).wf(),
            !(new_root_account is None && new_controller_account is None) ==> (res is Ok <==> (
            origin matches RawOrigin::Signed(who) && old(self)@.memberships.contains_key(member_id)
                && old(self)@.memberships[member_id].root_account == who)),
            res is Ok ==> {
                &&& new_root_account matches Some(r) ==> final(self)@.memberships[member_id].root_account == r
                &&& new_controller_account matches Some(c) ==> final(self)@.memberships[member_id].controller_account == c
                &&& new_root_account is None ==> final(self)@.memberships[member_id].root_account
                    == old(self)@.memberships[member_id].root_account
                &&& new_controller_account is None ==> final(self)@.memberships[member_id].controller_account
                    == old(self)@.memberships[member_id].controller_account
            },
            new_root_account is None && new_controller_account is None ==> {
                &&& res == Ok::<Option<MembershipEvent>, DispatchError>(None)
                &&& final(self)@ == old(self)@
            },
            !(new_root_account is None && new_controller_account is None) ==> match res {
                Ok(ev) => {
                    &&& update_accounts_check(old(self)@, origin, member_id) is Ok
                    &&& final(self)@ == after_update_accounts(
                        old(self)@,
                        member_id,
                        new_root_account,
                        new_controller_account,
                    )
                    &&& ev == Some(MembershipEvent::MemberAccountsUpdated(member_id))
                },
                Err(e) => {
                    &&& update_accounts_check(old(self)@, origin, member_id) == Err::<
                        (),
                        DispatchError,
                    >(e)
                    &&& final(self)@ == old(self)@
                },
            },
    {
        if new_root_account.is_none() && new_controller_account.is_none() {
            return Ok(None);
        }
        let sender = match ensure_signed(origin) {
            Ok(w) => w,
            Err(e) => return Err(e),
        };
        let mut membership = match self.ensure_membership(member_id) {
            Ok(m) => m,
            Err(e) => return Err(DispatchError::Membership(e)),
        };
        if membership.root_account != sender {
            return Err(DispatchError::Membership(MembershipError::RootAccountRequired));
        }

        //
        // == MUTATION SAFE ==
        //

        let ghost old_v = self@;
        match new_root_account {
            Some(root_account) => {
                Self::retain_member_ids(
                    &mut self.member_ids_by_root_account_id,
                    membership.root_account,
                    member_id,
                );
                Self::push_member_id(&mut self.member_ids_by_root_account_id, root_account, member_id);
                membership.root_account = root_account;
            },
            None => {},
        }
        match new_controller_account {
            Some(controller_account) => {
                Self::retain_member_ids(
                    &mut self.member_ids_by_controller_account_id,
                    membership.controller_account,
                    member_id,
                );
                Self::push_member_id(
                    &mut self.member_ids_by_controller_account_id,
                    controller_account,
                    member_id,
                );
                membership.controller_account = controller_account;
            },
            None => {},
        }
        let ghost mv = membership@;
        self.membership_by_id.insert(member_id, membership);
        proof {
            assert(self@.memberships =~= old_v.memberships.insert(member_id, mv));
            assert(self@ == after_update_accounts(old_v, member_id, new_root_account, new_controller_account));
            lemma_update_accounts_indexed(old_v, member_id, new_root_account, new_controller_account);
        }
        Ok(Some(MembershipEvent::MemberAccountsUpdated(member_id)))
    }

    /// Updates member profile verification status. `worker_check` is the working group's
    /// answer on whether the origin is the given worker's.
    pub fn update_profile_verification(
        &mut self,
        worker_check: Result<(), DispatchError>,
        target_member_id: u64,
        is_verified: bool,
    ) -> (res: Result<MembershipEvent, DispatchError>)
        requires
            old(self).wf(),
        ensures
            final(self).wf(),
            match res {
                Ok(ev) => {
                    &&& worker_check is Ok
                    &&& old(self)@.memberships.contains_key(target_member_id)
                    &&& final(self)@ == with_membership(
                        old(self)@,
                        target_member_id,
                        MembershipView { verified: is_verified, ..old(self)@.memberships[target_member_id] },
                    )
                    &&& ev == MembershipEvent::MemberVerificationStatusUpdated(target_member_id, is_verified)
                },
                Err(e) => {
                    &&& match worker_check {
                        Err(w) => e == w,
                        Ok(()) => !old(self)@.memberships.contains_key(target_member_id) && e
                            == DispatchError::Membership(MembershipError::MemberProfileNotFound),
                    }
                    &&& final(self)@ == old(self)@
                },
            },
    {
        match worker_check {
            Ok(()) => {},
            Err(e) => return Err(e),
        }
        let mut membership = match self.ensure_membership(target_member_id) {
            Ok(m) => m,
            Err(e) => return Err(DispatchError::Membership(e)),
        };

        //
        // == MUTATION SAFE ==
        //

        membership.verified = is_verified;
        self.put_membership(target_member_id, membership);
        Ok(MembershipEvent::MemberVerificationStatusUpdated(target_member_id, is_verified))
    }

    /// Updates the membership referral cut (root only).
    pub fn set_referral_cut(&mut self, origin: RawOrigin, value: u64) -> (res: Result<
        MembershipEvent,
        DispatchError,
    >)
        requires
            old(self).wf(),
        ensures
            final(self).wf(),
            origin is Root ==> res == Ok::<MembershipEvent, DispatchError>(
                MembershipEvent::ReferralCutUpdated(value),
            ) && final(self)@ == (MembershipModuleView { referral_cut: value, ..old(self)@ }),
            !(origin is Root) ==> res == Err::<MembershipEvent, DispatchError>(DispatchError::BadOrigin)
                && final(self)@ == old(self)@,
    {
        match ensure_root(origin) {
            Ok(()) => {},
            Err(e) => return Err(e),
        }
        self.referral_cut = value;
        Ok(MembershipEvent::ReferralCutUpdated(value))
    }

    /// Transfers invites from one member to another.
    pub fn transfer_invites(
        &mut self,
        origin: RawOrigin,
        source_member_id: u64,
        target_member_id: u64,
        number_of_invites: u32,
    ) -> (res: Result<MembershipEvent, DispatchError>)
        requires
            old(self).wf(),
        ensures
            final(self).wf(),
            res is Ok <==> ({
                &&& origin matches RawOrigin::Signed(who)
                    && old(self)@.memberships.contains_key(source_member_id)
                    && old(self)@.memberships[source_member_id].controller_account == who
                &&& old(self)@.memberships.contains_key(target_member_id)
                &&& old(self)@.memberships[source_member_id].invites >= number_of_invites
            }),
            res is Ok && source_member_id != target_member_id ==> {
                &&& final(self)@.memberships[source_member_id].invites
                    == old(self)@.memberships[source_member_id].invites - number_of_invites
                &&& final(self)@.memberships[target_member_id].invites as int
                    == if old(self)@.memberships[target_member_id].invites + number_of_invites > u32::MAX {
                    u32::MAX as int
                } else {
                    old(self)@.memberships[target_member_id].invites + number_of_invites
                }
            },
            res is Ok && source_member_id == target_member_id ==> final(self)@.memberships[source_member_id].invites
                == old(self)@.memberships[source_member_id].invites,
            match res {
                Ok(ev) => {
                    &&& transfer_invites_check(
                        old(self)@,
                        origin,
                        source_member_id,
                        target_member_id,
                        number_of_invites,
                    ) is Ok
                    &&& final(self)@ == after_transfer_invites(
                        old(self)@,
                        source_member_id,
                        target_member_id,
                        number_of_invites,
                    )
                    &&& ev == MembershipEvent::InvitesTransferred(
                        source_member_id,
                        target_member_id,
                        number_of_invites,
                    )
                },
                Err(e) => {
                    &&& transfer_invites_check(
                        old(self)@,
                        origin,
                        source_member_id,
                        target_member_id,
                        number_of_invites,
                    ) == Err::<(), DispatchError>(e)
                    &&& final(self)@ == old(self)@
                },
            },
    {
        match self.ensure_member_controller_account_signed(origin, &source_member_id) {
            Ok(_) => {},
            Err(e) => return Err(DispatchError::Membership(e)),
        }
        let source_membership = match self.ensure_membership(source_member_id) {
            Ok(m) => m,
            Err(e) => return Err(DispatchError::Membership(e)),
        };
        match self.ensure_membership_with_error(
            target_member_id,
            MembershipError::CannotTransferInvitesForNotMember,
        ) {
            Ok(_) => {},
            Err(e) => return Err(DispatchError::Membership(e)),
        }
        if source_membership.invites < number_of_invites {
            return Err(DispatchError::Membership(MembershipError::NotEnoughInvites));
        }

        //
        // == MUTATION SAFE ==
        //

        let mut source = source_membership;
        source.invites = source.invites.saturating_sub(number_of_invites);
        self.put_membership(source_member_id, source);
        let mut target = match self.ensure_membership(target_member_id) {
            Ok(m) => m,
            Err(e) => return Err(DispatchError::Membership(e)),
        };
        target.invites = target.invites.saturating_add(number_of_invites);
        self.put_membership(target_member_id, target);
        Ok(MembershipEvent::InvitesTransferred(source_member_id, target_member_id, number_of_invites))
    }

    /// Invites a new member: the inviting member must have invites left. The inviter's invite
    /// count is left unchanged: the one invite deducted (saturating) is taken from the new
    /// member's count, which starts at zero and so stays zero.
    pub fn invite_member(&mut self, origin: RawOrigin, params: InviteMembershipParameters) -> (res:
        Result<(u64, MembershipEvent), DispatchError>)
        requires
            old(self).wf(),
            invite_member_check(old(self)@, origin, params.inviting_member_id, opt_view(params.handle))
                is Ok ==> old(self)@.next_member_id < u64::MAX,
        ensures
            final(self).wf(),
            res is Ok <==> ({
                &&& origin matches RawOrigin::Signed(who)
                    && old(self)@.memberships.contains_key(params.inviting_member_id)
                    && old(self)@.memberships[params.inviting_member_id].controller_account == who
                &&& old(self)@.memberships[params.inviting_member_id].invites > 0
                &&& params.handle matches Some(h) && h@.len() > 0
                    && !old(self)@.handles.contains_key(blake2_256_of(h@))
            }),
            (origin matches RawOrigin::Signed(who) && old(self)@.memberships.contains_key(
                params.inviting_member_id,
            ) && old(self)@.memberships[params.inviting_member_id].controller_account == who) ==> (
            res == Err::<(u64, MembershipEvent), DispatchError>(
                DispatchError::Membership(MembershipError::NotEnoughInvites),
            ) <==> old(self)@.memberships[params.inviting_member_id].invites == 0),
            res is Ok ==> {
                &&& final(self)@.memberships[params.inviting_member_id]
                    == old(self)@.memberships[params.inviting_member_id]
                &&& final(self)@.memberships.contains_key(old(self)@.next_member_id)
                &&& final(self)@.memberships[old(self)@.next_member_id].invites == 0
                &&& final(self)@.memberships[old(self)@.next_member_id].root_account
                    == params.root_account
                &&& final(self)@.memberships[old(self)@.next_member_id].controller_account
                    == params.controller_account
            },
            match res {
                Ok((member_id, ev)) => {
                    &&& invite_member_check(
                        old(self)@,
                        origin,
                        params.inviting_member_id,
                        opt_view(params.handle),
                    ) matches Ok(h)
                    &&& final(self)@ == after_insert_member(
                        old(self)@,
                        params.root_account,
                        params.controller_account,
                        h,
                        0,
                    )
                    &&& member_id == old(self)@.next_member_id
                    &&& ev == MembershipEvent::MemberRegistered(member_id)
                },
                Err(e) => {
                    &&& invite_member_check(
                        old(self)@,
                        origin,
                        params.inviting_member_id,
                        opt_view(params.handle),
                    ) == Err::<Seq<u8>, DispatchError>(e)
                    &&& final(self)@ == old(self)@
                },
            },
    {
        let membership = match self.ensure_member_controller_account_signed(
            origin,
            &params.inviting_member_id,
        ) {
            Ok(m) => m,
            Err(e) => return Err(DispatchError::Membership(e)),
        };
        if membership.invites == 0 {
            return Err(DispatchError::Membership(MembershipError::NotEnoughInvites));
        }
        let handle_hash = match self.get_handle_hash(params.handle) {
            Ok(h) => h,
            Err(e) => return Err(DispatchError::Membership(e)),
        };

        //
        // == MUTATION SAFE ==
        //

        let member_id = match self.insert_member(
            params.root_account,
            params.controller_account,
            handle_hash,
            0,
        ) {
            Ok(id) => id,
            Err(e) => return Err(DispatchError::Membership(e)),
        };
        let mut invited = match self.ensure_membership(member_id) {
            Ok(m) => m,
            Err(e) => return Err(DispatchError::Membership(e)),
        };
        let ghost before = self@;
        invited.invites = invited.invites.saturating_sub(1);
        proof {
            assert(invited@ == before.memberships[member_id]);
        }
        self.put_membership(member_id, invited);
        proof {
            assert(self@.memberships =~= before.memberships);
        }
        Ok((member_id, MembershipEvent::MemberRegistered(member_id)))
    }

    /// Updates the membership price (root only).
    pub fn set_membership_price(&mut self, origin: RawOrigin, new_price: u64) -> (res: Result<
        MembershipEvent,
        DispatchError,
    >)
        requires
            old(self).wf(),
        ensures
            final(self).wf(),
            origin is Root ==> res == Ok::<MembershipEvent, DispatchError>(
                MembershipEvent::MembershipPriceUpdated(new_price),
            ) && final(self)@ == (MembershipModuleView { membership_price: new_price, ..old(self)@ }),
            !(origin is Root) ==> res == Err::<MembershipEvent, DispatchError>(DispatchError::BadOrigin)
                && final(self)@ == old(self)@,
    {
        match ensure_root(origin) {
            Ok(()) => {},
            Err(e) => return Err(e),
        }
        self.membership_price = new_price;
        Ok(MembershipEvent::MembershipPriceUpdated(new_price))
    }

    /// Updates the invitation quota of the membership working group leader (root only).
    /// `leader_member_id` is the working group's leader member id, if there is a leader.
    pub fn set_leader_invitation_quota(
        &mut self,
        origin: RawOrigin,
        invitation_quota: u32,
        leader_member_id: Option<u64>,
    ) -> (res: Result<MembershipEvent, DispatchError>)
        requires
            old(self).wf(),
        ensures
            final(self).wf(),
            res is Ok <==> (origin is Root && leader_member_id is Some
                && old(self)@.memberships.contains_key(leader_member_id->0)),
            res is Ok ==> final(self)@.memberships[leader_member_id->0].invites == invitation_quota,
            match res {
                Ok(ev) => {
                    &&& leader_quota_check(old(self)@, origin, leader_member_id) matches Ok(l)
                    &&& final(self)@ == with_membership(
                        old(self)@,
                        l,
                        with_invites(old(self)@.memberships[l], invitation_quota),
                    )
                    &&& ev == MembershipEvent::LeaderInvitationQuotaUpdated(invitation_quota)
                },
                Err(e) => {
                    &&& leader_quota_check(old(self)@, origin, leader_member_id) == Err::<
                        u64,
                        DispatchError,
                    >(e)
                    &&& final(self)@ == old(self)@
                },
            },
    {
        match ensure_root(origin) {
            Ok(()) => {},
            Err(e) => return Err(e),
        }
        let member_id = match leader_member_id {
            Some(id) => id,
            None => return Err(DispatchError::Membership(MembershipError::WorkingGroupLeaderNotSet)),
        };
        let mut membership = match self.ensure_membership(member_id) {
            Ok(m) => m,
            Err(e) => return Err(DispatchError::Membership(e)),
        };

        //
        // == MUTATION SAFE ==
        //

        membership.invites = invitation_quota;
        self.put_membership(member_id, membership);
        Ok(MembershipEvent::LeaderInvitationQuotaUpdated(invitation_quota))
    }

    /// Updates the initial invitation balance for an invited member (root only).
    pub fn set_initial_invitation_balance(&mut self, origin: RawOrigin, new_initial_balance: u64) -> (res:
        Result<MembershipEvent, DispatchError>)
        requires
            old(self).wf(),
        ensures
            final(self).wf(),
            origin is Root ==> res == Ok::<MembershipEvent, DispatchError>(
                MembershipEvent::InitialInvitationBalanceUpdated(new_initial_balance),
            ) && final(self)@ == (MembershipModuleView {
                initial_invitation_balance: new_initial_balance,
                ..old(self)@
            }),
            !(origin is Root) ==> res == Err::<MembershipEvent, DispatchError>(DispatchError::BadOrigin)
                && final(self)@ == old(self)@,
    {
        match ensure_root(origin) {
            Ok(()) => {},
            Err(e) => return Err(e),
        }
        self.initial_invitation_balance = new_initial_balance;
        Ok(MembershipEvent::InitialInvitationBalanceUpdated(new_initial_balance))
    }

    /// Updates the initial invitation count of a bought membership (root only).
    pub fn set_initial_invitation_count(&mut self, origin: RawOrigin, new_invitation_count: u32) -> (res:
        Result<MembershipEvent, DispatchError>)
        requires
            old(self).wf(),
        ensures
            final(self).wf(),
            origin is Root ==> res == Ok::<MembershipEvent, DispatchError>(
                MembershipEvent::InitialInvitationCountUpdated(new_invitation_count),
            ) && final(self)@ == (MembershipModuleView {
                initial_invitation_count: new_invitation_count,
                ..old(self)@
            }),
            !(origin is Root) ==> res == Err::<MembershipEvent, DispatchError>(DispatchError::BadOrigin)
                && final(self)@ == old(self)@,
    {
        match ensure_root(origin) {
            Ok(()) => {},
            Err(e) => return Err(e),
        }
        self.initial_invitation_count = new_invitation_count;
        Ok(MembershipEvent::InitialInvitationCountUpdated(new_invitation_count))
    }

    /// Adds a staking account candidate for a member; its owner must confirm it before use.
    pub fn add_staking_account_candidate(
        &mut self,
        origin: RawOrigin,
        member_id: u64,
        staking_account_id: u64,
    ) -> (res: Result<MembershipEvent, DispatchError>)
        requires
            old(self).wf(),
        ensures
            final(self).wf(),
            res is Ok ==> {
                &&& origin matches RawOrigin::Signed(who)
                    && old(self)@.memberships.contains_key(member_id)
                    && old(self)@.memberships[member_id].controller_account == who
                &&& !old(self)@.memberships[member_id].staking_account_ids.contains_key(staking_account_id)
                &&& final(self)@.memberships[member_id].staking_account_ids
                    == old(self)@.memberships[member_id].staking_account_ids.insert(staking_account_id, false)
            },
            (origin matches RawOrigin::Signed(who) && old(self)@.memberships.contains_key(member_id)
                && old(self)@.memberships[member_id].controller_account == who
                && old(self)@.memberships[member_id].staking_account_ids.len()
                < old(self)@.staking_account_number_limit) ==> (res is Ok <==> !old(self)@.memberships[member_id].staking_account_ids.contains_key(staking_account_id)),
            match res {
                Ok(ev) => {
                    &&& add_staking_check(old(self)@, origin, member_id, staking_account_id) is Ok
                    &&& final(self)@ == after_staking(
                        old(self)@,
                        member_id,
                        old(self)@.memberships[member_id].staking_account_ids.insert(
                            staking_account_id,
                            false,
                        ),
                    )
                    &&& ev == MembershipEvent::StakingAccountAdded(member_id, staking_account_id)
                },
                Err(e) => {
                    &&& add_staking_check(old(self)@, origin, member_id, staking_account_id) == Err::<
                        (),
                        DispatchError,
                    >(e)
                    &&& final(self)@ == old(self)@
                },
            },
    {
        let mut membership = match self.ensure_member_controller_account_signed(origin, &member_id) {
            Ok(m) => m,
            Err(e) => return Err(DispatchError::Membership(e)),
        };
        if membership.staking_account_exists(&staking_account_id) {
            return Err(DispatchError::Membership(MembershipError::StakingAccountExists));
        }
        if membership.staking_account_count() >= self.staking_account_number_limit {
            return Err(DispatchError::Membership(MembershipError::MaximumStakingAccountNumberExceeded));
        }

        //
        // == MUTATION SAFE ==
        //

        membership.add_staking_account_candidate(staking_account_id);
        self.put_membership(member_id, membership);
        Ok(MembershipEvent::StakingAccountAdded(member_id, staking_account_id))
    }

    /// Removes a staking account of a member.
    pub fn remove_staking_account(
        &mut self,
        origin: RawOrigin,
        member_id: u64,
        staking_account_id: u64,
    ) -> (res: Result<MembershipEvent, DispatchError>)
        requires
            old(self).wf(),
        ensures
            final(self).wf(),
            res is Ok <==> ({
                &&& origin matches RawOrigin::Signed(who)
                    && old(self)@.memberships.contains_key(member_id)
                    && old(self)@.memberships[member_id].controller_account == who
                &&& old(self)@.memberships[member_id].staking_account_ids.contains_key(
                    staking_account_id,
                )
            }),
            res is Ok ==> {
                &&& final(self)@.memberships[member_id].staking_account_ids
                    == old(self)@.memberships[member_id].staking_account_ids.remove(staking_account_id)
                &&& final(self)@.memberships[member_id].controller_account
                    == old(self)@.memberships[member_id].controller_account
                &&& final(self)@.memberships[member_id].invites == old(self)@.memberships[member_id].invites
            },
            match res {
                Ok(ev) => {
                    &&& remove_staking_check(old(self)@, origin, member_id, staking_account_id) is Ok
                    &&& final(self)@ == after_staking(
                        old(self)@,
                        member_id,
                        old(self)@.memberships[member_id].staking_account_ids.remove(staking_account_id),
                    )
                    &&& ev == MembershipEvent::StakingAccountRemoved(member_id, staking_account_id)
                },
                Err(e) => {
                    &&& remove_staking_check(old(self)@, origin, member_id, staking_account_id)
                        == Err::<(), DispatchError>(e)
                    &&& final(self)@ == old(self)@
                },
            },
    {
        let mut membership = match self.ensure_member_controller_account_signed(origin, &member_id) {
            Ok(m) => m,
            Err(e) => return Err(DispatchError::Membership(e)),
        };
        if !membership.staking_account_exists(&staking_account_id) {
            return Err(DispatchError::Membership(MembershipError::StakingAccountDoesntExist));
        }

        //
        // == MUTATION SAFE ==
        //

        membership.remove_staking_account(staking_account_id);
        self.put_membership(member_id, membership);
        Ok(MembershipEvent::StakingAccountRemoved(member_id, staking_account_id))
    }

    /// Confirms a staking account candidate of a member; the staking account itself signs.
    pub fn confirm_staking_account(&mut self, origin: RawOrigin, member_id: u64) -> (res: Result<
        MembershipEvent,
        DispatchError,
    >)
        requires
            old(self).wf(),
        ensures
            final(self).wf(),
            res is Ok <==> (origin matches RawOrigin::Signed(who) && old(self)@.memberships.contains_key(
                member_id,
            ) && old(self)@.memberships[member_id].staking_account_ids.contains_key(who)),
            res is Ok ==> {
                &&& final(self)@.memberships[member_id].staking_account_ids.contains_key(origin->0)
                &&& final(self)@.memberships[member_id].staking_account_ids[origin->0]
            },
            match res {
                Ok(ev) => {
                    &&& confirm_staking_check(old(self)@, origin, member_id) matches Ok(who)
                    &&& final(self)@ == after_staking(
                        old(self)@,
                        member_id,
                        old(self)@.memberships[member_id].staking_account_ids.insert(who, true),
                    )
                    &&& ev == MembershipEvent::StakingAccountConfirmed(member_id, who)
                },
                Err(e) => {
                    &&& confirm_staking_check(old(self)@, origin, member_id) == Err::<u64, DispatchError>(e)
                    &&& final(self)@ == old(self)@
                },
            },
    {
        let staking_account_id = match ensure_signed(origin) {
            Ok(w) => w,
            Err(e) => return Err(e),
        };
        let mut membership = match self.ensure_membership(member_id) {
            Ok(m) => m,
            Err(e) => return Err(DispatchError::Membership(e)),
        };
        if !membership.staking_account_exists(&staking_account_id) {
            return Err(DispatchError::Membership(MembershipError::StakingAccountDoesntExist));
        }

        //
        // == MUTATION SAFE ==
        //

        membership.confirm_staking_account(staking_account_id);
        self.put_membership(member_id, membership);
        Ok(MembershipEvent::StakingAccountConfirmed(member_id, staking_account_id))
    }

    /// Builds the genesis storage: imports the members in order, each with a validated
    /// handle and no invitations. Returns `None` where the genesis build aborts: a member's
    /// handle is empty or taken, or the member does not get its declared id.
    pub fn build_genesis(config: MembershipConfig, members: &Vec<GenesisMember>) -> (r: Option<
        MembershipModule,
    >)
        ensures
            match r {
                Some(m) => m.wf() && genesis_state(config, members@) == Some(m@),
                None => genesis_state(config, members@) is None,
            },
    {
        let mut module = MembershipModule::new(config);
        let mut i: usize = 0;
        proof {
            assert(members@.take(0) =~= Seq::<GenesisMember>::empty());
            assert(module@ == initial_view(config));
        }
        while i < members.len()
            invariant
                i <= members@.len(),
                module.wf(),
                genesis_state(config, members@.take(i as int)) == Some(module@),
            decreases members.len() - i,
        {
            let member = &members[i];
            proof {
                assert(members@.take(i + 1).drop_last() =~= members@.take(i as int));
                assert(members@.take(i + 1).last() == *member);
            }
            let hd = member.handle.clone();
            assert(hd@ =~= member.handle@);
            let handle_hash = match module.get_handle_hash(Some(hd)) {
                Ok(h) => h,
                Err(_) => {
                    proof {
                        lemma_genesis_prefix_fails(config, members@, i as int + 1);
                    }
                    return None;
                },
            };
            if module.next_member_id == u64::MAX || member.member_id != module.next_member_id {
                proof {
                    lemma_genesis_prefix_fails(config, members@, i as int + 1);
                }
                return None;
            }
            match module.insert_member(member.root_account, member.controller_account, handle_hash, 0) {
                Ok(_) => {},
                Err(_) => return None,
            }
            i = i + 1;
        }
        proof {
            assert(members@.take(members@.len() as int) =~= members@);
        }
        Some(module)
    }
}

/// When the genesis build fails on a prefix of the members, it fails on all of them.
pub proof fn lemma_genesis_prefix_fails(config: MembershipConfig, members: Seq<GenesisMember>, n: int)
    requires
        0 <= n <= members.len(),
        genesis_state(config, members.take(n)) is None,
    ensures
        genesis_state(config, members) is None,
    decreases members.len() - n,
{
    if n < members.len() {
        assert(members.take(n + 1).drop_last() =~= members.take(n));
        lemma_genesis_prefix_fails(config, members, n + 1);
    } else {
        assert(members.take(n) =~= members);
    }
}

} // verus!