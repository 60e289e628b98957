//! Properties of the membership module that span its operations.
use vstd::prelude::*;
use crate::handle_hash::blake2_256_of;
use crate::origin::{RawOrigin, DispatchError};
use crate::membership::{
    MembershipConfig, MembershipError, MembershipModuleView, MembershipView, after_insert_member, initial_view,
    with_membership, buy_membership_check, invite_member_check, update_profile_check,
    after_transfer_invites, after_update_accounts, after_update_handle, handle_hash_check, ids_of,
    membership_view_wf, referral_bonus, staking_confirmed, with_staking, add_staking_check,
    remove_staking_check, after_staking,
};

verus! {

/// A new member gets the next member id, which no member had; the ids stay below the next
/// member id, and the member owns its handle hash.
pub proof fn lemma_insert_member_fresh(
    v: MembershipModuleView,
    root: u64,
    controller: u64,
    handle_hash: Seq<u8>,
    invites: u32,
)
    requires
        membership_view_wf(v),
        v.next_member_id < u64::MAX,
    ensures
        !v.memberships.contains_key(v.next_member_id),
        membership_view_wf(after_insert_member(v, root, controller, handle_hash, invites)),
        after_insert_member(v, root, controller, handle_hash, invites).handles[handle_hash]
            == v.next_member_id,
        after_insert_member(v, root, controller, handle_hash, invites).memberships[v.next_member_id].handle_hash
            == handle_hash,
        ids_of(
            after_insert_member(v, root, controller, handle_hash, invites).member_ids_by_root_account_id,
            root,
        ).last() == v.next_member_id,
        ids_of(
            after_insert_member(v, root, controller, handle_hash, invites).member_ids_by_controller_account_id,
            controller,
        ).last() == v.next_member_id,
{
    let w = after_insert_member(v, root, controller, handle_hash, invites);
    assert forall|id: u64| #[trigger] w.memberships.contains_key(id) implies id < w.next_member_id by {
        if id != v.next_member_id {
            assert(v.memberships.contains_key(id));
        }
    }
}

/// Handles are unique: once a member was registered with a handle, registering the same
/// handle again is refused with `HandleAlreadyRegistered`.
pub proof fn lemma_handle_taken_after_registration(
    v: MembershipModuleView,
    root: u64,
    controller: u64,
    handle: Seq<u8>,
    invites: u32,
)
    requires
        handle.len() > 0,
    ensures
        handle_hash_check(
            after_insert_member(v, root, controller, blake2_256_of(handle), invites),
            Some(handle),
        ) == Err::<Seq<u8>, MembershipError>(MembershipError::HandleAlreadyRegistered),
{
}

/// Changing a handle frees the old one (when it differs from the new hash) and registers
/// the new one for the member.
pub proof fn lemma_update_handle_moves_registration(v: MembershipModuleView, member_id: u64, handle: Seq<u8>)
    requires
        v.memberships.contains_key(member_id),
    ensures
        after_update_handle(v, member_id, handle).handles[blake2_256_of(handle)] == member_id,
        v.memberships[member_id].handle_hash != blake2_256_of(handle) ==> !after_update_handle(
            v,
            member_id,
            handle,
        ).handles.contains_key(v.memberships[member_id].handle_hash),
        after_update_handle(v, member_id, handle).memberships[member_id].handle_hash == blake2_256_of(
            handle,
        ),
{
}

/// Transferring invites between two different members keeps their sum, when the target's
/// count does not saturate.
pub proof fn lemma_transfer_invites_conserves(
    v: MembershipModuleView,
    source: u64,
    target: u64,
    n: u32,
)
    requires
        source != target,
        v.memberships.contains_key(source),
        v.memberships.contains_key(target),
        v.memberships[source].invites >= n,
        v.memberships[target].invites + n <= u32::MAX,
    ensures
        after_transfer_invites(v, source, target, n).memberships[source].invites
            + after_transfer_invites(v, source, target, n).memberships[target].invites
            == v.memberships[source].invites + v.memberships[target].invites,
        after_transfer_invites(v, source, target, n).memberships[source].invites
            == v.memberships[source].invites - n,
{
}

/// Transferring invites to oneself changes nothing.
pub proof fn lemma_transfer_invites_to_self(v: MembershipModuleView, member_id: u64, n: u32)
    requires
        v.memberships.contains_key(member_id),
        v.memberships[member_id].invites >= n,
    ensures
        after_transfer_invites(v, member_id, member_id, n).memberships[member_id].invites
            == v.memberships[member_id].invites,
{
}

/// A staking account candidate is not confirmed until it is confirmed, and is confirmed
/// afterwards.
pub proof fn lemma_candidate_then_confirm(m: MembershipView, account: u64)
    ensures
        !staking_confirmed(with_staking(m, m.staking_account_ids.insert(account, false)), account),
        staking_confirmed(
            with_staking(
                m,
                m.staking_account_ids.insert(account, false).insert(account, true),
            ),
            account,
        ),
{
}

/// Adding a staking account candidate that was not bound and removing it again restores the
/// staking accounts.
pub proof fn lemma_add_then_remove_staking(m: MembershipView, account: u64)
    requires
        !m.staking_account_ids.contains_key(account),
    ensures
        m.staking_account_ids.insert(account, false).remove(account) == m.staking_account_ids,
{
    assert(m.staking_account_ids.insert(account, false).remove(account) =~= m.staking_account_ids);
}

/// The referral bonus never exceeds the membership price nor the referral cut.
pub proof fn lemma_referral_bonus_bounded(v: MembershipModuleView)
    ensures
        referral_bonus(v) <= v.membership_price,
        referral_bonus(v) <= v.referral_cut,
        referral_bonus(v) == v.membership_price || referral_bonus(v) == v.referral_cut,
{
}

/// After the accounts are updated, the member is recorded last under its new root and
/// controller accounts.
pub proof fn lemma_update_accounts_indexes(
    v: MembershipModuleView,
    member_id: u64,
    new_root: Option<u64>,
    new_controller: Option<u64>,
)
    requires
        v.memberships.contains_key(member_id),
    ensures
        new_root matches Some(r) ==> ids_of(
            after_update_accounts(v, member_id, new_root, new_controller).member_ids_by_root_account_id,
            r,
        ).last() == member_id && after_update_accounts(
            v,
            member_id,
            new_root,
            new_controller,
        ).memberships[member_id].root_account == r,
        new_controller matches Some(c) ==> ids_of(
            after_update_accounts(v, member_id, new_root, new_controller).member_ids_by_controller_account_id,
            c,
        ).last() == member_id && after_update_accounts(
            v,
            member_id,
            new_root,
            new_controller,
        ).memberships[member_id].controller_account == c,
{
}

/// The handle registry and the memberships match one to one: every registered handle hash
/// belongs to an existing member whose handle hash it is, and every member's handle hash is
/// registered to it.
pub open spec fn registry_consistent(v: MembershipModuleView) -> bool {
    &&& forall|h: Seq<u8>| #[trigger] v.handles.contains_key(h) ==> v.memberships.contains_key(
        v.handles[h],
    ) && v.memberships[v.handles[h]].handle_hash == h
    &&& forall|id: u64| #[trigger] v.memberships.contains_key(id) ==> v.handles.contains_key(
        v.memberships[id].handle_hash,
    ) && v.handles[v.memberships[id].handle_hash] == id
}

/// A fresh module has a consistent (empty) registry.
pub proof fn lemma_initial_registry(config: MembershipConfig)
    ensures
        registry_consistent(initial_view(config)),
{
}

/// Inserting a member with an unregistered handle hash keeps the registry consistent.
pub proof fn lemma_insert_member_keeps_registry(
    v: MembershipModuleView,
    root: u64,
    controller: u64,
    handle_hash: Seq<u8>,
    invites: u32,
)
    requires
        membership_view_wf(v),
        registry_consistent(v),
        !v.handles.contains_key(handle_hash),
    ensures
        registry_consistent(after_insert_member(v, root, controller, handle_hash, invites)),
{
    let w = after_insert_member(v, root, controller, handle_hash, invites);
    let id = v.next_member_id;
    assert(!v.memberships.contains_key(id));
    assert forall|h: Seq<u8>| #[trigger] w.handles.contains_key(h) implies w.memberships.contains_key(
        w.handles[h],
    ) && w.memberships[w.handles[h]].handle_hash == h by {
        if h != handle_hash {
            assert(v.handles.contains_key(h));
            assert(v.memberships.contains_key(v.handles[h]));
        }
    }
    assert forall|i: u64| #[trigger] w.memberships.contains_key(i) implies w.handles.contains_key(
        w.memberships[i].handle_hash,
    ) && w.handles[w.memberships[i].handle_hash] == i by {
        if i != id {
            assert(v.memberships.contains_key(i));
            assert(v.memberships[i].handle_hash != handle_hash);
        }
    }
}

/// Changing a member's handle to an unregistered one keeps the registry consistent.
pub proof fn lemma_update_handle_keeps_registry(v: MembershipModuleView, member_id: u64, handle: Seq<u8>)
    requires
        registry_consistent(v),
        v.memberships.contains_key(member_id),
        !v.handles.contains_key(blake2_256_of(handle)),
    ensures
        registry_consistent(after_update_handle(v, member_id, handle)),
{
    let w = after_update_handle(v, member_id, handle);
    let old_hash = v.memberships[member_id].handle_hash;
    let new_hash = blake2_256_of(handle);
    assert forall|h: Seq<u8>| #[trigger] w.handles.contains_key(h) implies w.memberships.contains_key(
        w.handles[h],
    ) && w.memberships[w.handles[h]].handle_hash == h by {
        if h != new_hash {
            assert(h != old_hash);
            assert(v.handles.contains_key(h));
            assert(v.handles[h] != member_id);
        }
    }
    assert forall|i: u64| #[trigger] w.memberships.contains_key(i) implies w.handles.contains_key(
        w.memberships[i].handle_hash,
    ) && w.handles[w.memberships[i].handle_hash] == i by {
        if i != member_id {
            assert(v.memberships.contains_key(i));
            let hi = v.memberships[i].handle_hash;
            assert(v.handles[hi] == i);
            assert(hi != old_hash);
            assert(hi != new_hash);
        }
    }
}

/// Replacing a membership record without changing its handle hash (accounts, invites,
/// verification, staking accounts) keeps the registry consistent.
pub proof fn lemma_same_handle_keeps_registry(v: MembershipModuleView, member_id: u64, m: MembershipView)
    requires
        registry_consistent(v),
        v.memberships.contains_key(member_id),
        m.handle_hash == v.memberships[member_id].handle_hash,
    ensures
        registry_consistent(with_membership(v, member_id, m)),
        registry_consistent(MembershipModuleView { memberships: v.memberships.insert(member_id, m), ..v }),
{
    let w = with_membership(v, member_id, m);
    assert forall|h: Seq<u8>| #[trigger] w.handles.contains_key(h) implies w.memberships.contains_key(
        w.handles[h],
    ) && w.memberships[w.handles[h]].handle_hash == h by {
        assert(v.memberships.contains_key(v.handles[h]));
    }
    assert forall|i: u64| #[trigger] w.memberships.contains_key(i) implies w.handles.contains_key(
        w.memberships[i].handle_hash,
    ) && w.handles[w.memberships[i].handle_hash] == i by {
        assert(v.memberships.contains_key(i));
    }
}

/// A successful membership purchase, invitation or handle change keeps the registry
/// consistent.
pub proof fn lemma_registrations_keep_registry(
    v: MembershipModuleView,
    origin: RawOrigin,
    member_id: u64,
    handle: Seq<u8>,
    referrer_id: Option<u64>,
    usable_balance: u64,
    root: u64,
    controller: u64,
)
    requires
        membership_view_wf(v),
        registry_consistent(v),
    ensures
        buy_membership_check(v, origin, Some(handle), referrer_id, usable_balance) matches Ok(h)
            ==> registry_consistent(after_insert_member(v, root, controller, h, v.initial_invitation_count)),
        invite_member_check(v, origin, member_id, Some(handle)) matches Ok(h) ==> registry_consistent(
            after_insert_member(v, root, controller, h, 0),
        ),
        update_profile_check(v, origin, member_id, Some(handle)) is Ok ==> registry_consistent(
            after_update_handle(v, member_id, handle),
        ),
{
    if let Ok(h) = buy_membership_check(v, origin, Some(handle), referrer_id, usable_balance) {
        lemma_insert_member_keeps_registry(v, root, controller, h, v.initial_invitation_count);
    }
    if let Ok(h) = invite_member_check(v, origin, member_id, Some(handle)) {
        lemma_insert_member_keeps_registry(v, root, controller, h, 0);
    }
    if update_profile_check(v, origin, member_id, Some(handle)) is Ok {
        lemma_update_handle_keeps_registry(v, member_id, handle);
    }
}

/// Every member's handle hash is registered to it.
pub open spec fn members_own_their_handles(v: MembershipModuleView) -> bool {
    forall|id: u64| #[trigger] v.memberships.contains_key(id) ==> v.handles.contains_key(
        v.memberships[id].handle_hash,
    ) && v.handles[v.memberships[id].handle_hash] == id
}

/// Inserting a member with an unregistered handle hash keeps every member, the new one
/// included, the owner of its handle hash.
pub proof fn lemma_insert_member_keeps_handle_index(
    v: MembershipModuleView,
    root: u64,
    controller: u64,
    handle_hash: Seq<u8>,
    invites: u32,
)
    requires
        membership_view_wf(v),
        members_own_their_handles(v),
        !v.handles.contains_key(handle_hash),
    ensures
        members_own_their_handles(after_insert_member(v, root, controller, handle_hash, invites)),
{
    let w = after_insert_member(v, root, controller, handle_hash, invites);
    assert forall|i: u64| #[trigger] w.memberships.contains_key(i) implies w.handles.contains_key(
        w.memberships[i].handle_hash,
    ) && w.handles[w.memberships[i].handle_hash] == i by {
        if i != v.next_member_id {
            assert(v.memberships.contains_key(i));
            assert(v.memberships[i].handle_hash != handle_hash);
        }
    }
}

/// With the origin signed by the inviter's controller account, inviting is refused with
/// `NotEnoughInvites` exactly when the inviter has no invites left; an inviter with at least
/// one invite and a non-empty handle that nobody registered invites successfully, the new
/// member getting that handle's hash.
pub proof fn lemma_invite_needs_one_invite(
    v: MembershipModuleView,
    who: u64,
    inviting_member_id: u64,
    handle: Option<Seq<u8>>,
)
    requires
        v.memberships.contains_key(inviting_member_id),
        v.memberships[inviting_member_id].controller_account == who,
    ensures
        invite_member_check(v, RawOrigin::Signed(who), inviting_member_id, handle) == Err::<
            Seq<u8>,
            DispatchError,
        >(DispatchError::Membership(MembershipError::NotEnoughInvites)) <==> v.memberships[inviting_member_id].invites
            == 0,
        handle matches Some(h) && h.len() > 0 && !v.handles.contains_key(blake2_256_of(h))
            && v.memberships[inviting_member_id].invites > 0 ==> invite_member_check(
            v,
            RawOrigin::Signed(who),
            inviting_member_id,
            handle,
        ) == Ok::<Seq<u8>, DispatchError>(blake2_256_of(handle->0)),
{
}

/// With the origin signed by the member's controller account, removing a staking account
/// succeeds exactly when the account is bound to the membership, confirmed or not; so a
/// candidate that was just added, and not confirmed, can be taken back, which restores the
/// member's staking accounts.
pub proof fn lemma_remove_any_bound_staking_account(
    v: MembershipModuleView,
    who: u64,
    member_id: u64,
    staking_account_id: u64,
)
    requires
        v.memberships.contains_key(member_id),
        v.memberships[member_id].controller_account == who,
    ensures
        remove_staking_check(v, RawOrigin::Signed(who), member_id, staking_account_id) is Ok
            <==> v.memberships[member_id].staking_account_ids.contains_key(staking_account_id),
        add_staking_check(v, RawOrigin::Signed(who), member_id, staking_account_id) is Ok ==> ({
            let added = after_staking(
                v,
                member_id,
                v.memberships[member_id].staking_account_ids.insert(staking_account_id, false),
            );
            &&& !staking_confirmed(added.memberships[member_id], staking_account_id)
            &&& remove_staking_check(added, RawOrigin::Signed(who), member_id, staking_account_id) is Ok
            &&& after_staking(
                added,
                member_id,
                added.memberships[member_id].staking_account_ids.remove(staking_account_id),
            ).memberships[member_id].staking_account_ids == v.memberships[member_id].staking_account_ids
        }),
{
    let m = v.memberships[member_id];
    if !m.staking_account_ids.contains_key(staking_account_id) {
        assert(m.staking_account_ids.insert(staking_account_id, false).remove(staking_account_id)
            =~= m.staking_account_ids);
    }
}

} // verus!
