use joystream_pallets::membership::{
    BuyMembershipParameters, GenesisMember, InviteMembershipParameters, MembershipConfig,
    MembershipError, MembershipEvent, MembershipModule, MembershipObject, DEFAULT_MEMBER_INVITES_COUNT,
};
use joystream_pallets::origin::{DispatchError, RawOrigin};

const ALICE_HASH: [u8; 32] = [
    225, 29, 129, 73, 121, 55, 44, 136, 59, 80, 189, 176, 255, 173, 177, 234, 240, 137, 139, 245,
    79, 212, 251, 242, 152, 175, 18, 111, 186, 187, 218, 76,
];

fn config() -> MembershipConfig {
    MembershipConfig {
        default_membership_price: 100,
        default_initial_invitation_balance: 0,
        staking_account_number_limit: 2,
    }
}

fn buy_params(account: u64, handle: &[u8]) -> BuyMembershipParameters {
    BuyMembershipParameters {
        root_account: account,
        controller_account: account + 100,
        handle: Some(handle.to_vec()),
        ..Default::default()
    }
}

fn merr(e: MembershipError) -> DispatchError {
    DispatchError::Membership(e)
}

#[test]
fn buy_membership_registers_member_with_hashed_handle() {
    let mut m = MembershipModule::new(config());
    let out = m.buy_membership(RawOrigin::Signed(1), buy_params(1, b"alice"), 100).unwrap();
    assert_eq!(out.member_id, 0);
    assert_eq!(out.fee_payer, 1);
    assert_eq!(out.fee, 100);
    assert_eq!(out.referral_reward, None);
    assert_eq!(out.event, MembershipEvent::MemberRegistered(0));
    let membership = m.membership(0).unwrap();
    assert_eq!(membership.handle_hash, ALICE_HASH.to_vec());
    assert_eq!(membership.root_account, 1);
    assert_eq!(membership.controller_account, 101);
    assert_eq!(membership.invites, DEFAULT_MEMBER_INVITES_COUNT);
    assert!(!membership.verified);
    assert_eq!(m.handles(&ALICE_HASH.to_vec()), Some(0));
    assert_eq!(m.members_created(), 1);
    assert!(m.is_member_account(1));
    assert!(m.is_member_account(101));
    assert!(!m.is_member_account(2));
    assert_eq!(m.member_ids_by_root_account_id(1), vec![0]);
    assert_eq!(m.member_ids_by_controller_account_id(101), vec![0]);
}

#[test]
fn buy_membership_errors() {
    let mut m = MembershipModule::new(config());
    assert_eq!(
        m.buy_membership(RawOrigin::Root, buy_params(1, b"alice"), 100).unwrap_err(),
        DispatchError::BadOrigin
    );
    assert_eq!(
        m.buy_membership(RawOrigin::Signed(1), buy_params(1, b"alice"), 99).unwrap_err(),
        merr(MembershipError::NotEnoughBalanceToBuyMembership)
    );
    let no_handle = BuyMembershipParameters { handle: None, ..buy_params(1, b"") };
    assert_eq!(
        m.buy_membership(RawOrigin::Signed(1), no_handle, 100).unwrap_err(),
        merr(MembershipError::HandleMustBeProvidedDuringRegistration)
    );
    assert_eq!(
        m.buy_membership(RawOrigin::Signed(1), buy_params(1, b""), 100).unwrap_err(),
        merr(MembershipError::HandleMustBeProvidedDuringRegistration)
    );
    let bad_referrer = BuyMembershipParameters { referrer_id: Some(7), ..buy_params(1, b"alice") };
    assert_eq!(
        m.buy_membership(RawOrigin::Signed(1), bad_referrer, 100).unwrap_err(),
        merr(MembershipError::ReferrerIsNotMember)
    );
    assert!(m.buy_membership(RawOrigin::Signed(1), buy_params(1, b"alice"), 100).is_ok());
    assert_eq!(
        m.buy_membership(RawOrigin::Signed(2), buy_params(2, b"alice"), 100).unwrap_err(),
        merr(MembershipError::HandleAlreadyRegistered)
    );
    assert_eq!(m.members_created(), 1);
}

#[test]
fn referral_reward_is_min_of_price_and_cut() {
    let mut m = MembershipModule::new(config());
    m.buy_membership(RawOrigin::Signed(1), buy_params(1, b"alice"), 100).unwrap();
    // No cut: no reward.
    let p = BuyMembershipParameters { referrer_id: Some(0), ..buy_params(2, b"bob") };
    assert_eq!(m.buy_membership(RawOrigin::Signed(2), p, 100).unwrap().referral_reward, None);
    assert_eq!(m.set_referral_cut(RawOrigin::Root, 30), Ok(MembershipEvent::ReferralCutUpdated(30)));
    assert_eq!(m.get_referral_bonus(), 30);
    let p = BuyMembershipParameters { referrer_id: Some(0), ..buy_params(3, b"carol") };
    assert_eq!(m.buy_membership(RawOrigin::Signed(3), p, 100).unwrap().referral_reward, Some((101, 30)));
    assert_eq!(m.set_referral_cut(RawOrigin::Root, 1000), Ok(MembershipEvent::ReferralCutUpdated(1000)));
    assert_eq!(m.get_referral_bonus(), 100);
    assert_eq!(m.set_referral_cut(RawOrigin::Signed(1), 5), Err(DispatchError::BadOrigin));
    assert_eq!(m.referral_cut(), 1000);
}

#[test]
fn update_profile_changes_the_handle() {
    let mut m = MembershipModule::new(config());
    m.buy_membership(RawOrigin::Signed(1), buy_params(1, b"alice"), 100).unwrap();
    m.buy_membership(RawOrigin::Signed(2), buy_params(2, b"bob"), 100).unwrap();
    // No fields: no effect, even with a bad origin.
    assert_eq!(m.update_profile(RawOrigin::Root, 0, None, None, None, None), Ok(None));
    // Only the controller account may update the profile.
    assert_eq!(
        m.update_profile(RawOrigin::Signed(1), 0, None, Some(b"x".to_vec()), None, None),
        Err(merr(MembershipError::ControllerAccountRequired))
    );
    assert_eq!(
        m.update_profile(RawOrigin::Unsigned, 0, None, Some(b"x".to_vec()), None, None),
        Err(merr(MembershipError::UnsignedOrigin))
    );
    assert_eq!(
        m.update_profile(RawOrigin::Signed(101), 5, None, Some(b"x".to_vec()), None, None),
        Err(merr(MembershipError::MemberProfileNotFound))
    );
    assert_eq!(
        m.update_profile(RawOrigin::Signed(101), 0, None, Some(b"bob".to_vec()), None, None),
        Err(merr(MembershipError::HandleAlreadyRegistered))
    );
    // Name only: accepted, nothing stored.
    assert_eq!(m.update_profile(RawOrigin::Signed(101), 0, Some(b"Al".to_vec()), None, None, None), Ok(None));
    assert_eq!(
        m.update_profile(RawOrigin::Signed(101), 0, None, Some(b"alicia".to_vec()), None, None),
        Ok(Some(MembershipEvent::MemberProfileUpdated(0)))
    );
    assert_eq!(m.handles(&ALICE_HASH.to_vec()), None);
    let new_hash = m.membership(0).unwrap().handle_hash.clone();
    assert_ne!(new_hash, ALICE_HASH.to_vec());
    assert_eq!(m.handles(&new_hash), Some(0));
    // The freed handle can be registered again.
    assert!(m.buy_membership(RawOrigin::Signed(3), buy_params(3, b"alice"), 100).is_ok());
}

#[test]
fn update_accounts_moves_the_indexes() {
    let mut m = MembershipModule::new(config());
    m.buy_membership(RawOrigin::Signed(1), buy_params(1, b"alice"), 100).unwrap();
    assert_eq!(m.update_accounts(RawOrigin::Signed(1), 0, None, None), Ok(None));
    assert_eq!(m.update_accounts(RawOrigin::Root, 0, Some(5), None), Err(DispatchError::BadOrigin));
    assert_eq!(
        m.update_accounts(RawOrigin::Signed(1), 3, Some(5), None),
        Err(merr(MembershipError::MemberProfileNotFound))
    );
    assert_eq!(
        m.update_accounts(RawOrigin::Signed(101), 0, Some(5), None),
        Err(merr(MembershipError::RootAccountRequired))
    );
    assert_eq!(
        m.update_accounts(RawOrigin::Signed(1), 0, Some(5), Some(6)),
        Ok(Some(MembershipEvent::MemberAccountsUpdated(0)))
    );
    let membership = m.membership(0).unwrap();
    assert_eq!(membership.root_account, 5);
    assert_eq!(membership.controller_account, 6);
    assert_eq!(m.member_ids_by_root_account_id(1), Vec::<u64>::new());
    assert_eq!(m.member_ids_by_root_account_id(5), vec![0]);
    assert_eq!(m.member_ids_by_controller_account_id(101), Vec::<u64>::new());
    assert_eq!(m.member_ids_by_controller_account_id(6), vec![0]);
    // The replaced accounts no longer belong to a member.
    assert!(!m.is_member_account(1));
    assert!(!m.is_member_account(101));
    assert!(m.is_member_account(5));
    assert!(m.is_member_account(6));
}

#[test]
fn transfer_invites_between_members() {
    let mut m = MembershipModule::new(config());
    m.buy_membership(RawOrigin::Signed(1), buy_params(1, b"alice"), 100).unwrap();
    m.buy_membership(RawOrigin::Signed(2), buy_params(2, b"bob"), 100).unwrap();
    assert_eq!(
        m.transfer_invites(RawOrigin::Signed(101), 0, 9, 1),
        Err(merr(MembershipError::CannotTransferInvitesForNotMember))
    );
    assert_eq!(m.transfer_invites(RawOrigin::Signed(101), 0, 1, 6), Err(merr(MembershipError::NotEnoughInvites)));
    assert_eq!(
        m.transfer_invites(RawOrigin::Signed(102), 0, 1, 1),
        Err(merr(MembershipError::ControllerAccountRequired))
    );
    assert_eq!(
        m.transfer_invites(RawOrigin::Signed(101), 0, 1, 3),
        Ok(MembershipEvent::InvitesTransferred(0, 1, 3))
    );
    assert_eq!(m.membership(0).unwrap().invites, 2);
    assert_eq!(m.membership(1).unwrap().invites, 8);
    // To oneself: nothing changes.
    assert_eq!(
        m.transfer_invites(RawOrigin::Signed(101), 0, 0, 2),
        Ok(MembershipEvent::InvitesTransferred(0, 0, 2))
    );
    assert_eq!(m.membership(0).unwrap().invites, 2);
}

#[test]
fn invite_member_needs_invites() {
    let mut m = MembershipModule::new(config());
    m.buy_membership(RawOrigin::Signed(1), buy_params(1, b"alice"), 100).unwrap();
    let params = InviteMembershipParameters {
        inviting_member_id: 0,
        root_account: 7,
        controller_account: 8,
        handle: Some(b"dave".to_vec()),
        ..Default::default()
    };
    let (id, ev) = m.invite_member(RawOrigin::Signed(101), params).unwrap();
    assert_eq!(id, 1);
    assert_eq!(ev, MembershipEvent::MemberRegistered(1));
    assert_eq!(m.membership(1).unwrap().invites, 0);
    assert_eq!(m.membership(1).unwrap().root_account, 7);
    let params = InviteMembershipParameters {
        inviting_member_id: 1,
        root_account: 9,
        controller_account: 9,
        handle: Some(b"erin".to_vec()),
        ..Default::default()
    };
    assert_eq!(m.invite_member(RawOrigin::Signed(8), params).unwrap_err(), merr(MembershipError::NotEnoughInvites));
}

#[test]
fn staking_accounts_lifecycle() {
    let mut m = MembershipModule::new(config());
    m.buy_membership(RawOrigin::Signed(1), buy_params(1, b"alice"), 100).unwrap();
    assert_eq!(
        m.add_staking_account_candidate(RawOrigin::Signed(101), 0, 50),
        Ok(MembershipEvent::StakingAccountAdded(0, 50))
    );
    assert_eq!(
        m.add_staking_account_candidate(RawOrigin::Signed(101), 0, 50),
        Err(merr(MembershipError::StakingAccountExists))
    );
    assert!(!m.is_member_staking_account(&0, &50));
    assert_eq!(
        m.confirm_staking_account(RawOrigin::Signed(51), 0),
        Err(merr(MembershipError::StakingAccountDoesntExist))
    );
    assert_eq!(m.confirm_staking_account(RawOrigin::Signed(50), 0), Ok(MembershipEvent::StakingAccountConfirmed(0, 50)));
    assert!(m.is_member_staking_account(&0, &50));
    assert!(!m.is_member_staking_account(&1, &50));
    assert_eq!(m.add_staking_account_candidate(RawOrigin::Signed(101), 0, 51), Ok(MembershipEvent::StakingAccountAdded(0, 51)));
    assert_eq!(
        m.add_staking_account_candidate(RawOrigin::Signed(101), 0, 52),
        Err(merr(MembershipError::MaximumStakingAccountNumberExceeded))
    );
    assert_eq!(m.membership(0).unwrap().staking_account_count(), 2);
    assert_eq!(
        m.remove_staking_account(RawOrigin::Signed(101), 0, 50),
        Ok(MembershipEvent::StakingAccountRemoved(0, 50))
    );
    assert_eq!(
        m.remove_staking_account(RawOrigin::Signed(101), 0, 50),
        Err(merr(MembershipError::StakingAccountDoesntExist))
    );
    assert!(!m.is_member_staking_account(&0, &50));
    assert_eq!(m.confirm_staking_account(RawOrigin::Root, 0), Err(DispatchError::BadOrigin));
}

#[test]
fn membership_object_staking_methods() {
    let mut o = MembershipObject::default();
    o.add_staking_account_candidate(3);
    assert!(o.staking_account_exists(&3));
    assert!(!o.staking_account_confirmed(&3));
    o.confirm_staking_account(4);
    assert!(!o.staking_account_exists(&4));
    o.confirm_staking_account(3);
    assert!(o.staking_account_confirmed(&3));
    assert_eq!(o.staking_account_count(), 1);
    o.remove_staking_account(3);
    assert!(!o.staking_account_exists(&3));
    assert_eq!(o.staking_account_count(), 0);
}

#[test]
fn root_settings_and_verification() {
    let mut m = MembershipModule::new(config());
    m.buy_membership(RawOrigin::Signed(1), buy_params(1, b"alice"), 100).unwrap();
    assert_eq!(m.set_membership_price(RawOrigin::Root, 7), Ok(MembershipEvent::MembershipPriceUpdated(7)));
    assert_eq!(m.membership_price(), 7);
    assert_eq!(
        m.set_initial_invitation_balance(RawOrigin::Root, 9),
        Ok(MembershipEvent::InitialInvitationBalanceUpdated(9))
    );
    assert_eq!(m.initial_invitation_balance(), 9);
    assert_eq!(
        m.set_initial_invitation_count(RawOrigin::Root, 2),
        Ok(MembershipEvent::InitialInvitationCountUpdated(2))
    );
    assert_eq!(m.initial_invitation_count(), 2);
    assert_eq!(m.set_membership_price(RawOrigin::Signed(1), 8), Err(DispatchError::BadOrigin));
    assert_eq!(
        m.set_leader_invitation_quota(RawOrigin::Root, 10, None),
        Err(merr(MembershipError::WorkingGroupLeaderNotSet))
    );
    assert_eq!(
        m.set_leader_invitation_quota(RawOrigin::Root, 10, Some(4)),
        Err(merr(MembershipError::MemberProfileNotFound))
    );
    assert_eq!(
        m.set_leader_invitation_quota(RawOrigin::Root, 10, Some(0)),
        Ok(MembershipEvent::LeaderInvitationQuotaUpdated(10))
    );
    assert_eq!(m.membership(0).unwrap().invites, 10);
    assert_eq!(
        m.update_profile_verification(Ok(()), 0, true),
        Ok(MembershipEvent::MemberVerificationStatusUpdated(0, true))
    );
    assert!(m.membership(0).unwrap().verified);
    assert_eq!(
        m.update_profile_verification(Ok(()), 3, true),
        Err(merr(MembershipError::MemberProfileNotFound))
    );
    assert_eq!(m.update_profile_verification(Err(DispatchError::BadOrigin), 0, false), Err(DispatchError::BadOrigin));
}

#[test]
fn controller_checks() {
    let mut m = MembershipModule::new(config());
    m.buy_membership(RawOrigin::Signed(1), buy_params(1, b"alice"), 100).unwrap();
    assert!(m.ensure_is_controller_account_for_member(&0, &101).is_ok());
    assert_eq!(
        m.ensure_is_controller_account_for_member(&0, &1).unwrap_err(),
        MembershipError::ControllerAccountRequired
    );
    assert_eq!(
        m.ensure_is_controller_account_for_member(&1, &101).unwrap_err(),
        MembershipError::MemberProfileNotFound
    );
    assert_eq!(
        m.ensure_member_controller_account_signed(RawOrigin::Root, &0).unwrap_err(),
        MembershipError::UnsignedOrigin
    );
    assert_eq!(m.ensure_membership(0).unwrap().controller_account, 101);
    assert_eq!(m.ensure_membership(1).unwrap_err(), MembershipError::MemberProfileNotFound);
    assert_eq!(
        m.ensure_membership_with_error(1, MembershipError::ReferrerIsNotMember).unwrap_err(),
        MembershipError::ReferrerIsNotMember
    );
}

#[test]
fn handle_hash_is_blake2_256() {
    let m = MembershipModule::new(config());
    assert_eq!(m.get_handle_hash(Some(b"alice".to_vec())), Ok(ALICE_HASH.to_vec()));
    assert_eq!(m.get_handle_hash(None), Err(MembershipError::HandleMustBeProvidedDuringRegistration));
    assert_eq!(m.ensure_unique_handle_hash(ALICE_HASH.to_vec()), Ok(()));
}

#[test]
fn insert_member_assigns_next_id() {
    let mut m = MembershipModule::new(config());
    assert_eq!(m.insert_member(1, 2, vec![9, 9], 3), Ok(0));
    assert_eq!(m.insert_member(1, 4, vec![8], 0), Ok(1));
    assert_eq!(m.members_created(), 2);
    assert_eq!(m.member_ids_by_root_account_id(1), vec![0, 1]);
    assert_eq!(m.handles(&vec![9, 9]), Some(0));
    assert_eq!(m.ensure_unique_handle_hash(vec![8]), Err(MembershipError::HandleAlreadyRegistered));
}

#[test]
fn genesis_imports_members_in_order() {
    let members: Vec<GenesisMember> = (0..20u64)
        .map(|i| GenesisMember {
            member_id: i,
            root_account: i + 1,
            controller_account: i + 1,
            handle: format!("handle{}", i).into_bytes(),
        })
        .collect();
    let m = MembershipModule::build_genesis(config(), &members).unwrap();
    assert_eq!(m.members_created(), 20);
    assert_eq!(m.membership(19).unwrap().root_account, 20);
    assert_eq!(m.membership(3).unwrap().invites, 0);
    let bad = vec![GenesisMember { member_id: 1, root_account: 1, controller_account: 1, handle: b"x".to_vec() }];
    assert!(MembershipModule::build_genesis(config(), &bad).is_none());
    let dup = vec![
        GenesisMember { member_id: 0, root_account: 1, controller_account: 1, handle: b"x".to_vec() },
        GenesisMember { member_id: 1, root_account: 2, controller_account: 2, handle: b"x".to_vec() },
    ];
    assert!(MembershipModule::build_genesis(config(), &dup).is_none());
}
