use joystream_pallets::codex::{
    CodexError, CodexSettings, ensure_text_proposal_valid, text_proposal_parameters,
    DEFAULT_TEXT_PROPOSAL_MAX_LEN,
};
use joystream_pallets::council_mock::{
    default_genesis_config, CouncilStage, InstanceMockUtils, OriginType, Runtime, USER_ADMIN,
    USER_REGULAR,
};
use joystream_pallets::governance_mock::Test;
use joystream_pallets::origin::{ensure_root, ensure_signed, DispatchError, RawOrigin};

#[test]
fn council_runtime_super_user() {
    assert!(Runtime::is_super_user(&USER_ADMIN));
    assert!(!Runtime::is_super_user(&USER_REGULAR));
}

#[test]
fn council_default_genesis() {
    let config = default_genesis_config();
    assert_eq!(config.stage, (CouncilStage::default(), 0));
    assert_eq!(config.stage.0, CouncilStage::Void);
}

#[test]
fn council_mock_origin() {
    assert_eq!(InstanceMockUtils::mock_origin(OriginType::Signed(5)), RawOrigin::Signed(5));
}

#[test]
fn governance_membership_config() {
    let c = Test::membership_config();
    assert_eq!(c.default_membership_price, 100);
    assert_eq!(c.default_initial_invitation_balance, 0);
    assert_eq!(c.staking_account_number_limit, 0);
}

#[test]
fn origins() {
    assert_eq!(ensure_root(RawOrigin::Root), Ok(()));
    assert_eq!(ensure_root(RawOrigin::Signed(1)), Err(DispatchError::BadOrigin));
    assert_eq!(ensure_signed(RawOrigin::Signed(3)), Ok(3));
    assert_eq!(ensure_signed(RawOrigin::Unsigned), Err(DispatchError::BadOrigin));
}

#[test]
fn text_proposal_rules() {
    assert_eq!(ensure_text_proposal_valid(&vec![], 10), Err(CodexError::TextProposalIsEmpty));
    assert_eq!(ensure_text_proposal_valid(&vec![1; 11], 10), Err(CodexError::TextProposalSizeExceeded));
    assert_eq!(ensure_text_proposal_valid(&vec![1; 10], 10), Ok(()));
    let p = text_proposal_parameters();
    assert_eq!(p.voting_period, 50000);
    assert_eq!(p.grace_period, 10000);
    assert_eq!(p.approval_quorum_percentage, 40);
    assert_eq!(p.approval_threshold_percentage, 51);
    assert_eq!(p.slashing_quorum_percentage, 80);
    assert_eq!(p.slashing_threshold_percentage, 80);
    assert_eq!(p.required_stake, Some(500));
    let settings = CodexSettings::default();
    assert_eq!(settings.text_max_len, DEFAULT_TEXT_PROPOSAL_MAX_LEN);
    let proposal = settings
        .create_text_proposal(b"title".to_vec(), b"body".to_vec(), b"text".to_vec(), Some(500))
        .unwrap();
    assert_eq!(proposal.parameters, p);
    assert_eq!(proposal.text, b"text".to_vec());
    assert_eq!(
        settings.create_text_proposal(b"t".to_vec(), b"b".to_vec(), vec![], None).unwrap_err(),
        CodexError::TextProposalIsEmpty
    );
}
