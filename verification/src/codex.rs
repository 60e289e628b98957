//! The proposals codex: preset proposal types and the rules a proposal of each type must
//! follow before it is handed to the proposals engine.
use vstd::prelude::*;

verus! {

/// Default maximum length of a text proposal's text.
pub const DEFAULT_TEXT_PROPOSAL_MAX_LEN: u32 = 20_000;

/// Default maximum length of a runtime upgrade proposal's wasm code.
pub const DEFAULT_RUNTIME_PROPOSAL_WASM_MAX_LEN: u32 = 20_000;

/// Voting and staking parameters of a proposal.
#[derive(Clone, Copy, Debug, PartialEq, Eq, Structural)]
pub struct ProposalParameters {
    /// During this period, votes can be accepted.
    pub voting_period: u64,
    /// Period after the approval before the proposal is executed.
    pub grace_period: u64,
    /// Quorum percentage of approving voters required to pass the proposal.
    pub approval_quorum_percentage: u32,
    /// Approving votes percentage threshold to pass the proposal.
    pub approval_threshold_percentage: u32,
    /// Quorum percentage of voters required to slash the proposal.
    pub slashing_quorum_percentage: u32,
    /// Slashing votes percentage threshold to slash the proposal.
    pub slashing_threshold_percentage: u32,
    /// Proposal stake.
    pub required_stake: Option<u64>,
}

/// Errors of the proposals codex.
#[derive(Clone, Copy, Debug, PartialEq, Eq, Structural)]
pub enum CodexError {
    /// The text of a text proposal is empty.
    TextProposalIsEmpty,
    /// The text of a text proposal is longer than allowed.
    TextProposalSizeExceeded,
}

/// The storage of the codex: the length limits.
#[derive(Clone, Copy, Debug, PartialEq, Eq, Structural)]
pub struct CodexSettings {
    /// Defines max allowed text proposal text length.
    pub text_max_len: u32,
    /// Defines max allowed runtime upgrade proposal wasm code length.
    pub wasm_max_len: u32,
}

impl Default for CodexSettings {
    fn default() -> (r: Self)
        ensures
            r.text_max_len == DEFAULT_TEXT_PROPOSAL_MAX_LEN,
            r.wasm_max_len == DEFAULT_RUNTIME_PROPOSAL_WASM_MAX_LEN,
    {
        CodexSettings {
            text_max_len: DEFAULT_TEXT_PROPOSAL_MAX_LEN,
            wasm_max_len: DEFAULT_RUNTIME_PROPOSAL_WASM_MAX_LEN,
        }
    }
}

/// The parameters every text proposal is created with.
pub open spec fn text_proposal_parameters_spec() -> ProposalParameters {
    ProposalParameters {
        voting_period: 50000,
        grace_period: 10000,
        approval_quorum_percentage: 40,
        approval_threshold_percentage: 51,
        slashing_quorum_percentage: 80,
        slashing_threshold_percentage: 80,
        required_stake: Some(500),
    }
}

/// The parameters every text proposal is created with.
pub fn text_proposal_parameters() -> (p: ProposalParameters)
    ensures
        p == text_proposal_parameters_spec(),
{
    ProposalParameters {
        voting_period: 50000,
        grace_period: 10000,
        approval_quorum_percentage: 40,
        approval_threshold_percentage: 51,
        slashing_quorum_percentage: 80,
        slashing_threshold_percentage: 80,
        required_stake: Some(500),
    }
}

/// The rule on a text proposal's text: not empty, and its length (taken as a 32-bit
/// number) within the limit.
pub open spec fn text_proposal_check(text: Seq<u8>, text_max_len: u32) -> Result<(), CodexError> {
    if text.len() == 0 {
        Err(CodexError::TextProposalIsEmpty)
    } else if text.len() as u32 > text_max_len {
        Err(CodexError::TextProposalSizeExceeded)
    } else {
        Ok(())
    }
}

/// Checks a text proposal's text.
pub fn ensure_text_proposal_valid(text: &Vec<u8>, text_max_len: u32) -> (r: Result<(), CodexError>)
    ensures
        r == text_proposal_check(text@, text_max_len),
        r == Err::<(), CodexError>(CodexError::TextProposalIsEmpty) <==> text@.len() == 0,
        text@.len() <= u32::MAX ==> (r is Ok <==> 0 < text@.len() <= text_max_len),
{
    if text.len() == 0 {
        return Err(CodexError::TextProposalIsEmpty);
    }
    if text.len() as u32 > text_max_len {
        return Err(CodexError::TextProposalSizeExceeded);
    }
    Ok(())
}

/// A text proposal as it is handed to the proposals engine; on approval the engine
/// executes the text proposal call with its title, body and text.
#[derive(Debug)]
pub struct TextProposal {
    /// The voting and staking parameters.
    pub parameters: ProposalParameters,
    /// Proposal title.
    pub title: Vec<u8>,
    /// Proposal body.
    pub body: Vec<u8>,
    /// The stake offered by the proposer.
    pub stake_balance: Option<u64>,
    /// The proposal's text.
    pub text: Vec<u8>,
}

impl CodexSettings {
    /// Creates a text (signal) proposal: checks the text and attaches the text proposal
    /// parameters.
    pub fn create_text_proposal(
        &self,
        title: Vec<u8>,
        body: Vec<u8>,
        text: Vec<u8>,
        stake_balance: Option<u64>,
    ) -> (r: Result<TextProposal, CodexError>)
        ensures
            match r {
                Ok(p) => {
                    &&& text_proposal_check(text@, self.text_max_len) is Ok
                    &&& p.parameters == text_proposal_parameters_spec()
                    &&& p.title@ == title@
                    &&& p.body@ == body@
                    &&& p.text@ == text@
                    &&& p.stake_balance == stake_balance
                },
                Err(e) => text_proposal_check(text@, self.text_max_len) == Err::<(), CodexError>(e),
            },
            text@.len() <= u32::MAX ==> (r is Ok <==> 0 < text@.len() <= self.text_max_len),
            r matches Ok(p) ==> p.parameters.voting_period == 50000 && p.parameters.grace_period
                == 10000 && p.parameters.required_stake == Some(500u64),
    {
        let parameters = text_proposal_parameters();
        match ensure_text_proposal_valid(&text, self.text_max_len) {
            Ok(()) => {},
            Err(e) => return Err(e),
        }
        Ok(TextProposal { parameters, title, body, stake_balance, text })
    }
}

} // verus!
