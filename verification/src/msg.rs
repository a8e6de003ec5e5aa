//! Request and response shapes of the module's operations.

use vstd::prelude::*;

use crate::decimal::Decimal;
use crate::state::{opt_string_view, CallView, Proposal, ProposalStatus, ProposalVoteOption};

verus! {

/// Config fields for initialization (all required) and for updates (absent
/// fields keep their current value).
#[derive(Clone, Debug, PartialEq)]
pub struct CreateOrUpdateConfig {
    pub address_provider_address: Option<String>,
    pub proposal_voting_period: Option<u64>,
    pub proposal_effective_delay: Option<u64>,
    pub proposal_expiration_period: Option<u64>,
    pub proposal_required_deposit: Option<u128>,
    pub proposal_required_quorum: Option<Decimal>,
    pub proposal_required_threshold: Option<Decimal>,
}

impl Default for CreateOrUpdateConfig {
    /// All fields absent: an update that changes nothing.
    fn default() -> (r: CreateOrUpdateConfig)
        ensures
            r.address_provider_address is None,
            r.proposal_voting_period is None,
            r.proposal_effective_delay is None,
            r.proposal_expiration_period is None,
            r.proposal_required_deposit is None,
            r.proposal_required_quorum is None,
            r.proposal_required_threshold is None,
    {
        CreateOrUpdateConfig {
            address_provider_address: None,
            proposal_voting_period: None,
            proposal_effective_delay: None,
            proposal_expiration_period: None,
            proposal_required_deposit: None,
            proposal_required_quorum: None,
            proposal_required_threshold: None,
        }
    }
}

/// Initialization message: the initial config.
#[derive(Clone, Debug, PartialEq)]
pub struct InstantiateMsg {
    pub config: CreateOrUpdateConfig,
}

/// An execute call as submitted: the target address is plain text, checked
/// for well-formedness before the proposal is stored.
#[derive(Clone, Debug, PartialEq)]
pub struct MsgExecuteCall {
    pub execution_order: u64,
    pub target_contract_address: String,
    pub msg: Vec<u8>,
}

/// The view of one submitted execute call.
pub open spec fn msg_call_view(c: MsgExecuteCall) -> CallView {
    CallView {
        execution_order: c.execution_order,
        target: c.target_contract_address@,
        msg: c.msg@,
    }
}

/// The views of a sequence of submitted execute calls, in order.
pub open spec fn msg_calls_views(s: Seq<MsgExecuteCall>) -> Seq<CallView> {
    s.map_values(|c: MsgExecuteCall| msg_call_view(c))
}

/// The views of an optional batch of submitted execute calls.
pub open spec fn opt_msg_calls_views(o: Option<Vec<MsgExecuteCall>>) -> Option<Seq<CallView>> {
    match o {
        Option::Some(v) => Option::Some(msg_calls_views(v@)),
        Option::None => Option::None,
    }
}

/// The payload of a deposit-carrying token transfer into the module.
#[derive(Clone, Debug, PartialEq)]
pub enum ReceiveMsg {
    SubmitProposal {
        title: String,
        description: String,
        link: Option<String>,
        execute_calls: Option<Vec<MsgExecuteCall>>,
    },
}

/// Read-only queries.
#[derive(Clone, Debug, PartialEq)]
pub enum QueryMsg {
    Config {},
    Proposals { start: Option<u64>, limit: Option<u32> },
    Proposal { proposal_id: u64 },
    ProposalVotes { proposal_id: u64, start_after: Option<String>, limit: Option<u32> },
}

/// Migrations take no arguments.
#[derive(Clone, Debug, PartialEq)]
pub struct MigrateMsg {}

/// The stored config, echoed back.
#[derive(Clone, Debug, PartialEq)]
pub struct ConfigResponse {
    pub address_provider_address: String,
    pub proposal_voting_period: u64,
    pub proposal_effective_delay: u64,
    pub proposal_expiration_period: u64,
    pub proposal_required_deposit: u128,
    pub proposal_required_quorum: Decimal,
    pub proposal_required_threshold: Decimal,
}

/// An execute call as reported by a query.
#[derive(Clone, Debug, PartialEq)]
pub struct ProposalExecuteCallResponse {
    pub execution_order: u64,
    pub target_contract_address: String,
    pub msg: Vec<u8>,
}

/// The view of one reported execute call.
pub open spec fn call_response_view(c: ProposalExecuteCallResponse) -> CallView {
    CallView {
        execution_order: c.execution_order,
        target: c.target_contract_address@,
        msg: c.msg@,
    }
}

/// The views of an optional batch of reported execute calls.
pub open spec fn opt_call_responses_views(
    o: Option<Vec<ProposalExecuteCallResponse>>,
) -> Option<Seq<CallView>> {
    match o {
        Option::Some(v) => Option::Some(
            v@.map_values(|c: ProposalExecuteCallResponse| call_response_view(c)),
        ),
        Option::None => Option::None,
    }
}

/// One proposal as reported by a query.
#[derive(Clone, Debug, PartialEq)]
pub struct ProposalInfo {
    pub proposal_id: u64,
    pub submitter_address: String,
    pub status: ProposalStatus,
    pub for_votes: u128,
    pub against_votes: u128,
    pub start_height: u64,
    pub end_height: u64,
    pub title: String,
    pub description: String,
    pub link: Option<String>,
    pub execute_calls: Option<Vec<ProposalExecuteCallResponse>>,
    pub deposit_amount: u128,
}

/// The report `r` carries exactly the stored proposal `p` under id `id`.
pub open spec fn info_matches(id: u64, p: Proposal, r: ProposalInfo) -> bool {
    &&& r.proposal_id == id
    &&& r.submitter_address@ == p.submitter_address@
    &&& r.status == p.status
    &&& r.for_votes == p.for_votes
    &&& r.against_votes == p.against_votes
    &&& r.start_height == p.start_height
    &&& r.end_height == p.end_height
    &&& r.title@ == p.title@
    &&& r.description@ == p.description@
    &&& opt_string_view(r.link) == opt_string_view(p.link)
    &&& opt_call_responses_views(r.execute_calls) == crate::state::opt_calls_views(p.execute_calls)
    &&& r.deposit_amount == p.deposit_amount
}

/// A page of proposals, with the total count of proposals ever submitted.
#[derive(Clone, Debug, PartialEq)]
pub struct ProposalsListResponse {
    pub proposal_count: u64,
    pub proposal_list: Vec<ProposalInfo>,
}

/// One vote as reported by a query.
#[derive(Clone, Debug, PartialEq)]
pub struct ProposalVoteResponse {
    pub voter_address: String,
    pub option: ProposalVoteOption,
    pub power: u128,
}

/// A page of votes on one proposal.
#[derive(Clone, Debug, PartialEq)]
pub struct ProposalVotesResponse {
    pub proposal_id: u64,
    pub votes: Vec<ProposalVoteResponse>,
}

/// The answer to a [`QueryMsg`], shaped per query.
#[derive(Clone, Debug, PartialEq)]
pub enum QueryResponse {
    Config(ConfigResponse),
    Proposals(ProposalsListResponse),
    Proposal(ProposalInfo),
    ProposalVotes(ProposalVotesResponse),
}

/// The instruction to move the staked deposit after a proposal is decided:
/// back to the submitter on a pass, to the staking role on a rejection.
#[derive(Clone, Debug, PartialEq)]
pub struct TransferMsg {
    pub recipient: String,
    pub amount: u128,
}

/// What ending a proposal decided and the deposit transfer it emits.
#[derive(Clone, Debug, PartialEq)]
pub struct EndProposalResponse {
    pub proposal_result: ProposalStatus,
    pub transfer: TransferMsg,
}

} // verus!
