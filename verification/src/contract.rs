//! The lifecycle engine and the read-only query layer.
//!
//! Handlers are written against plain values: block heights, balances and
//! addresses arrive as arguments, and outbound effects (deposit transfers,
//! execute-call dispatch) leave as returned values. Every handler either
//! commits all of its writes, or returns an error and leaves the state
//! exactly as it was.

use vstd::prelude::*;

use crate::decimal::DECIMAL_FRACTIONAL;
use crate::error::ContractError;
use crate::msg::{
    call_response_view, opt_call_responses_views, CreateOrUpdateConfig, InstantiateMsg,
    MigrateMsg, ProposalExecuteCallResponse,
};
use crate::repository::{ProposalEntry, ProposalStore, VoteEntry, VoteStore};
use crate::state::{
    call_view, opt_calls_views, opt_string_view, Config, GlobalState, GovernanceState,
    ProposalExecuteCall,
};

verus! {

// Proposal validation bounds, in bytes of the submitted text.
pub const MIN_TITLE_LENGTH: usize = 4;
pub const MAX_TITLE_LENGTH: usize = 64;
pub const MIN_DESC_LENGTH: usize = 4;
pub const MAX_DESC_LENGTH: usize = 1024;
pub const MIN_LINK_LENGTH: usize = 12;
pub const MAX_LINK_LENGTH: usize = 128;

// Pagination defaults of the query layer.
pub const PAGINATION_DEFAULT_LIMIT: u32 = 10;
pub const PAGINATION_MAX_LIMIT: u32 = 30;

// ------------------------------------------------------------------
// Copying helpers: every copy is pinned to the original's view.
// ------------------------------------------------------------------

/// A copy of a byte payload, byte for byte.
fn clone_bytes(v: &Vec<u8>) -> (r: Vec<u8>)
    ensures
        r@ == v@,
{
    let mut r: Vec<u8> = Vec::new();
    let mut i: usize = 0;
    while i < v.len()
        invariant
            i <= v@.len(),
            r@ == v@.take(i as int),
        decreases v@.len() - i,
    {
        r.push(v[i]);
        proof {
            assert(r@ =~= v@.take(i + 1));
        }
        i = i + 1;
    }
    proof {
        assert(v@.take(v@.len() as int) =~= v@);
    }
    r
}

/// A copy of an optional text field, with the same view.
fn clone_opt_string(o: &Option<String>) -> (r: Option<String>)
    ensures
        opt_string_view(r) == opt_string_view(*o),
{
    match o {
        Some(s) => Some(s.clone()),
        None => None,
    }
}

/// A copy of a batch of execute calls, call for call.
fn clone_calls(v: &Vec<ProposalExecuteCall>) -> (r: Vec<ProposalExecuteCall>)
    ensures
        crate::state::calls_views(r@) == crate::state::calls_views(v@),
        r@.len() == v@.len(),
{
    let mut r: Vec<ProposalExecuteCall> = Vec::new();
    let mut i: usize = 0;
    while i < v.len()
        invariant
            i <= v@.len(),
            r@.len() == i,
            forall|j: int| 0 <= j < i ==> call_view(r@[j]) == call_view(v@[j]),
        decreases v@.len() - i,
    {
        let c = &v[i];
        r.push(ProposalExecuteCall {
            execution_order: c.execution_order,
            target_contract_address: c.target_contract_address.clone(),
            msg: clone_bytes(&c.msg),
        });
        i = i + 1;
    }
    proof {
        assert(crate::state::calls_views(r@) =~= crate::state::calls_views(v@));
    }
    r
}

// ------------------------------------------------------------------
// Initialization
// ------------------------------------------------------------------

/// The config an initialization message describes, once every field is
/// present.
pub open spec fn spec_instantiate_config(msg: InstantiateMsg) -> Config {
    Config {
        address_provider_address: msg.config.address_provider_address.unwrap(),
        proposal_voting_period: msg.config.proposal_voting_period.unwrap(),
        proposal_effective_delay: msg.config.proposal_effective_delay.unwrap(),
        proposal_expiration_period: msg.config.proposal_expiration_period.unwrap(),
        proposal_required_deposit: msg.config.proposal_required_deposit.unwrap(),
        proposal_required_quorum: msg.config.proposal_required_quorum.unwrap(),
        proposal_required_threshold: msg.config.proposal_required_threshold.unwrap(),
    }
}

/// Why initialization fails, if it does: a missing parameter, then an
/// invalid ratio.
pub open spec fn spec_instantiate_check(msg: InstantiateMsg) -> Option<ContractError> {
    if msg.config.address_provider_address is None || msg.config.proposal_voting_period is None
        || msg.config.proposal_effective_delay is None
        || msg.config.proposal_expiration_period is None
        || msg.config.proposal_required_deposit is None
        || msg.config.proposal_required_quorum is None
        || msg.config.proposal_required_threshold is None {
        Option::Some(ContractError::InstantiateParamsMissing)
    } else if !spec_instantiate_config(msg).is_valid() {
        Option::Some(ContractError::InvalidConfig {
            quorum_invalid: !spec_instantiate_config(msg).proposal_required_quorum.is_le_one(),
            threshold_invalid: !spec_instantiate_config(
                msg,
            ).proposal_required_threshold.is_le_one(),
        })
    } else {
        Option::None
    }
}

/// Builds the initial state: every config parameter must be present and
/// valid; the proposal counter starts at zero and both stores are empty.
pub fn instantiate(msg: InstantiateMsg) -> (r: Result<GovernanceState, ContractError>)
    ensures
        match r {
            Result::Ok(s) => {
                &&& spec_instantiate_check(msg) is None
                &&& s.wf()
                &&& s.config == spec_instantiate_config(msg)
                &&& s.global_state.proposal_count == 0
                &&& s.proposals@ == Seq::<ProposalEntry>::empty()
                &&& s.votes@ == Seq::<VoteEntry>::empty()
            },
            Result::Err(e) => spec_instantiate_check(msg) == Option::Some(e),
        },
{
    let InstantiateMsg { config: msg_config } = msg;
    let available = msg_config.address_provider_address.is_some()
        && msg_config.proposal_voting_period.is_some()
        && msg_config.proposal_effective_delay.is_some()
        && msg_config.proposal_expiration_period.is_some()
        && msg_config.proposal_required_deposit.is_some()
        && msg_config.proposal_required_quorum.is_some()
        && msg_config.proposal_required_threshold.is_some();
    if !available {
        return Err(ContractError::InstantiateParamsMissing);
    }
    let config = Config {
        address_provider_address: msg_config.address_provider_address.unwrap(),
        proposal_voting_period: msg_config.proposal_voting_period.unwrap(),
        proposal_effective_delay: msg_config.proposal_effective_delay.unwrap(),
        proposal_expiration_period: msg_config.proposal_expiration_period.unwrap(),
        proposal_required_deposit: msg_config.proposal_required_deposit.unwrap(),
        proposal_required_quorum: msg_config.proposal_required_quorum.unwrap(),
        proposal_required_threshold: msg_config.proposal_required_threshold.unwrap(),
    };
    match config.validate() {
        Ok(()) => {},
        Err(e) => {
            return Err(e);
        },
    }
    Ok(GovernanceState {
        config,
        global_state: GlobalState { proposal_count: 0 },
        proposals: ProposalStore::new(),
        votes: VoteStore::new(),
    })
}

// ------------------------------------------------------------------
// Config update
// ------------------------------------------------------------------

/// The current config with every present field of the update applied.
pub open spec fn spec_merged_config(cur: Config, new_config: CreateOrUpdateConfig) -> Config {
    Config {
        address_provider_address: if new_config.address_provider_address is Some {
            new_config.address_provider_address.unwrap()
        } else {
            cur.address_provider_address
        },
        proposal_voting_period: new_config.proposal_voting_period.unwrap_or(
            cur.proposal_voting_period,
        ),
        proposal_effective_delay: new_config.proposal_effective_delay.unwrap_or(
            cur.proposal_effective_delay,
        ),
        proposal_expiration_period: new_config.proposal_expiration_period.unwrap_or(
            cur.proposal_expiration_period,
        ),
        proposal_required_deposit: new_config.proposal_required_deposit.unwrap_or(
            cur.proposal_required_deposit,
        ),
        proposal_required_quorum: new_config.proposal_required_quorum.unwrap_or(
            cur.proposal_required_quorum,
        ),
        proposal_required_threshold: new_config.proposal_required_threshold.unwrap_or(
            cur.proposal_required_threshold,
        ),
    }
}

/// Why a config update fails, if it does: the caller must be the module
/// itself, and the merged config must be valid.
pub open spec fn spec_update_config_check(
    s: GovernanceState,
    sender: Seq<char>,
    contract_address: Seq<char>,
    new_config: CreateOrUpdateConfig,
) -> Option<ContractError> {
    if sender != contract_address {
        Option::Some(ContractError::Unauthorized)
    } else if !spec_merged_config(s.config, new_config).is_valid() {
        Option::Some(ContractError::InvalidConfig {
            quorum_invalid: !spec_merged_config(
                s.config,
                new_config,
            ).proposal_required_quorum.is_le_one(),
            threshold_invalid: !spec_merged_config(
                s.config,
                new_config,
            ).proposal_required_threshold.is_le_one(),
        })
    } else {
        Option::None
    }
}

/// Applies a config update. Only the module's own address may update the
/// config — that is, only a previously executed proposal reaches this — and
/// an invalid update leaves the stored config untouched.
pub fn execute_update_config(
    state: &mut GovernanceState,
    sender: String,
    contract_address: String,
    new_config: CreateOrUpdateConfig,
) -> (r: Result<(), ContractError>)
    requires
        old(state).wf(),
    ensures
        final(state).wf(),
        match r {
            Result::Ok(()) => {
                &&& spec_update_config_check(*old(state), sender@, contract_address@, new_config)
                    is None
                &&& final(state).config == spec_merged_config(old(state).config, new_config)
                &&& final(state).global_state == old(state).global_state
                &&& final(state).proposals@ == old(state).proposals@
                &&& final(state).votes@ == old(state).votes@
            },
            Result::Err(e) => {
                &&& spec_update_config_check(*old(state), sender@, contract_address@, new_config)
                    == Option::Some(e)
                &&& *final(state) == *old(state)
            },
        },
{
    if !(sender == contract_address) {
        return Err(ContractError::Unauthorized);
    }
    let CreateOrUpdateConfig {
        address_provider_address,
        proposal_voting_period,
        proposal_effective_delay,
        proposal_expiration_period,
        proposal_required_deposit,
        proposal_required_quorum,
        proposal_required_threshold,
    } = new_config;

    let quorum = proposal_required_quorum.unwrap_or(state.config.proposal_required_quorum);
    let threshold = proposal_required_threshold.unwrap_or(
        state.config.proposal_required_threshold,
    );
    let quorum_invalid = quorum.atomics > DECIMAL_FRACTIONAL;
    let threshold_invalid = threshold.atomics > DECIMAL_FRACTIONAL;
    if quorum_invalid || threshold_invalid {
        return Err(ContractError::InvalidConfig { quorum_invalid, threshold_invalid });
    }

    if let Some(a) = address_provider_address {
        state.config.address_provider_address = a;
    }
    state.config.proposal_voting_period = proposal_voting_period.unwrap_or(
        state.config.proposal_voting_period,
    );
    state.config.proposal_effective_delay = proposal_effective_delay.unwrap_or(
        state.config.proposal_effective_delay,
    );
    state.config.proposal_expiration_period = proposal_expiration_period.unwrap_or(
        state.config.proposal_expiration_period,
    );
    state.config.proposal_required_deposit = proposal_required_deposit.unwrap_or(
        state.config.proposal_required_deposit,
    );
    state.config.proposal_required_quorum = quorum;
    state.config.proposal_required_threshold = threshold;
    Ok(())
}

// ------------------------------------------------------------------
// Proposal submission
// ------------------------------------------------------------------

/// Byte length of a text value as `str::len` measures it: the measure the
/// submission bounds use.
pub open spec fn str_bytes_len(s: Seq<char>) -> int {
    (vstd::utf8::encode_utf8(s).len() as usize) as int
}

/// Why a submission fails, if it does, in the order the checks run: text
/// bounds, then the deposit (its amount, and that it arrived through the
/// governance token `token`), then room in the id counter and the height
/// range.
pub open spec fn spec_submit_check(
    s: GovernanceState,
    current_height: u64,
    sender: Seq<char>,
    token: Seq<char>,
    deposit_amount: u128,
    title: Seq<char>,
    description: Seq<char>,
    link: Option<Seq<char>>,
) -> Option<ContractError> {
    if str_bytes_len(title) < MIN_TITLE_LENGTH as int {
        Option::Some(ContractError::InvalidProposal {
            reason: crate::error::InvalidProposalReason::TitleTooShort,
        })
    } else if str_bytes_len(title) > MAX_TITLE_LENGTH as int {
        Option::Some(ContractError::InvalidProposal {
            reason: crate::error::InvalidProposalReason::TitleTooLong,
        })
    } else if str_bytes_len(description) < MIN_DESC_LENGTH as int {
        Option::Some(ContractError::InvalidProposal {
            reason: crate::error::InvalidProposalReason::DescriptionTooShort,
        })
    } else if str_bytes_len(description) > MAX_DESC_LENGTH as int {
        Option::Some(ContractError::InvalidProposal {
            reason: crate::error::InvalidProposalReason::DescriptionTooLong,
        })
    } else if link matches Option::Some(l) && str_bytes_len(l) < MIN_LINK_LENGTH as int {
        Option::Some(ContractError::InvalidProposal {
            reason: crate::error::InvalidProposalReason::LinkTooShort,
        })
    } else if link matches Option::Some(l) && str_bytes_len(l) > MAX_LINK_LENGTH as int {
        Option::Some(ContractError::InvalidProposal {
            reason: crate::error::InvalidProposalReason::LinkTooLong,
        })
    } else if deposit_amount < s.config.proposal_required_deposit || sender != token {
        Option::Some(ContractError::InvalidProposal {
            reason: crate::error::InvalidProposalReason::DepositInsufficient {
                required: s.config.proposal_required_deposit,
            },
        })
    } else if s.global_state.proposal_count == u64::MAX {
        Option::Some(ContractError::Overflow)
    } else if current_height + s.config.proposal_voting_period > u64::MAX {
        Option::Some(ContractError::Overflow)
    } else {
        Option::None
    }
}

/// Reshapes submitted execute calls into their stored form, call for call.
fn convert_calls(v: &Vec<crate::msg::MsgExecuteCall>) -> (r: Vec<ProposalExecuteCall>)
    ensures
        crate::state::calls_views(r@) == crate::msg::msg_calls_views(v@),
{
    let mut r: Vec<ProposalExecuteCall> = Vec::new();
    let mut i: usize = 0;
    while i < v.len()
        invariant
            i <= v@.len(),
            r@.len() == i,
            forall|j: int| 0 <= j < i
                ==> call_view(r@[j]) == crate::msg::msg_call_view(v@[j]),
        decreases v@.len() - i,
    {
        let c = &v[i];
        r.push(ProposalExecuteCall {
            execution_order: c.execution_order,
            target_contract_address: c.target_contract_address.clone(),
            msg: clone_bytes(&c.msg),
        });
        i = i + 1;
    }
    proof {
        assert(crate::state::calls_views(r@) =~= crate::msg::msg_calls_views(v@));
    }
    r
}

/// Registers a proposal. `sender` is the caller that forwarded the deposit
/// (it must be the governance token `mars_token_address`, which the address
/// registry resolved); the deposit itself is already in the module's
/// custody, and the submitter and call target addresses arrive checked for
/// well-formedness by the host. On success the id counter advances and the
/// new proposal starts its voting window at `current_height`.
pub fn execute_submit_proposal(
    state: &mut GovernanceState,
    current_height: u64,
    sender: String,
    mars_token_address: String,
    submitter_address: String,
    deposit_amount: u128,
    title: String,
    description: String,
    option_link: Option<String>,
    option_msg_execute_calls: Option<Vec<crate::msg::MsgExecuteCall>>,
) -> (r: Result<u64, ContractError>)
    requires
        old(state).wf(),
    ensures
        final(state).wf(),
        match r {
            Result::Ok(id) => {
                &&& spec_submit_check(*old(state), current_height, sender@,
                    mars_token_address@, deposit_amount, title@, description@,
                    opt_string_view(option_link)) is None
                &&& id == old(state).global_state.proposal_count + 1
                &&& final(state).global_state.proposal_count == id
                &&& final(state).config == old(state).config
                &&& final(state).votes@ == old(state).votes@
                &&& final(state).proposals.contains_id(id)
                &&& (final(state).proposals.spec_get(id) == (crate::state::Proposal {
                    submitter_address,
                    status: crate::state::ProposalStatus::Active,
                    for_votes: 0,
                    against_votes: 0,
                    start_height: current_height,
                    end_height: (current_height
                        + old(state).config.proposal_voting_period) as u64,
                    title,
                    description,
                    link: option_link,
                    execute_calls: final(state).proposals.spec_get(id).execute_calls,
                    deposit_amount,
                }))
                &&& opt_calls_views(final(state).proposals.spec_get(id).execute_calls)
                    == crate::msg::opt_msg_calls_views(option_msg_execute_calls)
                &&& forall|x: u64| x != id
                    ==> final(state).proposals.contains_id(x)
                        == old(state).proposals.contains_id(x)
                &&& forall|x: u64| x != id && old(state).proposals.contains_id(x)
                    ==> final(state).proposals.spec_get(x) == old(state).proposals.spec_get(x)
                &&& final(state).proposals@.len() == old(state).proposals@.len()
                    + (if old(state).proposals.contains_id(id) { 0int } else { 1int })
            },
            Result::Err(e) => {
                &&& spec_submit_check(*old(state), current_height, sender@,
                    mars_token_address@, deposit_amount, title@, description@,
                    opt_string_view(option_link)) == Option::Some(e)
                &&& *final(state) == *old(state)
            },
        },
{
    // Validate title
    if title.as_str().len() < MIN_TITLE_LENGTH {
        return Err(ContractError::InvalidProposal {
            reason: crate::error::InvalidProposalReason::TitleTooShort,
        });
    }
    if title.as_str().len() > MAX_TITLE_LENGTH {
        return Err(ContractError::InvalidProposal {
            reason: crate::error::InvalidProposalReason::TitleTooLong,
        });
    }

    // Validate description
    if description.as_str().len() < MIN_DESC_LENGTH {
        return Err(ContractError::InvalidProposal {
            reason: crate::error::InvalidProposalReason::DescriptionTooShort,
        });
    }
    if description.as_str().len() > MAX_DESC_LENGTH {
        return Err(ContractError::InvalidProposal {
            reason: crate::error::InvalidProposalReason::DescriptionTooLong,
        });
    }

    // Validate link
    if let Some(link) = &option_link {
        if link.as_str().len() < MIN_LINK_LENGTH {
            return Err(ContractError::InvalidProposal {
                reason: crate::error::InvalidProposalReason::LinkTooShort,
            });
        }
        if link.as_str().len() > MAX_LINK_LENGTH {
            return Err(ContractError::InvalidProposal {
                reason: crate::error::InvalidProposalReason::LinkTooLong,
            });
        }
    }

    // Validate the deposit: enough of it, and sent through the governance
    // token
    let is_mars = sender == mars_token_address;
    if deposit_amount < state.config.proposal_required_deposit || !is_mars {
        return Err(ContractError::InvalidProposal {
            reason: crate::error::InvalidProposalReason::DepositInsufficient {
                required: state.config.proposal_required_deposit,
            },
        });
    }

    // A fresh id, and a voting window that fits the height range
    if state.global_state.proposal_count == u64::MAX {
        return Err(ContractError::Overflow);
    }
    let new_count = state.global_state.proposal_count + 1;
    if current_height > u64::MAX - state.config.proposal_voting_period {
        return Err(ContractError::Overflow);
    }
    let end_height = current_height + state.config.proposal_voting_period;

    let option_proposal_execute_calls = match &option_msg_execute_calls {
        Some(calls) => Some(convert_calls(calls)),
        None => None,
    };

    let new_proposal = crate::state::Proposal {
        submitter_address,
        status: crate::state::ProposalStatus::Active,
        for_votes: 0,
        against_votes: 0,
        start_height: current_height,
        end_height,
        title,
        description,
        link: option_link,
        execute_calls: option_proposal_execute_calls,
        deposit_amount,
    };
    state.global_state.proposal_count = new_count;
    state.proposals.save(new_count, new_proposal);
    Ok(new_count)
}

// ------------------------------------------------------------------
// Vote casting
// ------------------------------------------------------------------

/// Why a vote is rejected before voting power is even consulted, in the
/// order the checks run: the proposal must exist, be active, its window
/// still open, the voter must not have voted, and the snapshot height
/// `start_height - 1` must exist.
pub open spec fn spec_vote_prefix_check(
    s: GovernanceState,
    proposal_id: u64,
    voter_bytes: Seq<u8>,
    current_height: u64,
) -> Option<ContractError> {
    if !s.proposals.contains_id(proposal_id) {
        Option::Some(ContractError::ProposalNotFound)
    } else if !(s.proposals.spec_get(proposal_id).status is Active) {
        Option::Some(ContractError::ProposalNotActive)
    } else if current_height > s.proposals.spec_get(proposal_id).end_height {
        Option::Some(ContractError::VoteVotingPeriodEnded)
    } else if s.votes.contains_vote(proposal_id, voter_bytes) {
        Option::Some(ContractError::VoteUserAlreadyVoted)
    } else if s.proposals.spec_get(proposal_id).start_height == 0 {
        Option::Some(ContractError::Overflow)
    } else {
        Option::None
    }
}

/// Why a vote fails, if it does: the prefix checks, then zero voting power
/// at the snapshot, then room in the tally.
pub open spec fn spec_cast_vote_check(
    s: GovernanceState,
    proposal_id: u64,
    voter_bytes: Seq<u8>,
    current_height: u64,
    vote_option: crate::state::ProposalVoteOption,
    voting_power: u128,
) -> Option<ContractError> {
    let prefix = spec_vote_prefix_check(s, proposal_id, voter_bytes, current_height);
    if prefix is Some {
        prefix
    } else if voting_power == 0 {
        Option::Some(ContractError::VoteNoVotingPower {
            block: (s.proposals.spec_get(proposal_id).start_height - 1) as u64,
        })
    } else if (vote_option is For
        && s.proposals.spec_get(proposal_id).for_votes + voting_power > u128::MAX)
        || (vote_option is Against
            && s.proposals.spec_get(proposal_id).against_votes + voting_power > u128::MAX) {
        Option::Some(ContractError::Overflow)
    } else {
        Option::None
    }
}

/// The height whose balance fixes this voter's power on this proposal: one
/// block before the proposal was created, so power acquired after seeing
/// the proposal never counts. The caller asks the voting-power oracle for
/// the balance at this height and hands the answer to
/// [`execute_cast_vote`].
pub fn vote_snapshot_height(
    state: &GovernanceState,
    proposal_id: u64,
    voter: &str,
    current_height: u64,
) -> (r: Result<u64, ContractError>)
    requires
        state.wf(),
    ensures
        match r {
            Result::Ok(h) => {
                &&& spec_vote_prefix_check(*state, proposal_id,
                    vstd::utf8::encode_utf8(voter@), current_height) is None
                &&& h == state.proposals.spec_get(proposal_id).start_height - 1
            },
            Result::Err(e) => spec_vote_prefix_check(*state, proposal_id,
                vstd::utf8::encode_utf8(voter@), current_height) == Option::Some(e),
        },
{
    let idx = match state.proposals.find_index(proposal_id) {
        Some(i) => i,
        None => {
            return Err(ContractError::ProposalNotFound);
        },
    };
    let entry = state.proposals.entry_at(idx);
    if !matches!(entry.proposal.status, crate::state::ProposalStatus::Active) {
        return Err(ContractError::ProposalNotActive);
    }
    if current_height > entry.proposal.end_height {
        return Err(ContractError::VoteVotingPeriodEnded);
    }
    if state.votes.may_load(proposal_id, voter).is_some() {
        return Err(ContractError::VoteUserAlreadyVoted);
    }
    if entry.proposal.start_height == 0 {
        return Err(ContractError::Overflow);
    }
    Ok(entry.proposal.start_height - 1)
}

/// Records a vote. `voting_power` is the voting-power oracle's answer for
/// the voter's balance at the proposal's snapshot height (see
/// [`vote_snapshot_height`]); it is fixed into the vote record and added to
/// the chosen tally, and later balance changes never touch either.
pub fn execute_cast_vote(
    state: &mut GovernanceState,
    current_height: u64,
    voter: String,
    proposal_id: u64,
    vote_option: crate::state::ProposalVoteOption,
    voting_power: u128,
) -> (r: Result<(), ContractError>)
    requires
        old(state).wf(),
    ensures
        final(state).wf(),
        match r {
            Result::Ok(()) => {
                &&& spec_cast_vote_check(*old(state), proposal_id,
                    vstd::utf8::encode_utf8(voter@), current_height, vote_option,
                    voting_power) is None
                &&& final(state).config == old(state).config
                &&& final(state).global_state == old(state).global_state
                // the chosen tally grew by exactly the snapshot power
                &&& (final(state).proposals.spec_get(proposal_id)
                    == (crate::state::Proposal {
                    for_votes: (if vote_option is For {
                        (old(state).proposals.spec_get(proposal_id).for_votes
                            + voting_power) as u128
                    } else {
                        old(state).proposals.spec_get(proposal_id).for_votes
                    }),
                    against_votes: (if vote_option is Against {
                        (old(state).proposals.spec_get(proposal_id).against_votes
                            + voting_power) as u128
                    } else {
                        old(state).proposals.spec_get(proposal_id).against_votes
                    }),
                    ..old(state).proposals.spec_get(proposal_id)
                }))
                &&& forall|x: u64| final(state).proposals.contains_id(x)
                    == old(state).proposals.contains_id(x)
                &&& forall|x: u64| x != proposal_id && old(state).proposals.contains_id(x)
                    ==> final(state).proposals.spec_get(x) == old(state).proposals.spec_get(x)
                &&& final(state).proposals@.len() == old(state).proposals@.len()
                // exactly one vote record appeared: this voter's, at the
                // snapshot power
                &&& final(state).votes.contains_vote(proposal_id,
                    vstd::utf8::encode_utf8(voter@))
                &&& final(state).votes.spec_get(proposal_id, vstd::utf8::encode_utf8(voter@))
                    == (crate::state::ProposalVote { option: vote_option, power: voting_power })
                &&& forall|x: u64, b: Seq<u8>|
                    !(x == proposal_id && b == vstd::utf8::encode_utf8(voter@))
                    ==> final(state).votes.contains_vote(x, b)
                        == old(state).votes.contains_vote(x, b)
                &&& forall|x: u64, b: Seq<u8>|
                    !(x == proposal_id && b == vstd::utf8::encode_utf8(voter@))
                        && old(state).votes.contains_vote(x, b)
                    ==> final(state).votes.spec_get(x, b) == old(state).votes.spec_get(x, b)
                &&& final(state).votes@.len() == old(state).votes@.len() + 1
            },
            Result::Err(e) => {
                &&& spec_cast_vote_check(*old(state), proposal_id,
                    vstd::utf8::encode_utf8(voter@), current_height, vote_option, voting_power)
                    == Option::Some(e)
                &&& *final(state) == *old(state)
            },
        },
{
    let idx = match state.proposals.find_index(proposal_id) {
        Some(i) => i,
        None => {
            return Err(ContractError::ProposalNotFound);
        },
    };
    let entry = state.proposals.entry_at(idx);
    let status = entry.proposal.status;
    let end_height = entry.proposal.end_height;
    let start_height = entry.proposal.start_height;
    let for_votes = entry.proposal.for_votes;
    let against_votes = entry.proposal.against_votes;

    if !matches!(status, crate::state::ProposalStatus::Active) {
        return Err(ContractError::ProposalNotActive);
    }
    if current_height > end_height {
        return Err(ContractError::VoteVotingPeriodEnded);
    }
    if state.votes.may_load(proposal_id, voter.as_str()).is_some() {
        return Err(ContractError::VoteUserAlreadyVoted);
    }
    if start_height == 0 {
        return Err(ContractError::Overflow);
    }
    let balance_at_block = start_height - 1;
    if voting_power == 0 {
        return Err(ContractError::VoteNoVotingPower { block: balance_at_block });
    }

    let mut new_for_votes = for_votes;
    let mut new_against_votes = against_votes;
    match vote_option {
        crate::state::ProposalVoteOption::For => {
            if for_votes > u128::MAX - voting_power {
                return Err(ContractError::Overflow);
            }
            new_for_votes = for_votes + voting_power;
        },
        crate::state::ProposalVoteOption::Against => {
            if against_votes > u128::MAX - voting_power {
                return Err(ContractError::Overflow);
            }
            new_against_votes = against_votes + voting_power;
        },
    }

    state.proposals.set_vote_tallies(idx, new_for_votes, new_against_votes);
    state.votes.save(proposal_id, voter, crate::state::ProposalVote {
        option: vote_option,
        power: voting_power,
    });
    Ok(())
}

// ------------------------------------------------------------------
// Ending a proposal
// ------------------------------------------------------------------

/// The two-condition pass rule. `quorum = (for + against) / total_supply`
/// and `threshold = for / (for + against)`, each taken as 0 when its
/// denominator is 0; the proposal passes exactly when quorum reaches the
/// required quorum **and** threshold reaches the required threshold.
pub open spec fn spec_proposal_passes(
    for_votes: u128,
    against_votes: u128,
    total_supply: u128,
    config: Config,
) -> bool {
    &&& crate::decimal::spec_ratio_ge(for_votes + against_votes, total_supply as int,
        config.proposal_required_quorum.atomics as int)
    &&& crate::decimal::spec_ratio_ge(for_votes as int, for_votes + against_votes,
        config.proposal_required_threshold.atomics as int)
}

/// Why ending a proposal fails, if it does, in the order the checks run:
/// the proposal must exist, be active, its window closed, the total vote
/// count must fit, and the snapshot height must exist for the total-supply
/// lookup.
pub open spec fn spec_end_check(
    s: GovernanceState,
    proposal_id: u64,
    current_height: u64,
) -> Option<ContractError> {
    if !s.proposals.contains_id(proposal_id) {
        Option::Some(ContractError::ProposalNotFound)
    } else if !(s.proposals.spec_get(proposal_id).status is Active) {
        Option::Some(ContractError::ProposalNotActive)
    } else if current_height <= s.proposals.spec_get(proposal_id).end_height {
        Option::Some(ContractError::EndProposalVotingPeriodNotEnded)
    } else if s.proposals.spec_get(proposal_id).for_votes
        + s.proposals.spec_get(proposal_id).against_votes > u128::MAX {
        Option::Some(ContractError::Overflow)
    } else if s.proposals.spec_get(proposal_id).start_height == 0 {
        Option::Some(ContractError::Overflow)
    } else {
        Option::None
    }
}

/// Tallies a proposal once its voting window has closed; anyone may
/// trigger it. `total_supply` is the voting-power oracle's answer for the
/// token supply at the proposal's snapshot height `start_height - 1`. The
/// status moves to `Passed` or `Rejected`, and the returned transfer
/// routes the staked deposit: back to the submitter on a pass, to the
/// staking role at `staking_address` on a rejection.
pub fn execute_end_proposal(
    state: &mut GovernanceState,
    current_height: u64,
    proposal_id: u64,
    total_supply: u128,
    staking_address: String,
) -> (r: Result<crate::msg::EndProposalResponse, ContractError>)
    requires
        old(state).wf(),
    ensures
        final(state).wf(),
        match r {
            Result::Ok(resp) => {
                &&& spec_end_check(*old(state), proposal_id, current_height) is None
                &&& resp.proposal_result == (if spec_proposal_passes(
                    old(state).proposals.spec_get(proposal_id).for_votes,
                    old(state).proposals.spec_get(proposal_id).against_votes,
                    total_supply,
                    old(state).config,
                ) {
                    crate::state::ProposalStatus::Passed
                } else {
                    crate::state::ProposalStatus::Rejected
                })
                &&& resp.transfer.amount
                    == old(state).proposals.spec_get(proposal_id).deposit_amount
                &&& resp.transfer.recipient@ == (if resp.proposal_result is Passed {
                    old(state).proposals.spec_get(proposal_id).submitter_address@
                } else {
                    staking_address@
                })
                &&& (final(state).proposals.spec_get(proposal_id)
                    == (crate::state::Proposal {
                    status: resp.proposal_result,
                    ..old(state).proposals.spec_get(proposal_id)
                }))
                &&& forall|x: u64| final(state).proposals.contains_id(x)
                    == old(state).proposals.contains_id(x)
                &&& forall|x: u64| x != proposal_id && old(state).proposals.contains_id(x)
                    ==> final(state).proposals.spec_get(x) == old(state).proposals.spec_get(x)
                &&& final(state).proposals@.len() == old(state).proposals@.len()
                &&& final(state).votes@ == old(state).votes@
                &&& final(state).config == old(state).config
                &&& final(state).global_state == old(state).global_state
            },
            Result::Err(e) => {
                &&& spec_end_check(*old(state), proposal_id, current_height) == Option::Some(e)
                &&& *final(state) == *old(state)
            },
        },
{
    let idx = match state.proposals.find_index(proposal_id) {
        Some(i) => i,
        None => {
            return Err(ContractError::ProposalNotFound);
        },
    };
    let entry = state.proposals.entry_at(idx);
    let status = entry.proposal.status;
    let end_height = entry.proposal.end_height;
    let start_height = entry.proposal.start_height;
    let for_votes = entry.proposal.for_votes;
    let against_votes = entry.proposal.against_votes;
    let deposit_amount = entry.proposal.deposit_amount;
    let submitter_address = entry.proposal.submitter_address.clone();

    if !matches!(status, crate::state::ProposalStatus::Active) {
        return Err(ContractError::ProposalNotActive);
    }
    if current_height <= end_height {
        return Err(ContractError::EndProposalVotingPeriodNotEnded);
    }

    // Compute proposal quorum and threshold
    if for_votes > u128::MAX - against_votes {
        return Err(ContractError::Overflow);
    }
    let total_votes = for_votes + against_votes;
    if start_height == 0 {
        return Err(ContractError::Overflow);
    }

    let required_quorum = state.config.proposal_required_quorum.atomics;
    let required_threshold = state.config.proposal_required_threshold.atomics;
    let quorum_met = if total_supply == 0 {
        required_quorum == 0
    } else {
        crate::decimal::frac_ge(total_votes, total_supply, required_quorum)
    };
    let threshold_met = if total_votes == 0 {
        required_threshold == 0
    } else {
        crate::decimal::frac_ge(for_votes, total_votes, required_threshold)
    };

    // Determine proposal result
    let passed = quorum_met && threshold_met;
    let target = if passed {
        crate::state::ProposalStatus::Passed
    } else {
        crate::state::ProposalStatus::Rejected
    };
    let new_status = match status.transition_to(target) {
        Ok(st) => st,
        Err(e) => {
            return Err(e);
        },
    };
    state.proposals.set_status(idx, new_status);

    // Refund the deposit to the submitter on a pass; forfeit it to the
    // staking role on a rejection
    let recipient = if passed {
        submitter_address
    } else {
        staking_address
    };
    Ok(crate::msg::EndProposalResponse {
        proposal_result: new_status,
        transfer: crate::msg::TransferMsg { recipient, amount: deposit_amount },
    })
}

// ------------------------------------------------------------------
// Executing a passed proposal
// ------------------------------------------------------------------

/// Why execution fails, if it does, in the order the checks run: the
/// proposal must exist and have passed, the effective delay after its
/// voting window must have elapsed, and the expiration window after the
/// delay must not be over.
pub open spec fn spec_execute_check(
    s: GovernanceState,
    proposal_id: u64,
    current_height: u64,
) -> Option<ContractError> {
    if !s.proposals.contains_id(proposal_id) {
        Option::Some(ContractError::ProposalNotFound)
    } else if !(s.proposals.spec_get(proposal_id).status is Passed) {
        Option::Some(ContractError::ExecuteProposalNotPassed)
    } else if s.proposals.spec_get(proposal_id).end_height
        + s.config.proposal_effective_delay > u64::MAX {
        Option::Some(ContractError::Overflow)
    } else if current_height < s.proposals.spec_get(proposal_id).end_height
        + s.config.proposal_effective_delay {
        Option::Some(ContractError::ExecuteProposalDelayNotEnded)
    } else if s.proposals.spec_get(proposal_id).end_height
        + s.config.proposal_effective_delay + s.config.proposal_expiration_period > u64::MAX {
        Option::Some(ContractError::Overflow)
    } else if current_height > s.proposals.spec_get(proposal_id).end_height
        + s.config.proposal_effective_delay + s.config.proposal_expiration_period {
        Option::Some(ContractError::ExecuteProposalExpired)
    } else {
        Option::None
    }
}

/// Executes a passed proposal strictly inside its execution window; anyone
/// may trigger it. The status moves to `Executed` before any call leaves,
/// and the returned batch is the proposal's execute calls in dispatch
/// order: stably sorted ascending by `execution_order`, each target and
/// payload unmodified.
pub fn execute_execute_proposal(
    state: &mut GovernanceState,
    current_height: u64,
    proposal_id: u64,
) -> (r: Result<Vec<ProposalExecuteCall>, ContractError>)
    requires
        old(state).wf(),
    ensures
        final(state).wf(),
        match r {
            Result::Ok(messages) => {
                &&& spec_execute_check(*old(state), proposal_id, current_height) is None
                &&& (match old(state).proposals.spec_get(proposal_id).execute_calls {
                    Option::Some(c) => crate::dispatch::is_stable_sort(
                        crate::state::calls_views(c@),
                        crate::state::calls_views(messages@),
                    ) && messages@.len() == c@.len(),
                    Option::None => messages@ == Seq::<ProposalExecuteCall>::empty(),
                })
                &&& (final(state).proposals.spec_get(proposal_id)
                    == (crate::state::Proposal {
                    status: crate::state::ProposalStatus::Executed,
                    ..old(state).proposals.spec_get(proposal_id)
                }))
                &&& forall|x: u64| final(state).proposals.contains_id(x)
                    == old(state).proposals.contains_id(x)
                &&& forall|x: u64| x != proposal_id && old(state).proposals.contains_id(x)
                    ==> final(state).proposals.spec_get(x) == old(state).proposals.spec_get(x)
                &&& final(state).proposals@.len() == old(state).proposals@.len()
                &&& final(state).votes@ == old(state).votes@
                &&& final(state).config == old(state).config
                &&& final(state).global_state == old(state).global_state
            },
            Result::Err(e) => {
                &&& spec_execute_check(*old(state), proposal_id, current_height)
                    == Option::Some(e)
                &&& *final(state) == *old(state)
            },
        },
{
    let idx = match state.proposals.find_index(proposal_id) {
        Some(i) => i,
        None => {
            return Err(ContractError::ProposalNotFound);
        },
    };
    let entry = state.proposals.entry_at(idx);
    let status = entry.proposal.status;
    let end_height = entry.proposal.end_height;

    if !matches!(status, crate::state::ProposalStatus::Passed) {
        return Err(ContractError::ExecuteProposalNotPassed);
    }
    if end_height > u64::MAX - state.config.proposal_effective_delay {
        return Err(ContractError::Overflow);
    }
    let effective_height = end_height + state.config.proposal_effective_delay;
    if current_height < effective_height {
        return Err(ContractError::ExecuteProposalDelayNotEnded);
    }
    if effective_height > u64::MAX - state.config.proposal_expiration_period {
        return Err(ContractError::Overflow);
    }
    if current_height > effective_height + state.config.proposal_expiration_period {
        return Err(ContractError::ExecuteProposalExpired);
    }

    let calls_copy = match &state.proposals.entry_at(idx).proposal.execute_calls {
        Some(calls) => Some(clone_calls(calls)),
        None => None,
    };

    // The state commit precedes the dispatch
    let new_status = match status.transition_to(crate::state::ProposalStatus::Executed) {
        Ok(st) => st,
        Err(e) => {
            return Err(e);
        },
    };
    state.proposals.set_status(idx, new_status);

    let messages = match calls_copy {
        Some(calls) => crate::dispatch::sort_execute_calls(calls),
        None => Vec::new(),
    };
    proof {
        if old(state).proposals.spec_get(proposal_id).execute_calls is None {
            assert(messages@ =~= Seq::<ProposalExecuteCall>::empty());
        }
    }
    Ok(messages)
}

// ------------------------------------------------------------------
// Migration
// ------------------------------------------------------------------

/// Migrations take no arguments and change nothing.
pub fn migrate(_msg: MigrateMsg) -> (r: Result<(), ContractError>)
    ensures
        r is Ok,
{
    Ok(())
}

// ------------------------------------------------------------------
// Response shaping
// ------------------------------------------------------------------

/// Reshapes a stored batch of execute calls into its query response form,
/// call for call.
pub fn map_execute_calls_response(execute_calls: Option<Vec<ProposalExecuteCall>>) -> (r: Result<
    Option<Vec<ProposalExecuteCallResponse>>,
    ContractError,
>)
    ensures
        r matches Result::Ok(o) && opt_call_responses_views(o) == opt_calls_views(execute_calls),
{
    match execute_calls {
        Some(calls) => {
            let mut out: Vec<ProposalExecuteCallResponse> = Vec::new();
            let mut i: usize = 0;
            while i < calls.len()
                invariant
                    i <= calls@.len(),
                    out@.len() == i,
                    forall|j: int| 0 <= j < i
                        ==> call_response_view(out@[j]) == call_view(calls@[j]),
                decreases calls@.len() - i,
            {
                let c = &calls[i];
                out.push(ProposalExecuteCallResponse {
                    execution_order: c.execution_order,
                    target_contract_address: c.target_contract_address.clone(),
                    msg: clone_bytes(&c.msg),
                });
                i = i + 1;
            }
            proof {
                assert(out@.map_values(|c: ProposalExecuteCallResponse| call_response_view(c))
                    =~= crate::state::calls_views(calls@));
            }
            Ok(Some(out))
        },
        None => Ok(None),
    }
}

// ------------------------------------------------------------------
// Queries
// ------------------------------------------------------------------

/// The report of one proposal, shaped for a query response.
fn make_proposal_info(id: u64, p: &crate::state::Proposal) -> (r: crate::msg::ProposalInfo)
    ensures
        crate::msg::info_matches(id, *p, r),
{
    let calls_copy = match &p.execute_calls {
        Some(calls) => Some(clone_calls(calls)),
        None => None,
    };
    // the reshaping never fails; the arm only satisfies the type
    let execute_calls = match map_execute_calls_response(calls_copy) {
        Ok(o) => o,
        Err(_) => None,
    };
    crate::msg::ProposalInfo {
        proposal_id: id,
        submitter_address: p.submitter_address.clone(),
        status: p.status,
        for_votes: p.for_votes,
        against_votes: p.against_votes,
        start_height: p.start_height,
        end_height: p.end_height,
        title: p.title.clone(),
        description: p.description.clone(),
        link: clone_opt_string(&p.link),
        execute_calls,
        deposit_amount: p.deposit_amount,
    }
}

/// The page size a listing uses: the caller's limit, defaulting to 10 and
/// capped at 30.
pub open spec fn spec_limit(option_limit: Option<u32>) -> int {
    let l = option_limit.unwrap_or(PAGINATION_DEFAULT_LIMIT);
    if l < PAGINATION_MAX_LIMIT {
        l as int
    } else {
        PAGINATION_MAX_LIMIT as int
    }
}

/// The response `r` reports the stored config.
pub open spec fn spec_config_response_matches(
    config: Config,
    r: crate::msg::ConfigResponse,
) -> bool {
    &&& r.address_provider_address@ == config.address_provider_address@
    &&& r.proposal_voting_period == config.proposal_voting_period
    &&& r.proposal_effective_delay == config.proposal_effective_delay
    &&& r.proposal_expiration_period == config.proposal_expiration_period
    &&& r.proposal_required_deposit == config.proposal_required_deposit
    &&& r.proposal_required_quorum == config.proposal_required_quorum
    &&& r.proposal_required_threshold == config.proposal_required_threshold
}

/// The response `r` is the page of proposals the listing owes: the first
/// `limit` entries with id at least `start` (0 when absent), ascending,
/// each reported exactly, beside the total count of proposals ever
/// submitted.
pub open spec fn spec_proposals_response_matches(
    s: GovernanceState,
    start_from: Option<u64>,
    option_limit: Option<u32>,
    r: crate::msg::ProposalsListResponse,
) -> bool {
    let page = crate::repository::proposals_from(s.proposals@, start_from.unwrap_or(0));
    let l = spec_limit(option_limit);
    &&& r.proposal_count == s.global_state.proposal_count
    &&& r.proposal_list@.len() == (if l <= page.len() {
        l
    } else {
        page.len() as int
    })
    &&& forall|j: int| 0 <= j < r.proposal_list@.len()
        ==> crate::msg::info_matches(page[j].id, page[j].proposal, r.proposal_list@[j])
}

/// Reports the stored config.
pub fn query_config(state: &GovernanceState) -> (r: crate::msg::ConfigResponse)
    ensures
        spec_config_response_matches(state.config, r),
{
    crate::msg::ConfigResponse {
        address_provider_address: state.config.address_provider_address.clone(),
        proposal_voting_period: state.config.proposal_voting_period,
        proposal_effective_delay: state.config.proposal_effective_delay,
        proposal_expiration_period: state.config.proposal_expiration_period,
        proposal_required_deposit: state.config.proposal_required_deposit,
        proposal_required_quorum: state.config.proposal_required_quorum,
        proposal_required_threshold: state.config.proposal_required_threshold,
    }
}

/// Reports one proposal by id.
pub fn query_proposal(state: &GovernanceState, proposal_id: u64) -> (r: Result<
    crate::msg::ProposalInfo,
    ContractError,
>)
    requires
        state.wf(),
    ensures
        match r {
            Result::Ok(info) => state.proposals.contains_id(proposal_id)
                && crate::msg::info_matches(proposal_id, state.proposals.spec_get(proposal_id),
                info),
            Result::Err(e) => !state.proposals.contains_id(proposal_id)
                && e == ContractError::ProposalNotFound,
        },
{
    match state.proposals.may_load(proposal_id) {
        Some(p) => Ok(make_proposal_info(proposal_id, p)),
        None => Err(ContractError::ProposalNotFound),
    }
}

/// Lists proposals ascending by id, from an inclusive `start_from` cursor.
pub fn query_proposals(
    state: &GovernanceState,
    start_from: Option<u64>,
    option_limit: Option<u32>,
) -> (r: crate::msg::ProposalsListResponse)
    requires
        state.wf(),
    ensures
        spec_proposals_response_matches(*state, start_from, option_limit, r),
{
    let ghost s = state.proposals@;
    let start: u64 = match start_from {
        Some(v) => v,
        None => 0,
    };
    let limit_u32: u32 = match option_limit {
        Some(l) => if l < PAGINATION_MAX_LIMIT {
            l
        } else {
            PAGINATION_MAX_LIMIT
        },
        None => PAGINATION_DEFAULT_LIMIT,
    };
    let limit: usize = limit_u32 as usize;
    let mut proposal_list: Vec<crate::msg::ProposalInfo> = Vec::new();
    let mut i: usize = 0;
    while i < state.proposals.len() && proposal_list.len() < limit
        invariant
            state.wf(),
            s == state.proposals@,
            i <= s.len(),
            limit == spec_limit(option_limit),
            start == start_from.unwrap_or(0),
            proposal_list@.len() == (if limit as int
                <= crate::repository::proposals_from(s.take(i as int), start).len() {
                limit as int
            } else {
                crate::repository::proposals_from(s.take(i as int), start).len() as int
            }),
            forall|j: int| 0 <= j < proposal_list@.len()
                ==> crate::msg::info_matches(
                    crate::repository::proposals_from(s.take(i as int), start)[j].id,
                    crate::repository::proposals_from(s.take(i as int), start)[j].proposal,
                    proposal_list@[j],
                ),
        decreases s.len() - i,
    {
        let entry = state.proposals.entry_at(i);
        proof {
            assert(s.take(i as int + 1) =~= s.take(i as int) + seq![s[i as int]]);
            crate::repository::lemma_proposals_from_add(s.take(i as int), seq![s[i as int]],
                start);
            crate::repository::lemma_proposals_from_singleton(s[i as int], start);
        }
        if entry.id >= start {
            let info = make_proposal_info(entry.id, &entry.proposal);
            proposal_list.push(info);
        }
        i = i + 1;
    }
    proof {
        assert(s =~= s.take(i as int) + s.skip(i as int));
        crate::repository::lemma_proposals_from_add(s.take(i as int), s.skip(i as int), start);
    }
    crate::msg::ProposalsListResponse {
        proposal_count: state.global_state.proposal_count,
        proposal_list,
    }
}

/// The voter key an exclusive `start_after` cursor scans from.
pub open spec fn spec_votes_after(start_after: Option<String>) -> Option<Seq<u8>> {
    match start_after {
        Option::Some(sa) => Option::Some(vstd::utf8::encode_utf8(sa@)),
        Option::None => Option::None,
    }
}

/// The report `r` carries exactly the stored vote `e`.
pub open spec fn spec_vote_response_matches(
    e: VoteEntry,
    r: crate::msg::ProposalVoteResponse,
) -> bool {
    &&& r.voter_address@ == e.voter@
    &&& r.option == e.vote.option
    &&& r.power == e.vote.power
}

/// The response `r` is the page of votes the listing owes: the first
/// `limit` votes on the proposal whose voter key lies strictly after the
/// cursor, ascending by voter key, each reported exactly.
pub open spec fn spec_votes_response_matches(
    s: GovernanceState,
    proposal_id: u64,
    start_after: Option<String>,
    option_limit: Option<u32>,
    r: crate::msg::ProposalVotesResponse,
) -> bool {
    let page = crate::repository::votes_page(s.votes@, proposal_id,
        spec_votes_after(start_after));
    let l = spec_limit(option_limit);
    &&& r.proposal_id == proposal_id
    &&& r.votes@.len() == (if l <= page.len() {
        l
    } else {
        page.len() as int
    })
    &&& forall|j: int| 0 <= j < r.votes@.len()
        ==> spec_vote_response_matches(page[j], r.votes@[j])
}

/// Lists the votes on one proposal, ascending by voter key, from an
/// exclusive `start_after` cursor.
pub fn query_proposal_votes(
    state: &GovernanceState,
    proposal_id: u64,
    start_after: Option<String>,
    option_limit: Option<u32>,
) -> (r: crate::msg::ProposalVotesResponse)
    requires
        state.wf(),
    ensures
        spec_votes_response_matches(*state, proposal_id, start_after, option_limit, r),
{
    let ghost s = state.votes@;
    let ghost after = spec_votes_after(start_after);
    let limit_u32: u32 = match option_limit {
        Some(l) => if l < PAGINATION_MAX_LIMIT {
            l
        } else {
            PAGINATION_MAX_LIMIT
        },
        None => PAGINATION_DEFAULT_LIMIT,
    };
    let limit: usize = limit_u32 as usize;
    let mut votes: Vec<crate::msg::ProposalVoteResponse> = Vec::new();
    let mut i: usize = 0;
    while i < state.votes.len() && votes.len() < limit
        invariant
            state.wf(),
            s == state.votes@,
            after == spec_votes_after(start_after),
            i <= s.len(),
            limit == spec_limit(option_limit),
            votes@.len() == (if limit as int
                <= crate::repository::votes_page(s.take(i as int), proposal_id, after).len() {
                limit as int
            } else {
                crate::repository::votes_page(s.take(i as int), proposal_id, after).len() as int
            }),
            forall|j: int| 0 <= j < votes@.len()
                ==> spec_vote_response_matches(
                    crate::repository::votes_page(s.take(i as int), proposal_id, after)[j],
                    votes@[j],
                ),
        decreases s.len() - i,
    {
        let entry = state.votes.entry_at(i);
        proof {
            assert(s.take(i as int + 1) =~= s.take(i as int) + seq![s[i as int]]);
            crate::repository::lemma_votes_page_add(s.take(i as int), seq![s[i as int]],
                proposal_id, after);
            crate::repository::lemma_votes_page_singleton(s[i as int], proposal_id, after);
        }
        let visited = entry.proposal_id == proposal_id && (match &start_after {
            Some(sa) => crate::repository::bytes_lt_exec(sa.as_str().as_bytes(),
                entry.voter.as_str().as_bytes()),
            None => true,
        });
        if visited {
            votes.push(crate::msg::ProposalVoteResponse {
                voter_address: entry.voter.clone(),
                option: entry.vote.option,
                power: entry.vote.power,
            });
        }
        i = i + 1;
    }
    proof {
        assert(s =~= s.take(i as int) + s.skip(i as int));
        crate::repository::lemma_votes_page_add(s.take(i as int), s.skip(i as int), proposal_id,
            after);
    }
    crate::msg::ProposalVotesResponse { proposal_id, votes }
}

/// Answers a query; reads only.
pub fn query(state: &GovernanceState, msg: crate::msg::QueryMsg) -> (r: Result<
    crate::msg::QueryResponse,
    ContractError,
>)
    requires
        state.wf(),
    ensures
        match msg {
            crate::msg::QueryMsg::Config {} => r matches Result::Ok(
                crate::msg::QueryResponse::Config(c),
            ) && spec_config_response_matches(state.config, c),
            crate::msg::QueryMsg::Proposals { start, limit } => r matches Result::Ok(
                crate::msg::QueryResponse::Proposals(p),
            ) && spec_proposals_response_matches(*state, start, limit, p),
            crate::msg::QueryMsg::Proposal { proposal_id } => (match r {
                Result::Ok(crate::msg::QueryResponse::Proposal(info)) => state
                    .proposals.contains_id(proposal_id)
                    && crate::msg::info_matches(proposal_id,
                    state.proposals.spec_get(proposal_id), info),
                Result::Err(e) => !state.proposals.contains_id(proposal_id)
                    && e == ContractError::ProposalNotFound,
                _ => false,
            }),
            crate::msg::QueryMsg::ProposalVotes { proposal_id, start_after, limit } => r matches
                Result::Ok(crate::msg::QueryResponse::ProposalVotes(v))
                && spec_votes_response_matches(*state, proposal_id, start_after, limit, v),
        },
{
    match msg {
        crate::msg::QueryMsg::Config {} => Ok(crate::msg::QueryResponse::Config(query_config(
            state,
        ))),
        crate::msg::QueryMsg::Proposals { start, limit } => Ok(
            crate::msg::QueryResponse::Proposals(query_proposals(state, start, limit)),
        ),
        crate::msg::QueryMsg::Proposal { proposal_id } => match query_proposal(
            state,
            proposal_id,
        ) {
            Ok(info) => Ok(crate::msg::QueryResponse::Proposal(info)),
            Err(e) => Err(e),
        },
        crate::msg::QueryMsg::ProposalVotes { proposal_id, start_after, limit } => Ok(
            crate::msg::QueryResponse::ProposalVotes(query_proposal_votes(state, proposal_id,
                start_after, limit)),
        ),
    }
}

} // verus!
