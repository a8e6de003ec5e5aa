//! The data model: config, global counter, proposals and votes.

use vstd::prelude::*;

use crate::decimal::Decimal;
use crate::error::ContractError;
use crate::repository::{ProposalStore, VoteStore};

verus! {

/// Validated governance parameters.
#[derive(Clone, Debug, PartialEq)]
pub struct Config {
    /// Registry contract that resolves role names to addresses.
    pub address_provider_address: String,
    /// Length of the voting window, in blocks.
    pub proposal_voting_period: u64,
    /// Blocks between a proposal passing and becoming executable.
    pub proposal_effective_delay: u64,
    /// Blocks after the delay during which execution stays valid.
    pub proposal_expiration_period: u64,
    /// Smallest deposit a submission must stake.
    pub proposal_required_deposit: u128,
    /// Fraction of total supply that must vote for a proposal to pass.
    pub proposal_required_quorum: Decimal,
    /// Fraction of cast votes that must be in favour for a proposal to pass.
    pub proposal_required_threshold: Decimal,
}

impl Config {
    /// Both ratio parameters are at most 1.
    pub open spec fn is_valid(self) -> bool {
        self.proposal_required_quorum.is_le_one()
            && self.proposal_required_threshold.is_le_one()
    }

    /// Accepts exactly the configs whose quorum and threshold requirements
    /// are ratios in `[0, 1]`; the error names the offending parameters.
    pub fn validate(&self) -> (r: Result<(), ContractError>)
        ensures
            r == (if self.is_valid() {
                Result::<(), ContractError>::Ok(())
            } else {
                Result::<(), ContractError>::Err(ContractError::InvalidConfig {
                    quorum_invalid: !self.proposal_required_quorum.is_le_one(),
                    threshold_invalid: !self.proposal_required_threshold.is_le_one(),
                })
            }),
    {
        let quorum_invalid = self.proposal_required_quorum.atomics
            > crate::decimal::DECIMAL_FRACTIONAL;
        let threshold_invalid = self.proposal_required_threshold.atomics
            > crate::decimal::DECIMAL_FRACTIONAL;
        if quorum_invalid || threshold_invalid {
            Err(ContractError::InvalidConfig { quorum_invalid, threshold_invalid })
        } else {
            Ok(())
        }
    }
}

/// The only generator of proposal ids: a monotonically increasing counter,
/// incremented exclusively by submission.
#[derive(Clone, Copy, Debug, PartialEq, Eq, Structural)]
pub struct GlobalState {
    pub proposal_count: u64,
}

/// Lifecycle of a proposal. The machine is forward-only:
/// `Active -> Passed -> Executed`, or `Active -> Rejected` (terminal).
#[derive(Clone, Copy, Debug, PartialEq, Eq, Structural)]
pub enum ProposalStatus {
    Active,
    Passed,
    Rejected,
    Executed,
}

impl ProposalStatus {
    /// The three legal edges of the lifecycle machine.
    pub open spec fn can_transition_to(self, to: ProposalStatus) -> bool {
        ||| (self is Active && to is Passed)
        ||| (self is Active && to is Rejected)
        ||| (self is Passed && to is Executed)
    }

    /// The error reported when a transition towards `to` is requested from
    /// the wrong state.
    pub open spec fn spec_transition_error(to: ProposalStatus) -> ContractError {
        if to is Executed {
            ContractError::ExecuteProposalNotPassed
        } else {
            ContractError::ProposalNotActive
        }
    }

    /// The single gate through which a status ever changes: any edge outside
    /// the lifecycle machine is rejected.
    pub fn transition_to(self, to: ProposalStatus) -> (r: Result<ProposalStatus, ContractError>)
        ensures
            r == (if self.can_transition_to(to) {
                Result::<ProposalStatus, ContractError>::Ok(to)
            } else {
                Result::<ProposalStatus, ContractError>::Err(
                    ProposalStatus::spec_transition_error(to),
                )
            }),
    {
        match (self, to) {
            (ProposalStatus::Active, ProposalStatus::Passed) => Ok(to),
            (ProposalStatus::Active, ProposalStatus::Rejected) => Ok(to),
            (ProposalStatus::Passed, ProposalStatus::Executed) => Ok(to),
            (_, ProposalStatus::Executed) => Err(ContractError::ExecuteProposalNotPassed),
            (_, _) => Err(ContractError::ProposalNotActive),
        }
    }
}

/// How a vote counts.
#[derive(Clone, Copy, Debug, PartialEq, Eq, Structural)]
pub enum ProposalVoteOption {
    For,
    Against,
}

/// A persisted vote: one per (proposal, voter), its power fixed at cast
/// time and never changed afterwards.
#[derive(Clone, Copy, Debug, PartialEq, Eq, Structural)]
pub struct ProposalVote {
    pub option: ProposalVoteOption,
    pub power: u128,
}

/// A call a passed proposal dispatches: an ordinal fixing its place in the
/// dispatch order, a target contract, and an opaque payload.
#[derive(Clone, Debug, PartialEq)]
pub struct ProposalExecuteCall {
    pub execution_order: u64,
    pub target_contract_address: String,
    pub msg: Vec<u8>,
}

/// The mathematical content of a [`ProposalExecuteCall`]: the same fields
/// as sequences of plain values. Two calls with equal views are
/// interchangeable, so contracts compare views rather than values.
pub struct CallView {
    pub execution_order: u64,
    pub target: Seq<char>,
    pub msg: Seq<u8>,
}

/// The view of one execute call.
pub open spec fn call_view(c: ProposalExecuteCall) -> CallView {
    CallView {
        execution_order: c.execution_order,
        target: c.target_contract_address@,
        msg: c.msg@,
    }
}

/// The views of a sequence of execute calls, in order.
pub open spec fn calls_views(s: Seq<ProposalExecuteCall>) -> Seq<CallView> {
    s.map_values(|c: ProposalExecuteCall| call_view(c))
}

/// The views of an optional batch of execute calls.
pub open spec fn opt_calls_views(o: Option<Vec<ProposalExecuteCall>>) -> Option<Seq<CallView>> {
    match o {
        Option::Some(v) => Option::Some(calls_views(v@)),
        Option::None => Option::None,
    }
}

/// The view of an optional text field.
pub open spec fn opt_string_view(o: Option<String>) -> Option<Seq<char>> {
    match o {
        Option::Some(s) => Option::Some(s@),
        Option::None => Option::None,
    }
}

/// A governance proposal. Created by submission; its tallies change while
/// votes are cast, its status moves along the lifecycle machine; it is
/// never deleted.
#[derive(Clone, Debug, PartialEq)]
pub struct Proposal {
    pub submitter_address: String,
    pub status: ProposalStatus,
    pub for_votes: u128,
    pub against_votes: u128,
    pub start_height: u64,
    pub end_height: u64,
    pub title: String,
    pub description: String,
    pub link: Option<String>,
    pub execute_calls: Option<Vec<ProposalExecuteCall>>,
    pub deposit_amount: u128,
}

/// Everything the module persists: the config, the id counter, and the two
/// keyed stores. Every handler takes the whole state, and either commits all
/// of its writes or — on any failure — returns it untouched.
#[derive(Debug)]
pub struct GovernanceState {
    pub config: Config,
    pub global_state: GlobalState,
    pub proposals: ProposalStore,
    pub votes: VoteStore,
}

impl GovernanceState {
    /// The state invariant: a valid config and strictly sorted stores.
    /// Initialization establishes it and every handler preserves it.
    pub open spec fn wf(self) -> bool {
        &&& self.config.is_valid()
        &&& self.proposals.wf()
        &&& self.votes.wf()
    }
}

} // verus!
