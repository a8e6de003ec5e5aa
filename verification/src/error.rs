//! Errors of the governance handlers.
//!
//! Every failure is a distinct variant, so a caller can tell exactly which
//! precondition a call broke. A failed handler commits nothing: the state
//! value it was given is returned unchanged.

use vstd::prelude::*;

verus! {

/// Why a submitted proposal was rejected before it was stored.
#[derive(Clone, Copy, Debug, PartialEq, Eq, Structural)]
pub enum InvalidProposalReason {
    TitleTooShort,
    TitleTooLong,
    DescriptionTooShort,
    DescriptionTooLong,
    LinkTooShort,
    LinkTooLong,
    /// The deposit was below the required amount, or was not sent through
    /// the governance token: both surface identically, since the currency is
    /// enforced by the sender identity of the deposit message.
    DepositInsufficient { required: u128 },
}

/// Every error a governance handler can return.
#[derive(Clone, Copy, Debug, PartialEq, Eq, Structural)]
pub enum ContractError {
    /// Initialization was missing one of the required config parameters.
    InstantiateParamsMissing,
    /// A config update or initialization carried a quorum or threshold
    /// requirement above 1; the flags say which of the two was invalid.
    InvalidConfig { quorum_invalid: bool, threshold_invalid: bool },
    /// Config may only be updated by the module itself, through a proposal.
    Unauthorized,
    /// The proposal id is not in the store.
    ProposalNotFound,
    /// The submission failed validation.
    InvalidProposal { reason: InvalidProposalReason },
    /// The proposal is not in the `Active` state.
    ProposalNotActive,
    /// The voting window has closed, so no more votes are accepted.
    VoteVotingPeriodEnded,
    /// The voter already has a vote recorded for this proposal.
    VoteUserAlreadyVoted,
    /// The voter held no governance tokens at the snapshot height `block`.
    VoteNoVotingPower { block: u64 },
    /// The voting window is still open, so the proposal cannot be tallied.
    EndProposalVotingPeriodNotEnded,
    /// Only a `Passed` proposal can be executed.
    ExecuteProposalNotPassed,
    /// The effective delay after the voting window has not elapsed yet.
    ExecuteProposalDelayNotEnded,
    /// The execution window after the effective delay has expired.
    ExecuteProposalExpired,
    /// A tally or height computation left the machine integer range.
    Overflow,
}

} // verus!
