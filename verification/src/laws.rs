//! The general guarantees of the module, stated and proved in one place:
//! bounds and meaning of the quorum and threshold ratios, the two-condition
//! pass rule, uniqueness of a voter's vote, and that paginated listing
//! walks every proposal exactly once, in order, without gaps.

use vstd::prelude::*;

use crate::decimal::{spec_ratio_ge, DECIMAL_FRACTIONAL};
use crate::error::ContractError;
use crate::repository::{
    proposals_from, proposals_sorted, voter_key, ProposalEntry, VoteStore,
};
use crate::state::{Config, GovernanceState, ProposalVoteOption};

verus! {

// ------------------------------------------------------------------
// Quorum and threshold values
// ------------------------------------------------------------------

/// The value of the ratio `num / den` in atomics of 10^-18, rounded down;
/// 0 when the denominator is 0. This is the materialised quorum or
/// threshold a reader would compute.
pub open spec fn spec_ratio_scaled(num: int, den: int) -> int {
    if den == 0 {
        0
    } else {
        num * DECIMAL_FRACTIONAL / den
    }
}

/// Whenever the numerator is between 0 and the denominator, the ratio lies
/// in `[0, 1]`; with a zero denominator it is 0. For the quorum
/// `(for + against) / total_supply` this covers every state whose votes
/// come out of the supply; for the threshold `for / (for + against)` the
/// bound holds always.
pub proof fn lemma_ratio_scaled_bounds(num: int, den: int)
    requires
        0 <= num,
        num <= den || den == 0,
    ensures
        0 <= spec_ratio_scaled(num, den),
        spec_ratio_scaled(num, den) <= DECIMAL_FRACTIONAL,
{
    if den != 0 {
        assert(0 <= num * DECIMAL_FRACTIONAL / den) by (nonlinear_arith)
            requires
                0 <= num,
                0 < den,
        ;
        assert(num * DECIMAL_FRACTIONAL / den <= DECIMAL_FRACTIONAL) by (nonlinear_arith)
            requires
                0 <= num <= den,
                0 < den,
        ;
    }
}

/// Comparing a ratio against a whole-atomics requirement by cross
/// multiplication is the same as comparing its rounded-down value: the
/// engine's exact decision coincides with what a reader of the
/// materialised ratio sees.
pub proof fn lemma_ratio_ge_is_scaled_ge(num: int, den: int, required: int)
    requires
        0 <= num,
        0 <= den,
        0 <= required,
    ensures
        spec_ratio_ge(num, den, required) == (spec_ratio_scaled(num, den) >= required),
{
    if den != 0 {
        if num * DECIMAL_FRACTIONAL >= required * den {
            assert(num * DECIMAL_FRACTIONAL / den >= required) by (nonlinear_arith)
                requires
                    0 < den,
                    0 <= required,
                    num * DECIMAL_FRACTIONAL >= required * den,
            ;
        }
        if num * DECIMAL_FRACTIONAL / den >= required {
            assert(num * DECIMAL_FRACTIONAL >= required * den) by (nonlinear_arith)
                requires
                    0 < den,
                    0 <= required,
                    num * DECIMAL_FRACTIONAL / den >= required,
            ;
        }
    }
}

// ------------------------------------------------------------------
// The pass rule
// ------------------------------------------------------------------

/// A proposal passes exactly when the materialised quorum reaches the
/// required quorum **and** the materialised threshold reaches the required
/// threshold: meeting only one of the two always rejects.
pub proof fn lemma_pass_requires_both(
    for_votes: u128,
    against_votes: u128,
    total_supply: u128,
    config: Config,
)
    requires
        for_votes + against_votes <= u128::MAX,
    ensures
        crate::contract::spec_proposal_passes(for_votes, against_votes, total_supply, config)
            == (spec_ratio_scaled(for_votes + against_votes, total_supply as int)
                >= config.proposal_required_quorum.atomics
            && spec_ratio_scaled(for_votes as int, for_votes + against_votes)
                >= config.proposal_required_threshold.atomics),
{
    lemma_ratio_ge_is_scaled_ge(for_votes + against_votes, total_supply as int,
        config.proposal_required_quorum.atomics as int);
    lemma_ratio_ge_is_scaled_ge(for_votes as int, for_votes + against_votes,
        config.proposal_required_threshold.atomics as int);
}

// ------------------------------------------------------------------
// One vote per (proposal, voter)
// ------------------------------------------------------------------

/// A (proposal, voter) key is held by at most one persisted vote record.
pub proof fn lemma_vote_key_unique(s: VoteStore, pid: u64, vb: Seq<u8>, i: int, j: int)
    requires
        s.wf(),
        0 <= i < s@.len(),
        0 <= j < s@.len(),
        s@[i].proposal_id == pid && voter_key(s@[i]) == vb,
        s@[j].proposal_id == pid && voter_key(s@[j]) == vb,
    ensures
        i == j,
{
    crate::repository::lemma_vote_key_trichotomy(pid, vb, pid, vb);
    if i < j {
        assert(crate::repository::vote_key_lt(s@[i].proposal_id, voter_key(s@[i]),
            s@[j].proposal_id, voter_key(s@[j])));
    } else if j < i {
        assert(crate::repository::vote_key_lt(s@[j].proposal_id, voter_key(s@[j]),
            s@[i].proposal_id, voter_key(s@[i])));
    }
}

/// Once a voter has a vote recorded on a live proposal, a second attempt
/// is rejected as a duplicate — whatever option is chosen and whatever
/// power the oracle would now report.
pub proof fn lemma_second_vote_always_rejected(
    s: GovernanceState,
    proposal_id: u64,
    voter_bytes: Seq<u8>,
    current_height: u64,
)
    requires
        s.proposals.contains_id(proposal_id),
        s.proposals.spec_get(proposal_id).status is Active,
        current_height <= s.proposals.spec_get(proposal_id).end_height,
        s.votes.contains_vote(proposal_id, voter_bytes),
    ensures
        forall|opt: ProposalVoteOption, power: u128|
            crate::contract::spec_cast_vote_check(s, proposal_id, voter_bytes, current_height,
                opt, power) == Option::<ContractError>::Some(
                ContractError::VoteUserAlreadyVoted,
            ),
{
}

// ------------------------------------------------------------------
// Pagination walks everything exactly once, in order
// ------------------------------------------------------------------

/// An ascending scan of a sorted store is itself sorted, visits only ids
/// at or past its start bound, and reports only stored entries.
pub proof fn lemma_proposals_from_sorted(s: Seq<ProposalEntry>, start: u64)
    requires
        proposals_sorted(s),
    ensures
        proposals_sorted(proposals_from(s, start)),
        forall|j: int| 0 <= j < proposals_from(s, start).len()
            ==> #[trigger] proposals_from(s, start)[j].id >= start,
        forall|j: int| 0 <= j < proposals_from(s, start).len()
            ==> exists|i: int| 0 <= i < s.len() && s[i] == #[trigger] proposals_from(s, start)[j],
    decreases s.len(),
{
    reveal(Seq::filter);
    if s.len() == 0 {
    } else {
        let d = s.drop_last();
        lemma_proposals_from_sorted(d, start);
        let fd = proposals_from(d, start);
        let f = proposals_from(s, start);
        assert forall|j: int| 0 <= j < fd.len()
            implies fd[j].id < s.last().id && exists|i: int| 0 <= i < s.len() && s[i] == fd[j]
            by {
            let i = choose|i: int| 0 <= i < d.len() && d[i] == fd[j];
            assert(d[i] == s[i]);
            assert(s[i].id < s.last().id);
        }
        if s.last().id >= start {
            assert(f == fd.push(s.last()));
            assert(s[s.len() - 1] == s.last());
        } else {
            assert(f == fd);
        }
    }
}

/// A scan bound above every id of a sequence visits nothing.
proof fn lemma_proposals_from_none(s: Seq<ProposalEntry>, start: u64)
    requires
        forall|j: int| 0 <= j < s.len() ==> s[j].id < start,
    ensures
        proposals_from(s, start) == Seq::<ProposalEntry>::empty(),
    decreases s.len(),
{
    reveal(Seq::filter);
    if s.len() == 0 {
        assert(proposals_from(s, start) =~= Seq::<ProposalEntry>::empty());
    } else {
        lemma_proposals_from_none(s.drop_last(), start);
        assert(s.last().id < start);
        assert(proposals_from(s, start) == proposals_from(s.drop_last(), start));
    }
}

/// Raising the start bound of a scan is the same as scanning the scan.
proof fn lemma_proposals_from_nested(s: Seq<ProposalEntry>, start: u64, higher: u64)
    requires
        higher >= start,
    ensures
        proposals_from(s, higher) == proposals_from(proposals_from(s, start), higher),
    decreases s.len(),
{
    reveal(Seq::filter);
    if s.len() == 0 {
        assert(proposals_from(s, higher) =~= Seq::<ProposalEntry>::empty());
        assert(proposals_from(proposals_from(s, start), higher)
            =~= Seq::<ProposalEntry>::empty());
    } else {
        let d = s.drop_last();
        lemma_proposals_from_nested(d, start, higher);
        if s.last().id >= start {
            assert(proposals_from(s, start) == proposals_from(d, start).push(s.last()));
            let g = proposals_from(d, start).push(s.last());
            assert(g.drop_last() =~= proposals_from(d, start));
            assert(g.last() == s.last());
            if s.last().id >= higher {
                assert(proposals_from(s, higher) == proposals_from(d, higher).push(s.last()));
                assert(proposals_from(g, higher)
                    == proposals_from(proposals_from(d, start), higher).push(s.last()));
            } else {
                assert(proposals_from(s, higher) == proposals_from(d, higher));
                assert(proposals_from(g, higher)
                    == proposals_from(proposals_from(d, start), higher));
            }
        } else {
            assert(proposals_from(s, start) == proposals_from(d, start));
            assert(proposals_from(s, higher) == proposals_from(d, higher));
        }
    }
}

/// On a sorted sequence whose first `l` entries fall below a bound and
/// whose remainder does not, the bounded scan is exactly the remainder.
proof fn lemma_proposals_from_is_skip(s: Seq<ProposalEntry>, bound: u64, l: int)
    requires
        0 <= l <= s.len(),
        forall|j: int| 0 <= j < l ==> s[j].id < bound,
        forall|j: int| l <= j < s.len() ==> s[j].id >= bound,
    ensures
        proposals_from(s, bound) == s.skip(l),
    decreases s.len(),
{
    reveal(Seq::filter);
    if s.len() == l {
        lemma_proposals_from_none(s, bound);
        assert(s.skip(l) =~= Seq::<ProposalEntry>::empty());
    } else {
        let d = s.drop_last();
        lemma_proposals_from_is_skip(d, bound, l);
        assert(s.last().id >= bound);
        assert(proposals_from(s, bound) == proposals_from(d, bound).push(s.last()));
        assert(d.skip(l).push(s.last()) =~= s.skip(l));
    }
}

/// Pagination has no gaps and no repeats: a full page of `l` entries
/// starting at `start`, followed by the scan that resumes at the last
/// reported id plus one, together yield exactly the whole ascending scan
/// from `start` — so walking pages with increasing cursors reports every
/// stored proposal exactly once, in ascending id order.
pub proof fn lemma_pagination_no_gaps(s: Seq<ProposalEntry>, start: u64, l: int)
    requires
        proposals_sorted(s),
        0 < l <= proposals_from(s, start).len(),
        proposals_from(s, start)[l - 1].id < u64::MAX,
    ensures
        proposals_from(s, start) == proposals_from(s, start).take(l)
            + proposals_from(s, (proposals_from(s, start)[l - 1].id + 1) as u64),
{
    let f = proposals_from(s, start);
    let last_id = f[l - 1].id;
    let next = (last_id + 1) as u64;
    lemma_proposals_from_sorted(s, start);
    assert(next >= start);
    lemma_proposals_from_nested(s, start, next);
    assert forall|j: int| 0 <= j < l implies f[j].id < next by {
        if j < l - 1 {
            assert(f[j].id < f[l - 1].id);
        }
    }
    assert forall|j: int| l <= j < f.len() implies f[j].id >= next by {
        assert(f[l - 1].id < f[j].id);
    }
    lemma_proposals_from_is_skip(f, next, l);
    assert(f =~= f.take(l) + f.skip(l));
}

} // verus!
