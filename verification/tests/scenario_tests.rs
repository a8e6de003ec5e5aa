use council::contract::{
    execute_cast_vote, execute_end_proposal, execute_execute_proposal, instantiate,
    map_execute_calls_response, query, query_proposals, vote_snapshot_height,
};
use council::decimal::Decimal;
use council::dispatch::sort_execute_calls;
use council::error::ContractError;
use council::msg::{
    CreateOrUpdateConfig, InstantiateMsg, QueryMsg, QueryResponse,
};
use council::state::{
    GovernanceState, Proposal, ProposalExecuteCall, ProposalStatus, ProposalVoteOption,
};

fn setup(quorum: Decimal, threshold: Decimal) -> GovernanceState {
    let config = CreateOrUpdateConfig {
        address_provider_address: Some(String::from("address_provider")),
        proposal_voting_period: Some(2000),
        proposal_effective_delay: Some(200),
        proposal_expiration_period: Some(300),
        proposal_required_deposit: Some(10000),
        proposal_required_quorum: Some(quorum),
        proposal_required_threshold: Some(threshold),
    };
    instantiate(InstantiateMsg { config }).unwrap()
}

fn add_proposal(
    state: &mut GovernanceState,
    id: u64,
    status: ProposalStatus,
    for_votes: u128,
    against_votes: u128,
    start_height: u64,
    end_height: u64,
) {
    state.proposals.save(id, Proposal {
        submitter_address: String::from("submitter"),
        status,
        for_votes,
        against_votes,
        start_height,
        end_height,
        title: String::from("A valid title"),
        description: String::from("A description"),
        link: None,
        execute_calls: None,
        deposit_amount: 10000,
    });
}

fn end(
    state: &mut GovernanceState,
    id: u64,
    height: u64,
    total_supply: u128,
) -> Result<ProposalStatus, ContractError> {
    execute_end_proposal(state, height, id, total_supply, String::from("staking"))
        .map(|resp| resp.proposal_result)
}

// With required_quorum = 1 and required_threshold = 1, only a proposal
// where the whole supply voted in favour passes; any abstention or dissent
// rejects it.
#[test]
fn scenario_unanimity_required() {
    let total_supply: u128 = 1000;

    // 100% of the supply voted for: passes exactly
    let mut state = setup(Decimal::one(), Decimal::one());
    add_proposal(&mut state, 1, ProposalStatus::Active, 1000, 0, 90_000, 100_000);
    assert_eq!(end(&mut state, 1, 100_001, total_supply).unwrap(), ProposalStatus::Passed);

    // one holder abstained: quorum 999/1000 < 1
    let mut state = setup(Decimal::one(), Decimal::one());
    add_proposal(&mut state, 1, ProposalStatus::Active, 999, 0, 90_000, 100_000);
    assert_eq!(end(&mut state, 1, 100_001, total_supply).unwrap(), ProposalStatus::Rejected);

    // one holder dissented: threshold 999/1000 < 1
    let mut state = setup(Decimal::one(), Decimal::one());
    add_proposal(&mut state, 1, ProposalStatus::Active, 999, 1, 90_000, 100_000);
    assert_eq!(end(&mut state, 1, 100_001, total_supply).unwrap(), ProposalStatus::Rejected);
}

// total_supply=100000, for=11000, against=10000, required_quorum=0.02,
// required_threshold=0.51: quorum=0.21 and threshold≈0.5238, both met.
#[test]
fn scenario_passes_both_conditions() {
    let mut state = setup(Decimal::from_ratio(2, 100), Decimal::from_ratio(51, 100));
    add_proposal(&mut state, 1, ProposalStatus::Active, 11_000, 10_000, 90_000, 100_000);
    assert_eq!(end(&mut state, 1, 100_001, 100_000).unwrap(), ProposalStatus::Passed);
}

// Same totals but for=10000, against=11000: threshold≈0.476 < 0.51, so the
// proposal is rejected although quorum is met.
#[test]
fn scenario_rejected_on_threshold() {
    let mut state = setup(Decimal::from_ratio(2, 100), Decimal::from_ratio(51, 100));
    add_proposal(&mut state, 1, ProposalStatus::Active, 10_000, 11_000, 90_000, 100_000);
    assert_eq!(end(&mut state, 1, 100_001, 100_000).unwrap(), ProposalStatus::Rejected);
}

// A voter with balance 100 at the snapshot height 99_999 is credited
// exactly power 100, and nothing that happens to the live balance later
// changes the recorded vote.
#[test]
fn scenario_snapshot_power() {
    let mut state = setup(Decimal::from_ratio(2, 100), Decimal::from_ratio(51, 100));
    add_proposal(&mut state, 1, ProposalStatus::Active, 0, 0, 100_000, 102_000);

    // the snapshot height to ask the oracle about is one block before the
    // proposal was created
    let snapshot = vote_snapshot_height(&state, 1, "voter", 100_001).unwrap();
    assert_eq!(snapshot, 99_999);

    // the oracle reports balance 100 at height 99_999; the vote is cast at
    // height 100_001, whatever the live balance is there
    execute_cast_vote(&mut state, 100_001, String::from("voter"), 1, ProposalVoteOption::For,
        100)
        .unwrap();
    let vote = state.votes.may_load(1, "voter").unwrap();
    assert_eq!(vote.power, 100);

    // other activity, with other balances, leaves the record untouched
    execute_cast_vote(&mut state, 100_002, String::from("whale"), 1,
        ProposalVoteOption::Against, 1_000_000)
        .unwrap();
    let vote = state.votes.may_load(1, "voter").unwrap();
    assert_eq!(vote.power, 100);
    assert_eq!(vote.option, ProposalVoteOption::For);
}

// Executing before end_height + effective_delay fails, executing after the
// expiration fails, executing strictly inside the window succeeds exactly
// once, and a second attempt finds the proposal no longer Passed.
#[test]
fn scenario_execution_window() {
    // config: effective_delay 200, expiration_period 300; end_height 100_000
    let mut state = setup(Decimal::from_ratio(2, 100), Decimal::from_ratio(51, 100));
    add_proposal(&mut state, 1, ProposalStatus::Passed, 11_000, 10_000, 90_000, 100_000);

    // before the delay has ended
    let res = execute_execute_proposal(&mut state, 100_100, 1);
    assert_eq!(res.unwrap_err(), ContractError::ExecuteProposalDelayNotEnded);

    // after the expiration window
    let res = execute_execute_proposal(&mut state, 100_501, 1);
    assert_eq!(res.unwrap_err(), ContractError::ExecuteProposalExpired);

    // strictly inside the window
    execute_execute_proposal(&mut state, 100_250, 1).unwrap();
    assert_eq!(state.proposals.may_load(1).unwrap().status, ProposalStatus::Executed);

    // a second attempt fails: the status is already Executed
    let res = execute_execute_proposal(&mut state, 100_250, 1);
    assert_eq!(res.unwrap_err(), ContractError::ExecuteProposalNotPassed);
}

// Dispatch order is a stable ascending sort: entries with equal
// execution_order keep their original relative order.
#[test]
fn stable_sort_keeps_tied_order() {
    let calls = vec![
        ProposalExecuteCall {
            execution_order: 1,
            target_contract_address: String::from("first_of_the_ties"),
            msg: b"a".to_vec(),
        },
        ProposalExecuteCall {
            execution_order: 0,
            target_contract_address: String::from("leader"),
            msg: b"b".to_vec(),
        },
        ProposalExecuteCall {
            execution_order: 1,
            target_contract_address: String::from("second_of_the_ties"),
            msg: b"c".to_vec(),
        },
    ];
    let sorted = sort_execute_calls(calls);
    assert_eq!(sorted.len(), 3);
    assert_eq!(sorted[0].target_contract_address, "leader");
    assert_eq!(sorted[1].target_contract_address, "first_of_the_ties");
    assert_eq!(sorted[2].target_contract_address, "second_of_the_ties");
}

// Walking pages with increasing inclusive cursors and no gaps yields each
// proposal exactly once, in ascending id order.
#[test]
fn pagination_walks_all_proposals_once() {
    let mut state = setup(Decimal::one(), Decimal::one());
    for id in 1..=7u64 {
        add_proposal(&mut state, id, ProposalStatus::Active, 0, 0, 1, 10);
    }

    let mut seen: Vec<u64> = Vec::new();
    let mut cursor: Option<u64> = None;
    loop {
        let page = query_proposals(&state, cursor, Some(3));
        if page.proposal_list.is_empty() {
            break;
        }
        for info in &page.proposal_list {
            seen.push(info.proposal_id);
        }
        cursor = Some(page.proposal_list.last().unwrap().proposal_id + 1);
    }
    assert_eq!(seen, vec![1, 2, 3, 4, 5, 6, 7]);
}

// The quorum and threshold decisions compare exact ratios: boundary values
// count as met.
#[test]
fn ratio_boundaries_exact() {
    // threshold exactly 1/2 against a 0.5 requirement passes
    let mut state = setup(Decimal::from_ratio(1, 100), Decimal::from_ratio(1, 2));
    add_proposal(&mut state, 1, ProposalStatus::Active, 500, 500, 90_000, 100_000);
    assert_eq!(end(&mut state, 1, 100_001, 100_000).unwrap(), ProposalStatus::Passed);

    // one atomic below: 499999/1000000 against 0.5 rejects
    let mut state = setup(Decimal::from_ratio(1, 100), Decimal::from_ratio(1, 2));
    add_proposal(&mut state, 1, ProposalStatus::Active, 499_999, 500_001, 90_000, 100_000);
    assert_eq!(end(&mut state, 1, 100_001, 1_000_000).unwrap(), ProposalStatus::Rejected);

    // quorum exactly at the bound passes: 2000/100000 == 0.02
    let mut state = setup(Decimal::from_ratio(2, 100), Decimal::zero());
    add_proposal(&mut state, 1, ProposalStatus::Active, 2000, 0, 90_000, 100_000);
    assert_eq!(end(&mut state, 1, 100_001, 100_000).unwrap(), ProposalStatus::Passed);

    // and one vote below it rejects: 1999/100000 < 0.02
    let mut state = setup(Decimal::from_ratio(2, 100), Decimal::zero());
    add_proposal(&mut state, 1, ProposalStatus::Active, 1999, 0, 90_000, 100_000);
    assert_eq!(end(&mut state, 1, 100_001, 100_000).unwrap(), ProposalStatus::Rejected);
}

// Zero denominators: with no supply the quorum is 0, with no votes the
// threshold is 0; both only satisfy a zero requirement.
#[test]
fn zero_denominators() {
    // no votes at all: quorum 0 and threshold 0; zero requirements pass
    let mut state = setup(Decimal::zero(), Decimal::zero());
    add_proposal(&mut state, 1, ProposalStatus::Active, 0, 0, 90_000, 100_000);
    assert_eq!(end(&mut state, 1, 100_001, 100_000).unwrap(), ProposalStatus::Passed);

    // no votes against a nonzero threshold requirement: rejected
    let mut state = setup(Decimal::zero(), Decimal::from_ratio(1, 2));
    add_proposal(&mut state, 1, ProposalStatus::Active, 0, 0, 90_000, 100_000);
    assert_eq!(end(&mut state, 1, 100_001, 100_000).unwrap(), ProposalStatus::Rejected);

    // zero total supply: quorum is 0, so a nonzero quorum requirement
    // rejects even a unanimous vote
    let mut state = setup(Decimal::from_ratio(1, 100), Decimal::zero());
    add_proposal(&mut state, 1, ProposalStatus::Active, 1000, 0, 90_000, 100_000);
    assert_eq!(end(&mut state, 1, 100_001, 0).unwrap(), ProposalStatus::Rejected);
}

// Decimal::from_ratio rounds down to an atomic of 10^-18.
#[test]
fn decimal_from_ratio_floor() {
    assert_eq!(Decimal::from_ratio(1, 3).atomics, 333_333_333_333_333_333);
    assert_eq!(Decimal::from_ratio(2, 3).atomics, 666_666_666_666_666_666);
    assert_eq!(Decimal::from_ratio(1, 2).atomics, 500_000_000_000_000_000);
    assert_eq!(Decimal::one().atomics, 1_000_000_000_000_000_000);
    assert_eq!(Decimal::zero().atomics, 0);
}

// A tally that would leave the integer range fails loudly instead of
// wrapping.
#[test]
fn tally_overflow_detected() {
    let mut state = setup(Decimal::one(), Decimal::one());
    add_proposal(&mut state, 1, ProposalStatus::Active, u128::MAX - 10, 0, 100_000, 102_000);
    let res = execute_cast_vote(&mut state, 100_001, String::from("voter"), 1,
        ProposalVoteOption::For, 11);
    assert_eq!(res.unwrap_err(), ContractError::Overflow);

    // the failed vote left no trace
    let proposal = state.proposals.may_load(1).unwrap();
    assert_eq!(proposal.for_votes, u128::MAX - 10);
    assert!(state.votes.may_load(1, "voter").is_none());
}

// The query dispatcher routes each request to its handler.
#[test]
fn query_dispatch() {
    let mut state = setup(Decimal::one(), Decimal::one());
    add_proposal(&mut state, 1, ProposalStatus::Active, 0, 0, 1, 10);
    state.global_state.proposal_count = 1;

    match query(&state, QueryMsg::Config {}).unwrap() {
        QueryResponse::Config(c) => {
            assert_eq!(c.address_provider_address, "address_provider");
            assert_eq!(c.proposal_voting_period, 2000);
        },
        _ => panic!("expected a config response"),
    }

    match query(&state, QueryMsg::Proposals { start: None, limit: None }).unwrap() {
        QueryResponse::Proposals(p) => {
            assert_eq!(p.proposal_count, 1);
            assert_eq!(p.proposal_list.len(), 1);
        },
        _ => panic!("expected a proposal listing"),
    }

    match query(&state, QueryMsg::Proposal { proposal_id: 1 }).unwrap() {
        QueryResponse::Proposal(info) => {
            assert_eq!(info.proposal_id, 1);
            assert_eq!(info.title, "A valid title");
        },
        _ => panic!("expected a proposal"),
    }

    let err = query(&state, QueryMsg::Proposal { proposal_id: 9 }).unwrap_err();
    assert_eq!(err, ContractError::ProposalNotFound);

    match query(&state, QueryMsg::ProposalVotes {
        proposal_id: 1,
        start_after: None,
        limit: None,
    })
    .unwrap()
    {
        QueryResponse::ProposalVotes(v) => {
            assert_eq!(v.proposal_id, 1);
            assert_eq!(v.votes.len(), 0);
        },
        _ => panic!("expected a vote listing"),
    }
}

// The invalid-config error names exactly the offending parameter.
#[test]
fn invalid_config_names_offender() {
    let config = CreateOrUpdateConfig {
        address_provider_address: Some(String::from("address_provider")),
        proposal_voting_period: Some(1),
        proposal_effective_delay: Some(1),
        proposal_expiration_period: Some(1),
        proposal_required_deposit: Some(1),
        proposal_required_quorum: Some(Decimal::from_ratio(11, 10)),
        proposal_required_threshold: Some(Decimal::one()),
    };
    let err = instantiate(InstantiateMsg { config }).unwrap_err();
    assert_eq!(err, ContractError::InvalidConfig {
        quorum_invalid: true,
        threshold_invalid: false,
    });

    let config = CreateOrUpdateConfig {
        address_provider_address: Some(String::from("address_provider")),
        proposal_voting_period: Some(1),
        proposal_effective_delay: Some(1),
        proposal_expiration_period: Some(1),
        proposal_required_deposit: Some(1),
        proposal_required_quorum: Some(Decimal::one()),
        proposal_required_threshold: Some(Decimal::from_ratio(11, 10)),
    };
    let err = instantiate(InstantiateMsg { config }).unwrap_err();
    assert_eq!(err, ContractError::InvalidConfig {
        quorum_invalid: false,
        threshold_invalid: true,
    });
}

// The lifecycle machine accepts exactly its three forward edges.
#[test]
fn lifecycle_transitions() {
    let active = ProposalStatus::Active;
    let passed = ProposalStatus::Passed;
    let rejected = ProposalStatus::Rejected;
    let executed = ProposalStatus::Executed;
    assert_eq!(active.transition_to(passed), Ok(passed));
    assert_eq!(active.transition_to(rejected), Ok(rejected));
    assert_eq!(passed.transition_to(executed), Ok(executed));

    assert_eq!(active.transition_to(executed),
        Err(ContractError::ExecuteProposalNotPassed));
    assert_eq!(rejected.transition_to(executed),
        Err(ContractError::ExecuteProposalNotPassed));
    assert_eq!(rejected.transition_to(passed), Err(ContractError::ProposalNotActive));
    assert_eq!(executed.transition_to(passed), Err(ContractError::ProposalNotActive));
    assert_eq!(passed.transition_to(rejected), Err(ContractError::ProposalNotActive));
}

// Reshaping execute calls for a response keeps every field.
#[test]
fn map_execute_calls_response_keeps_fields() {
    let calls = vec![ProposalExecuteCall {
        execution_order: 7,
        target_contract_address: String::from("target"),
        msg: b"payload".to_vec(),
    }];
    let mapped = map_execute_calls_response(Some(calls)).unwrap().unwrap();
    assert_eq!(mapped.len(), 1);
    assert_eq!(mapped[0].execution_order, 7);
    assert_eq!(mapped[0].target_contract_address, "target");
    assert_eq!(mapped[0].msg, b"payload".to_vec());

    assert_eq!(map_execute_calls_response(None).unwrap(), None);
}
