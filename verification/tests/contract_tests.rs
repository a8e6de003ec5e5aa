use council::contract::{
    execute_cast_vote, execute_end_proposal, execute_execute_proposal, execute_submit_proposal,
    execute_update_config, instantiate, query_proposal_votes, query_proposals,
};
use council::decimal::Decimal;
use council::error::{ContractError, InvalidProposalReason};
use council::msg::{CreateOrUpdateConfig, InstantiateMsg, MsgExecuteCall, TransferMsg};
use council::state::{
    GovernanceState, Proposal, ProposalExecuteCall, ProposalStatus, ProposalVote,
    ProposalVoteOption,
};

const TEST_PROPOSAL_VOTING_PERIOD: u64 = 2000;
const TEST_PROPOSAL_EFFECTIVE_DELAY: u64 = 200;
const TEST_PROPOSAL_EXPIRATION_PERIOD: u64 = 300;
const TEST_PROPOSAL_REQUIRED_DEPOSIT: u128 = 10000;
const MOCK_CONTRACT_ADDR: &str = "cosmos2contract";

fn th_setup() -> GovernanceState {
    let config = CreateOrUpdateConfig {
        address_provider_address: Some(String::from("address_provider")),
        proposal_voting_period: Some(TEST_PROPOSAL_VOTING_PERIOD),
        proposal_effective_delay: Some(TEST_PROPOSAL_EFFECTIVE_DELAY),
        proposal_expiration_period: Some(TEST_PROPOSAL_EXPIRATION_PERIOD),
        proposal_required_deposit: Some(TEST_PROPOSAL_REQUIRED_DEPOSIT),
        proposal_required_quorum: Some(Decimal::one()),
        proposal_required_threshold: Some(Decimal::one()),
    };
    instantiate(InstantiateMsg { config }).unwrap()
}

struct MockProposal {
    id: u64,
    status: ProposalStatus,
    for_votes: u128,
    against_votes: u128,
    start_height: u64,
    end_height: u64,
    execute_calls: Option<Vec<ProposalExecuteCall>>,
}

impl Default for MockProposal {
    fn default() -> Self {
        MockProposal {
            id: 1,
            status: ProposalStatus::Active,
            for_votes: 0,
            against_votes: 0,
            start_height: 1,
            end_height: 1,
            execute_calls: None,
        }
    }
}

fn th_build_mock_proposal(state: &mut GovernanceState, mock: MockProposal) -> Proposal {
    let proposal = Proposal {
        submitter_address: String::from("submitter"),
        status: mock.status,
        for_votes: mock.for_votes,
        against_votes: mock.against_votes,
        start_height: mock.start_height,
        end_height: mock.end_height,
        title: String::from("A valid title"),
        description: String::from("A description"),
        link: None,
        execute_calls: mock.execute_calls,
        deposit_amount: TEST_PROPOSAL_REQUIRED_DEPOSIT,
    };
    state.proposals.save(mock.id, proposal.clone());
    proposal
}

fn th_submit(
    state: &mut GovernanceState,
    height: u64,
    sender: &str,
    amount: u128,
    title: &str,
    description: &str,
    link: Option<String>,
    execute_calls: Option<Vec<MsgExecuteCall>>,
) -> Result<u64, ContractError> {
    execute_submit_proposal(
        state,
        height,
        String::from(sender),
        String::from("mars_token"),
        String::from("submitter"),
        amount,
        String::from(title),
        String::from(description),
        link,
        execute_calls,
    )
}

#[test]
fn test_proper_initialization() {
    // init config with empty params
    {
        let empty_config = CreateOrUpdateConfig {
            address_provider_address: None,
            proposal_voting_period: None,
            proposal_effective_delay: None,
            proposal_expiration_period: None,
            proposal_required_deposit: None,
            proposal_required_threshold: None,
            proposal_required_quorum: None,
        };
        let response = instantiate(InstantiateMsg { config: empty_config });
        assert_eq!(
            response.unwrap_err(),
            ContractError::InstantiateParamsMissing,
            "All params should be available during initialization"
        );
    }

    // init with proposal_required_quorum, proposal_required_threshold greater than 1
    {
        let config = CreateOrUpdateConfig {
            address_provider_address: Some(String::from("address_provider")),
            proposal_voting_period: Some(1),
            proposal_effective_delay: Some(1),
            proposal_expiration_period: Some(1),
            proposal_required_deposit: Some(1),
            proposal_required_quorum: Some(Decimal::from_ratio(11, 10)),
            proposal_required_threshold: Some(Decimal::from_ratio(11, 10)),
        };
        let response = instantiate(InstantiateMsg { config });
        assert_eq!(
            response.unwrap_err(),
            ContractError::InvalidConfig { quorum_invalid: true, threshold_invalid: true }
        );
    }

    // Successful Init
    {
        let config = CreateOrUpdateConfig {
            address_provider_address: Some(String::from("address_provider")),
            proposal_voting_period: Some(1),
            proposal_effective_delay: Some(1),
            proposal_expiration_period: Some(1),
            proposal_required_deposit: Some(1),
            proposal_required_threshold: Some(Decimal::one()),
            proposal_required_quorum: Some(Decimal::one()),
        };
        let state = instantiate(InstantiateMsg { config }).unwrap();
        assert_eq!(state.config.address_provider_address, "address_provider");
        assert_eq!(state.global_state.proposal_count, 0);
    }
}

#[test]
fn test_update_config() {
    let init_config = CreateOrUpdateConfig {
        address_provider_address: Some(String::from("address_provider")),
        proposal_voting_period: Some(10),
        proposal_effective_delay: Some(11),
        proposal_expiration_period: Some(12),
        proposal_required_deposit: Some(111),
        proposal_required_threshold: Some(Decimal::one()),
        proposal_required_quorum: Some(Decimal::one()),
    };
    let mut state = instantiate(InstantiateMsg { config: init_config.clone() }).unwrap();

    // update config with proposal_required_quorum, proposal_required_threshold greater than 1
    {
        let config = CreateOrUpdateConfig {
            proposal_required_quorum: Some(Decimal::from_ratio(11, 10)),
            proposal_required_threshold: Some(Decimal::from_ratio(11, 10)),
            ..init_config.clone()
        };
        let response = execute_update_config(
            &mut state,
            String::from(MOCK_CONTRACT_ADDR),
            String::from(MOCK_CONTRACT_ADDR),
            config,
        );
        assert_eq!(
            response.unwrap_err(),
            ContractError::InvalidConfig { quorum_invalid: true, threshold_invalid: true }
        );
    }

    // only council itself is authorized
    {
        let error_res = execute_update_config(
            &mut state,
            String::from("somebody"),
            String::from(MOCK_CONTRACT_ADDR),
            init_config,
        );
        assert_eq!(error_res.unwrap_err(), ContractError::Unauthorized);
    }

    // update config with all new params
    {
        let config = CreateOrUpdateConfig {
            address_provider_address: Some(String::from("new_address_provider")),
            proposal_voting_period: Some(101),
            proposal_effective_delay: Some(111),
            proposal_expiration_period: Some(121),
            proposal_required_deposit: Some(1111),
            proposal_required_threshold: Some(Decimal::from_ratio(4, 5)),
            proposal_required_quorum: Some(Decimal::from_ratio(1, 5)),
        };
        execute_update_config(
            &mut state,
            String::from(MOCK_CONTRACT_ADDR),
            String::from(MOCK_CONTRACT_ADDR),
            config.clone(),
        )
        .unwrap();

        let new_config = &state.config;
        assert_eq!(new_config.address_provider_address, "new_address_provider");
        assert_eq!(new_config.proposal_voting_period, config.proposal_voting_period.unwrap());
        assert_eq!(
            new_config.proposal_effective_delay,
            config.proposal_effective_delay.unwrap()
        );
        assert_eq!(
            new_config.proposal_expiration_period,
            config.proposal_expiration_period.unwrap()
        );
        assert_eq!(
            new_config.proposal_required_deposit,
            config.proposal_required_deposit.unwrap()
        );
        assert_eq!(
            new_config.proposal_required_threshold,
            config.proposal_required_threshold.unwrap()
        );
        assert_eq!(
            new_config.proposal_required_quorum,
            config.proposal_required_quorum.unwrap()
        );
    }
}

#[test]
fn test_submit_proposal_invalid_params() {
    let mut state = th_setup();

    // Invalid title
    {
        let response = th_submit(&mut state, 100_000, "mars_token", 2_000_000, "a",
            "A valid description", None, None);
        assert_eq!(
            response.unwrap_err(),
            ContractError::InvalidProposal { reason: InvalidProposalReason::TitleTooShort }
        );
    }
    {
        let long_title: String = (0..100).map(|_| "a").collect();
        let response = th_submit(&mut state, 100_000, "mars_token", 2_000_000, &long_title,
            "A valid description", None, None);
        assert_eq!(
            response.unwrap_err(),
            ContractError::InvalidProposal { reason: InvalidProposalReason::TitleTooLong }
        );
    }

    // Invalid description
    {
        let response = th_submit(&mut state, 100_000, "mars_token", 2_000_000, "A valid Title",
            "a", None, None);
        assert_eq!(
            response.unwrap_err(),
            ContractError::InvalidProposal {
                reason: InvalidProposalReason::DescriptionTooShort
            }
        );
    }
    {
        let long_description: String = (0..1030).map(|_| "a").collect();
        let response = th_submit(&mut state, 100_000, "mars_token", 2_000_000, "A valid Title",
            &long_description, None, None);
        assert_eq!(
            response.unwrap_err(),
            ContractError::InvalidProposal {
                reason: InvalidProposalReason::DescriptionTooLong
            }
        );
    }

    // Invalid link
    {
        let response = th_submit(&mut state, 100_000, "mars_token", 2_000_000, "A valid Title",
            "A valid description", Some(String::from("a")), None);
        assert_eq!(
            response.unwrap_err(),
            ContractError::InvalidProposal { reason: InvalidProposalReason::LinkTooShort }
        );
    }
    {
        let long_link: String = (0..150).map(|_| "a").collect();
        let response = th_submit(&mut state, 100_000, "mars_token", 2_000_000, "A valid Title",
            "A valid description", Some(long_link), None);
        assert_eq!(
            response.unwrap_err(),
            ContractError::InvalidProposal { reason: InvalidProposalReason::LinkTooLong }
        );
    }

    // Invalid deposit amount: "Must deposit at least 10000 Mars tokens"
    {
        let response = th_submit(&mut state, 100_000, "mars_token",
            TEST_PROPOSAL_REQUIRED_DEPOSIT - 100, "A valid Title", "A valid description", None,
            None);
        assert_eq!(
            response.unwrap_err(),
            ContractError::InvalidProposal {
                reason: InvalidProposalReason::DepositInsufficient { required: 10000 }
            }
        );
    }

    // Invalid deposit currency
    {
        let response = th_submit(&mut state, 100_000, "other_token",
            TEST_PROPOSAL_REQUIRED_DEPOSIT, "A valid Title", "A valid description", None, None);
        assert_eq!(
            response.unwrap_err(),
            ContractError::InvalidProposal {
                reason: InvalidProposalReason::DepositInsufficient { required: 10000 }
            }
        );
    }
}

#[test]
fn test_submit_proposal() {
    let mut state = th_setup();

    // Submit Proposal without link or call data
    let proposal_id = th_submit(&mut state, 100_000, "mars_token",
        TEST_PROPOSAL_REQUIRED_DEPOSIT, "A valid title", "A valid description", None, None)
        .unwrap();
    let expected_end_height = 100_000 + TEST_PROPOSAL_VOTING_PERIOD;
    assert_eq!(proposal_id, 1);
    assert_eq!(state.global_state.proposal_count, 1);

    let proposal = state.proposals.may_load(1).unwrap().clone();
    assert_eq!(proposal.submitter_address, "submitter");
    assert_eq!(proposal.status, ProposalStatus::Active);
    assert_eq!(proposal.for_votes, 0);
    assert_eq!(proposal.against_votes, 0);
    assert_eq!(proposal.start_height, 100_000);
    assert_eq!(proposal.end_height, expected_end_height);
    assert_eq!(proposal.title, "A valid title");
    assert_eq!(proposal.description, "A valid description");
    assert_eq!(proposal.link, None);
    assert_eq!(proposal.execute_calls, None);
    assert_eq!(proposal.deposit_amount, TEST_PROPOSAL_REQUIRED_DEPOSIT);

    // Submit Proposal with link and call data
    let msg_payload: Vec<u8> = br#"{"update_config":{"config":{}}}"#.to_vec();
    let proposal_id = th_submit(
        &mut state,
        100_000,
        "mars_token",
        TEST_PROPOSAL_REQUIRED_DEPOSIT,
        "A valid title",
        "A valid description",
        Some(String::from("https://www.avalidlink.com")),
        Some(vec![MsgExecuteCall {
            execution_order: 0,
            target_contract_address: String::from(MOCK_CONTRACT_ADDR),
            msg: msg_payload.clone(),
        }]),
    )
    .unwrap();
    assert_eq!(proposal_id, 2);
    assert_eq!(state.global_state.proposal_count, 2);

    let proposal = state.proposals.may_load(2).unwrap().clone();
    assert_eq!(proposal.link, Some(String::from("https://www.avalidlink.com")));
    assert_eq!(
        proposal.execute_calls,
        Some(vec![ProposalExecuteCall {
            execution_order: 0,
            target_contract_address: String::from(MOCK_CONTRACT_ADDR),
            msg: msg_payload,
        }])
    );
}

#[test]
fn test_invalid_cast_votes() {
    let mut state = th_setup();

    let active_proposal_id = 1_u64;
    th_build_mock_proposal(&mut state, MockProposal {
        id: active_proposal_id,
        status: ProposalStatus::Active,
        start_height: 100_000,
        end_height: 100_100,
        ..Default::default()
    });

    let executed_proposal_id = 2_u64;
    th_build_mock_proposal(&mut state, MockProposal {
        id: executed_proposal_id,
        status: ProposalStatus::Executed,
        start_height: 100_000,
        end_height: 100_100,
        ..Default::default()
    });

    // voting on a non-existent proposal should fail
    {
        let res_error = execute_cast_vote(&mut state, 100_001, String::from("valid_voter"), 3,
            ProposalVoteOption::For, 100);
        assert_eq!(res_error.unwrap_err(), ContractError::ProposalNotFound);
    }

    // voting on an inactive proposal should fail
    {
        let response = execute_cast_vote(&mut state, 100_001, String::from("valid_voter"),
            executed_proposal_id, ProposalVoteOption::For, 100);
        assert_eq!(response.unwrap_err(), ContractError::ProposalNotActive);
    }

    // voting after proposal end should fail
    {
        let response = execute_cast_vote(&mut state, 100_200, String::from("valid_voter"),
            active_proposal_id, ProposalVoteOption::For, 100);
        assert_eq!(response.unwrap_err(), ContractError::VoteVotingPeriodEnded);
    }

    // voting without any voting power should fail: the oracle reports a
    // zero balance at the snapshot height 99_999
    {
        let response = execute_cast_vote(&mut state, 100_001, String::from("invalid_voter"),
            active_proposal_id, ProposalVoteOption::For, 0);
        assert_eq!(response.unwrap_err(), ContractError::VoteNoVotingPower { block: 99_999 });
    }
}

#[test]
fn test_cast_vote() {
    let mut state = th_setup();
    let active_proposal_id = 1_u64;

    let active_proposal = th_build_mock_proposal(&mut state, MockProposal {
        id: active_proposal_id,
        status: ProposalStatus::Active,
        start_height: 100_000,
        end_height: 100_100,
        ..Default::default()
    });

    // Add another vote on an extra proposal to voter to validate voting on
    // multiple proposals is valid
    state.votes.save(4, String::from("voter"), ProposalVote {
        option: ProposalVoteOption::Against,
        power: 100,
    });

    // Valid vote for: the voter's balance at 99_999 is 100
    execute_cast_vote(&mut state, active_proposal.start_height + 1, String::from("voter"),
        active_proposal_id, ProposalVoteOption::For, 100)
        .unwrap();

    let proposal = state.proposals.may_load(active_proposal_id).unwrap();
    assert_eq!(proposal.for_votes, 100);
    assert_eq!(proposal.against_votes, 0);

    let proposal_vote = state.votes.may_load(active_proposal_id, "voter").unwrap();
    assert_eq!(proposal_vote.option, ProposalVoteOption::For);
    assert_eq!(proposal_vote.power, 100);

    // Voting again with same address should fail
    let response = execute_cast_vote(&mut state, active_proposal.start_height + 1,
        String::from("voter"), active_proposal_id, ProposalVoteOption::For, 100);
    assert_eq!(response.unwrap_err(), ContractError::VoteUserAlreadyVoted);

    // Valid against vote
    execute_cast_vote(&mut state, active_proposal.start_height + 1, String::from("voter2"),
        active_proposal_id, ProposalVoteOption::Against, 200)
        .unwrap();

    // Extra for and against votes to check aggregates are computed correctly
    execute_cast_vote(&mut state, active_proposal.start_height + 1, String::from("voter3"),
        active_proposal_id, ProposalVoteOption::For, 300)
        .unwrap();
    execute_cast_vote(&mut state, active_proposal.start_height + 1, String::from("voter4"),
        active_proposal_id, ProposalVoteOption::Against, 400)
        .unwrap();

    let proposal = state.proposals.may_load(active_proposal_id).unwrap();
    assert_eq!(proposal.for_votes, 100 + 300);
    assert_eq!(proposal.against_votes, 200 + 400);
}

#[test]
fn test_query_proposals() {
    // Arrange
    let mut state = th_setup();

    let active_proposal_1_id = 1_u64;
    th_build_mock_proposal(&mut state, MockProposal {
        id: active_proposal_1_id,
        status: ProposalStatus::Active,
        start_height: 100_000,
        end_height: 100_100,
        ..Default::default()
    });

    let active_proposal_2_id = 2_u64;
    let execute_calls = Some(vec![ProposalExecuteCall {
        execution_order: 0,
        target_contract_address: String::from("test_address"),
        msg: br#"{"some":123}"#.to_vec(),
    }]);
    th_build_mock_proposal(&mut state, MockProposal {
        id: active_proposal_2_id,
        status: ProposalStatus::Active,
        start_height: 100_000,
        end_height: 100_100,
        execute_calls,
        ..Default::default()
    });

    state.global_state.proposal_count = 2;

    // Assert correctly sorts asc
    let res = query_proposals(&state, None, None);
    assert_eq!(res.proposal_count, 2);
    assert_eq!(res.proposal_list.len(), 2);
    assert_eq!(res.proposal_list[0].proposal_id, active_proposal_1_id);
    assert_eq!(res.proposal_list[1].proposal_id, active_proposal_2_id);
    assert_eq!(
        res.proposal_list[1].execute_calls.clone().unwrap()[0].target_contract_address,
        String::from("test_address")
    );

    // Assert start != 0
    let res = query_proposals(&state, Some(2), None);
    assert_eq!(res.proposal_count, 2);
    assert_eq!(res.proposal_list.len(), 1);
    assert_eq!(res.proposal_list[0].proposal_id, active_proposal_2_id);

    // Assert start > length of collection
    let res = query_proposals(&state, Some(99), None);
    assert_eq!(res.proposal_count, 2);
    assert_eq!(res.proposal_list.len(), 0);

    // Assert limit
    let res = query_proposals(&state, None, Some(1));
    assert_eq!(res.proposal_count, 2);
    assert_eq!(res.proposal_list.len(), 1);
    assert_eq!(res.proposal_list[0].proposal_id, active_proposal_1_id);

    // Assert limit greater than length of collection
    let res = query_proposals(&state, None, Some(99));
    assert_eq!(res.proposal_count, 2);
    assert_eq!(res.proposal_list.len(), 2);
}

#[test]
fn test_invalid_end_proposals() {
    let mut state = th_setup();

    let active_proposal_id = 1_u64;
    let executed_proposal_id = 2_u64;

    th_build_mock_proposal(&mut state, MockProposal {
        id: active_proposal_id,
        status: ProposalStatus::Active,
        end_height: 100_000,
        ..Default::default()
    });
    th_build_mock_proposal(&mut state, MockProposal {
        id: executed_proposal_id,
        status: ProposalStatus::Executed,
        ..Default::default()
    });

    // cannot end a proposal that has not ended its voting period
    let response = execute_end_proposal(&mut state, 100_000, active_proposal_id, 100,
        String::from("staking"));
    assert_eq!(response.unwrap_err(), ContractError::EndProposalVotingPeriodNotEnded);

    // cannot end a non active proposal
    let response = execute_end_proposal(&mut state, 100_001, executed_proposal_id, 100,
        String::from("staking"));
    assert_eq!(response.unwrap_err(), ContractError::ProposalNotActive);
}

#[test]
fn test_end_proposal() {
    let mut state = th_setup();

    // total supply at the snapshot height 89_999 is 100_000
    let total_supply_at_snapshot: u128 = 100_000;
    state.config.proposal_required_threshold = Decimal::from_ratio(51, 100);
    state.config.proposal_required_quorum = Decimal::from_ratio(2, 100);
    let proposal_end_height = 100_000_u64;

    // end passed proposal
    let initial_passed_proposal = th_build_mock_proposal(&mut state, MockProposal {
        id: 1,
        status: ProposalStatus::Active,
        for_votes: 11_000,
        against_votes: 10_000,
        start_height: 90_000,
        end_height: proposal_end_height + 1,
        ..Default::default()
    });

    let res = execute_end_proposal(&mut state, initial_passed_proposal.end_height + 1, 1,
        total_supply_at_snapshot, String::from("staking"))
        .unwrap();
    assert_eq!(res.proposal_result, ProposalStatus::Passed);
    assert_eq!(res.transfer, TransferMsg {
        recipient: String::from("submitter"),
        amount: TEST_PROPOSAL_REQUIRED_DEPOSIT,
    });
    let final_passed_proposal = state.proposals.may_load(1).unwrap();
    assert_eq!(final_passed_proposal.status, ProposalStatus::Passed);

    // end rejected proposal (no quorum)
    let initial_rejected_proposal = th_build_mock_proposal(&mut state, MockProposal {
        id: 2,
        status: ProposalStatus::Active,
        for_votes: 11,
        against_votes: 10,
        start_height: 90_000,
        end_height: proposal_end_height + 1,
        ..Default::default()
    });

    let res = execute_end_proposal(&mut state, initial_rejected_proposal.end_height + 1, 2,
        total_supply_at_snapshot, String::from("staking"))
        .unwrap();
    assert_eq!(res.proposal_result, ProposalStatus::Rejected);
    assert_eq!(res.transfer, TransferMsg {
        recipient: String::from("staking"),
        amount: TEST_PROPOSAL_REQUIRED_DEPOSIT,
    });
    let final_rejected_proposal = state.proposals.may_load(2).unwrap();
    assert_eq!(final_rejected_proposal.status, ProposalStatus::Rejected);

    // end rejected proposal (no threshold)
    let initial_threshold_proposal = th_build_mock_proposal(&mut state, MockProposal {
        id: 3,
        status: ProposalStatus::Active,
        for_votes: 10_000,
        against_votes: 11_000,
        start_height: 90_000,
        end_height: proposal_end_height + 1,
        ..Default::default()
    });

    let res = execute_end_proposal(&mut state, initial_threshold_proposal.end_height + 1, 3,
        total_supply_at_snapshot, String::from("staking"))
        .unwrap();
    assert_eq!(res.proposal_result, ProposalStatus::Rejected);
    assert_eq!(res.transfer, TransferMsg {
        recipient: String::from("staking"),
        amount: TEST_PROPOSAL_REQUIRED_DEPOSIT,
    });
    let final_threshold_proposal = state.proposals.may_load(3).unwrap();
    assert_eq!(final_threshold_proposal.status, ProposalStatus::Rejected);
}

#[test]
fn test_invalid_execute_proposals() {
    let mut state = th_setup();

    let passed_proposal_id = 1_u64;
    let executed_proposal_id = 2_u64;

    let passed_proposal = th_build_mock_proposal(&mut state, MockProposal {
        id: passed_proposal_id,
        status: ProposalStatus::Passed,
        end_height: 100_000,
        ..Default::default()
    });
    let executed_proposal = th_build_mock_proposal(&mut state, MockProposal {
        id: executed_proposal_id,
        status: ProposalStatus::Executed,
        ..Default::default()
    });

    // cannot execute a non Passed proposal
    let response = execute_execute_proposal(&mut state,
        executed_proposal.end_height + TEST_PROPOSAL_EFFECTIVE_DELAY + 1, executed_proposal_id);
    assert_eq!(response.unwrap_err(), ContractError::ExecuteProposalNotPassed);

    // cannot execute a proposal before the effective delay has passed
    let response = execute_execute_proposal(&mut state, passed_proposal.end_height + 1,
        passed_proposal_id);
    assert_eq!(response.unwrap_err(), ContractError::ExecuteProposalDelayNotEnded);

    // cannot execute an expired proposal
    let response = execute_execute_proposal(
        &mut state,
        passed_proposal.end_height + TEST_PROPOSAL_EFFECTIVE_DELAY
            + TEST_PROPOSAL_EXPIRATION_PERIOD + 1,
        passed_proposal_id,
    );
    assert_eq!(response.unwrap_err(), ContractError::ExecuteProposalExpired);
}

#[test]
fn test_execute_proposals() {
    let mut state = th_setup();
    let contract_address = String::from(MOCK_CONTRACT_ADDR);
    let other_address = String::from("other");

    let binary_msg: Vec<u8> = br#"{"key": 123}"#.to_vec();
    let update_config_msg: Vec<u8> = br#"{"update_config":{"config":{}}}"#.to_vec();

    let initial_proposal = th_build_mock_proposal(&mut state, MockProposal {
        id: 1,
        status: ProposalStatus::Passed,
        end_height: 100_000,
        execute_calls: Some(vec![
            ProposalExecuteCall {
                execution_order: 2,
                msg: binary_msg.clone(),
                target_contract_address: other_address.clone(),
            },
            ProposalExecuteCall {
                execution_order: 3,
                msg: update_config_msg.clone(),
                target_contract_address: contract_address.clone(),
            },
            ProposalExecuteCall {
                execution_order: 1,
                msg: update_config_msg.clone(),
                target_contract_address: contract_address.clone(),
            },
        ]),
        ..Default::default()
    });

    let messages = execute_execute_proposal(&mut state,
        initial_proposal.end_height + TEST_PROPOSAL_EFFECTIVE_DELAY + 1, 1)
        .unwrap();

    assert_eq!(
        messages,
        vec![
            ProposalExecuteCall {
                execution_order: 1,
                target_contract_address: contract_address.clone(),
                msg: update_config_msg.clone(),
            },
            ProposalExecuteCall {
                execution_order: 2,
                target_contract_address: other_address.clone(),
                msg: binary_msg,
            },
            ProposalExecuteCall {
                execution_order: 3,
                target_contract_address: contract_address.clone(),
                msg: update_config_msg,
            },
        ]
    );

    let final_passed_proposal = state.proposals.may_load(1).unwrap();
    assert_eq!(ProposalStatus::Executed, final_passed_proposal.status);
}

#[test]
fn test_query_proposal_votes() {
    // Arrange
    let mut state = th_setup();
    let active_proposal_id = 1_u64;

    let active_proposal = th_build_mock_proposal(&mut state, MockProposal {
        id: active_proposal_id,
        status: ProposalStatus::Active,
        start_height: 100_000,
        end_height: 100_100,
        ..Default::default()
    });

    // Act: voters 1-3 for, 4-5 against, with balances 100..500 at 99_999
    let height = active_proposal.start_height + 1;
    execute_cast_vote(&mut state, height, String::from("voter1"), active_proposal_id,
        ProposalVoteOption::For, 100)
        .unwrap();
    execute_cast_vote(&mut state, height, String::from("voter2"), active_proposal_id,
        ProposalVoteOption::For, 200)
        .unwrap();
    execute_cast_vote(&mut state, height, String::from("voter3"), active_proposal_id,
        ProposalVoteOption::For, 300)
        .unwrap();
    execute_cast_vote(&mut state, height, String::from("voter4"), active_proposal_id,
        ProposalVoteOption::Against, 400)
        .unwrap();
    execute_cast_vote(&mut state, height, String::from("voter5"), active_proposal_id,
        ProposalVoteOption::Against, 500)
        .unwrap();

    // Assert default params
    let res = query_proposal_votes(&state, active_proposal_id, None, None);
    assert_eq!(res.votes.len(), 5);
    assert_eq!(res.proposal_id, active_proposal_id);

    // Assert correctly sorts asc
    assert_eq!(res.votes[0].voter_address, "voter1");
    assert_eq!(res.votes[0].option, ProposalVoteOption::For);
    assert_eq!(res.votes[0].power, 100);
    assert_eq!(res.votes[4].voter_address, "voter5");
    assert_eq!(res.votes[4].option, ProposalVoteOption::Against);
    assert_eq!(res.votes[4].power, 500);

    // Assert start_after
    let res = query_proposal_votes(&state, active_proposal_id, Some(String::from("voter4")),
        None);
    assert_eq!(res.votes.len(), 1);
    assert_eq!(res.votes[0].voter_address, "voter5");

    // Assert take
    let res = query_proposal_votes(&state, active_proposal_id, None, Some(1));
    assert_eq!(res.votes.len(), 1);
    assert_eq!(res.votes[0].voter_address, "voter1");
}
