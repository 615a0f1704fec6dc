use smdao::codec::{decode_proposal, decode_user, encode_proposal, encode_user};
use smdao::engine::{
    apply_claim, apply_stake, apply_unstake, apply_vote, create_proposal, register_creator,
};
use smdao::errors::DaoError;
use smdao::records::{Identity, ProgramState, Proposal, ProposalType, User};

fn id(n: u64) -> Identity {
    Identity { w0: n, w1: 0, w2: 0, w3: 0 }
}

fn fresh_user(wallet: Identity, staked: u64) -> User {
    User {
        initialized: true,
        wallet,
        staked_amount: staked,
        voting_history: Vec::new(),
        rewards_earned: 0,
        last_claim_time: 0,
    }
}

fn ada_proposal(now: i64) -> Proposal {
    let program = id(1);
    let owner = id(2);
    let creator = register_creator(
        &program,
        &program,
        &owner,
        true,
        "Ada".to_string(),
        vec!["https://example.org/ada".to_string()],
    )
    .unwrap();
    let state = ProgramState { proposal_counter: 0 };
    let (proposal, creator2, state2) = create_proposal(
        &program,
        &program,
        &owner,
        true,
        &id(3),
        creator,
        &state,
        "T".to_string(),
        "D".to_string(),
        vec!["A".to_string(), "B".to_string()],
        ProposalType::Idea,
        now,
        now + 3600,
    )
    .unwrap();
    assert_eq!(proposal.id, 0);
    assert_eq!(creator2.proposals, vec![0u64]);
    assert_eq!(state2.proposal_counter, 1);
    assert_eq!(proposal.votes, vec![0u64, 0u64]);
    proposal
}

#[test]
fn vote_scenario_ada() {
    let p = ada_proposal(100);
    let voter = id(9);
    let u = fresh_user(voter, 50);
    let (u2, p2) = apply_vote(u, p, &voter, true, 0, 1, 10, 200).unwrap();
    assert_eq!(p2.votes, vec![0u64, 10u64]);
    assert_eq!(p2.total_votes, 10);
    assert_eq!(u2.voting_history.len(), 1);
    assert_eq!(u2.voting_history[0].vote_weight, 10);
    assert_eq!(u2.staked_amount, 50);
}

#[test]
fn vote_after_deadline_fails() {
    let p = ada_proposal(100);
    let voter = id(9);
    let u = fresh_user(voter, 50);
    let end = p.end_time;
    let r = apply_vote(u, p, &voter, true, 0, 1, 10, end + 1);
    assert_eq!(r.unwrap_err(), DaoError::VotingPeriodEnded);
}

#[test]
fn vote_out_of_range_index_fails() {
    let p = ada_proposal(100);
    let voter = id(9);
    let u = fresh_user(voter, 50);
    let r = apply_vote(u, p, &voter, true, 0, 2, 10, 200);
    assert_eq!(r.unwrap_err(), DaoError::InvalidIndex);
}

#[test]
fn vote_weight_above_stake_fails() {
    let p = ada_proposal(100);
    let voter = id(9);
    let u = fresh_user(voter, 50);
    let r = apply_vote(u, p, &voter, true, 0, 0, 51, 200);
    assert_eq!(r.unwrap_err(), DaoError::InsufficientFunds);
}

#[test]
fn stake_fresh_then_unstake() {
    let wallet = id(7);
    let u = apply_stake(None, &wallet, true, 1000, 5).unwrap();
    assert_eq!(u.staked_amount, 1000);
    assert_eq!(u.rewards_earned, 0);
    assert_eq!(u.last_claim_time, 5);
    let r = apply_unstake(u, &wallet, true, 1001);
    assert_eq!(r.unwrap_err(), DaoError::InsufficientFunds);
    let u = apply_stake(None, &wallet, true, 1000, 5).unwrap();
    let u2 = apply_unstake(u, &wallet, true, 300).unwrap();
    assert_eq!(u2.staked_amount, 700);
    assert_eq!(u2.rewards_earned, 0);
    assert_eq!(u2.wallet, wallet);
}

#[test]
fn claim_one_day_reward() {
    let wallet = id(7);
    let u = apply_stake(None, &wallet, true, 1000, 0).unwrap();
    let u2 = apply_claim(u, &wallet, true, 86400).unwrap();
    assert_eq!(u2.rewards_earned, 10);
    assert_eq!(u2.last_claim_time, 86400);
}

#[test]
fn user_round_trip_and_truncation() {
    let wallet = id(7);
    let u = apply_stake(None, &wallet, true, 42, 9).unwrap();
    let bytes = encode_user(&u).unwrap();
    let u2 = decode_user(&bytes).unwrap();
    assert_eq!(u2.staked_amount, 42);
    assert_eq!(u2.wallet, wallet);
    assert_eq!(u2.last_claim_time, 9);
    assert!(u2.initialized);
    let truncated: Vec<u8> = bytes[..bytes.len() - 1].to_vec();
    assert_eq!(decode_user(&truncated).unwrap_err(), DaoError::MalformedEncoding);
}

#[test]
fn proposal_round_trip() {
    let p = ada_proposal(100);
    let bytes = encode_proposal(&p).unwrap();
    let p2 = decode_proposal(&bytes).unwrap();
    assert_eq!(p2.title, "T");
    assert_eq!(p2.options, vec!["A".to_string(), "B".to_string()]);
    assert_eq!(p2.votes, vec![0u64, 0u64]);
    assert_eq!(p2.end_time, 3700);
    assert!(p2.is_active);
}

fn slot(key: Identity, owner_program: Identity, is_signer: bool, data: Vec<u8>) -> smdao::store::RecordSlot {
    smdao::store::RecordSlot { key, owner_program, is_signer, data }
}

#[test]
fn first_stake_into_empty_slot_creates_account() {
    let program = id(1);
    let wallet = id(7);
    let mut slots = vec![
        slot(id(10), program, false, Vec::new()),
        slot(id(11), program, false, Vec::new()),
        slot(id(12), program, false, Vec::new()),
        slot(wallet, program, true, Vec::new()),
        slot(id(13), program, false, Vec::new()),
    ];
    smdao::dispatch::process_stake(&program, &mut slots, 500, 40).unwrap();
    let u = decode_user(&slots[0].data).unwrap();
    assert!(u.initialized);
    assert_eq!(u.wallet, wallet);
    assert_eq!(u.staked_amount, 500);
    assert_eq!(u.rewards_earned, 0);
    assert_eq!(u.last_claim_time, 40);
    assert_eq!(u.voting_history.len(), 0);
}

#[test]
fn first_stake_into_zeroed_slot_creates_account() {
    let program = id(1);
    let wallet = id(7);
    let mut slots = vec![
        slot(id(10), program, false, vec![0u8; 100]),
        slot(id(11), program, false, Vec::new()),
        slot(id(12), program, false, Vec::new()),
        slot(wallet, program, true, Vec::new()),
        slot(id(13), program, false, Vec::new()),
    ];
    smdao::dispatch::process_stake(&program, &mut slots, 500, 40).unwrap();
    let u = decode_user(&slots[0].data).unwrap();
    assert!(u.initialized);
    assert_eq!(u.wallet, wallet);
    assert_eq!(u.staked_amount, 500);
    assert_eq!(slots[0].data.len(), 100);
}

#[test]
fn create_proposal_with_empty_counter_slot() {
    let program = id(1);
    let owner = id(2);
    let creator = register_creator(
        &program,
        &program,
        &owner,
        true,
        "Ada".to_string(),
        Vec::new(),
    )
    .unwrap();
    let mut creator_bytes = smdao::codec::encode_creator(&creator).unwrap();
    let padding = creator_bytes.len() + 64;
    creator_bytes.resize(padding, 0);
    let mut slots = vec![
        slot(id(20), program, false, Vec::new()),
        slot(id(21), program, false, creator_bytes),
        slot(owner, program, true, Vec::new()),
        slot(id(22), program, false, Vec::new()),
        slot(id(23), program, false, Vec::new()),
    ];
    smdao::dispatch::process_create_proposal(
        &program,
        &mut slots,
        "T".to_string(),
        "D".to_string(),
        vec!["A".to_string(), "B".to_string()],
        ProposalType::Idea,
        3600,
        100,
    )
    .unwrap();
    let p = decode_proposal(&slots[0].data).unwrap();
    assert_eq!(p.id, 0);
    assert_eq!(p.creator, id(21));
    let counter = smdao::codec::decode_state(&slots[3].data).unwrap();
    assert_eq!(counter.proposal_counter, 1);
}

#[test]
fn create_proposal_checks_creator_before_counter() {
    let program = id(1);
    let owner = id(2);
    let stale = smdao::records::Creator {
        initialized: false,
        owner,
        name: String::new(),
        platform_links: Vec::new(),
        proposals: Vec::new(),
        token_pool: 0,
    };
    let creator_bytes = smdao::codec::encode_creator(&stale).unwrap();
    let mut slots = vec![
        slot(id(20), program, false, Vec::new()),
        slot(id(21), program, false, creator_bytes),
        slot(owner, program, true, Vec::new()),
        slot(id(22), program, false, vec![1u8, 2u8, 3u8]),
        slot(id(23), program, false, Vec::new()),
    ];
    let r = smdao::dispatch::process_create_proposal(
        &program,
        &mut slots,
        "T".to_string(),
        "D".to_string(),
        vec!["A".to_string()],
        ProposalType::Idea,
        3600,
        100,
    );
    assert_eq!(r.unwrap_err(), DaoError::UninitializedRecord);
    assert_eq!(slots[0].data.len(), 0);
    assert_eq!(slots[3].data, vec![1u8, 2u8, 3u8]);
}
