//! The state-transition engine: the six deterministic transitions of the
//! ledger, each given first as a spec function that fixes the validation
//! order, the exact error for every rejected input, and the exact new
//! record values — and then as an executable function proved equal to it.
//!
//! The laws of the engine are stated and proved at the bottom: the vote
//! tally invariant, the strict monotonicity of issued proposal ids, and
//! the exact effect of staking, unstaking and failing votes.

use vstd::prelude::*;

use crate::errors::DaoError;
use crate::records::{
    Creator, CreatorV, Identity, ProgramState, Proposal, ProposalType, ProposalV, User, UserV,
    VoteRecord,
};

verus! {

/// Minimum staked balance required to vote on an informal idea.
pub const MIN_STAKE_IDEA: u64 = 10;

/// Minimum staked balance required to vote on a formal proposal.
pub const MIN_STAKE_PROPOSAL: u64 = 100;

/// Seconds per day, the unit of the reward rate.
pub const SECONDS_PER_DAY: u64 = 86400;

/// The minimum-stake gate of a proposal kind.
pub open spec fn min_stake(t: ProposalType) -> u64 {
    match t {
        ProposalType::Idea => MIN_STAKE_IDEA,
        ProposalType::Proposal => MIN_STAKE_PROPOSAL,
    }
}

/// Sum of a vote tally list.
pub open spec fn sum_votes(v: Seq<u64>) -> int
    decreases v.len(),
{
    if v.len() == 0 {
        0
    } else {
        v[0] + sum_votes(v.skip(1))
    }
}

/// The tally invariant of a proposal: the vote list is as long as the
/// option list and `total_votes` is the sum of the vote list.
pub open spec fn tally_ok(p: ProposalV) -> bool {
    p.votes.len() == p.options.len() && p.total_votes == sum_votes(p.votes)
}

// ---------------------------------------------------------------------------
// Creator registration
// ---------------------------------------------------------------------------

/// Registration of a creator profile: requires the target slot to be owned
/// by the executing program and the owner to have signed; writes a fresh
/// profile owned by the signer.
pub open spec fn spec_register_creator(
    slot_owner: Identity,
    program_id: Identity,
    signer: Identity,
    signed: bool,
    name: Seq<char>,
    platform_links: Seq<Seq<char>>,
) -> Result<CreatorV, DaoError> {
    if slot_owner != program_id {
        Err(DaoError::WrongOwningProgram)
    } else if !signed {
        Err(DaoError::MissingAuthorization)
    } else {
        Ok(
            CreatorV {
                initialized: true,
                owner: signer,
                name: name,
                platform_links: platform_links,
                proposals: Seq::empty(),
                token_pool: 0,
            },
        )
    }
}

/// Build the creator record of a registration, after the checks passed.
pub fn register_creator(
    slot_owner: &Identity,
    program_id: &Identity,
    signer: &Identity,
    signed: bool,
    name: String,
    platform_links: Vec<String>,
) -> (r: Result<Creator, DaoError>)
    ensures
        match r {
            Ok(c) => spec_register_creator(
                *slot_owner,
                *program_id,
                *signer,
                signed,
                name@,
                platform_links.deep_view(),
            ) == Ok::<CreatorV, DaoError>(c@),
            Err(e) => spec_register_creator(
                *slot_owner,
                *program_id,
                *signer,
                signed,
                name@,
                platform_links.deep_view(),
            ) == Err::<CreatorV, DaoError>(e),
        },
{
    if slot_owner != program_id {
        return Err(DaoError::WrongOwningProgram);
    }
    if !signed {
        return Err(DaoError::MissingAuthorization);
    }
    let c = Creator {
        initialized: true,
        owner: *signer,
        name,
        platform_links,
        proposals: Vec::new(),
        token_pool: 0,
    };
    proof {
        assert(c@ =~= (CreatorV {
            initialized: true,
            owner: *signer,
            name: c.name@,
            platform_links: c.platform_links.deep_view(),
            proposals: Seq::empty(),
            token_pool: 0,
        }));
    }
    Ok(c)
}

// ---------------------------------------------------------------------------
// Proposal creation
// ---------------------------------------------------------------------------

/// Issue the next proposal id from the global counter: the id is the
/// counter's current value, and the counter strictly increases.
pub open spec fn spec_issue(s: ProgramState) -> Result<(u64, ProgramState), DaoError> {
    if s.proposal_counter == u64::MAX {
        Err(DaoError::ArithmeticOverflow)
    } else {
        Ok((s.proposal_counter, ProgramState { proposal_counter: (s.proposal_counter + 1) as u64 }))
    }
}

/// Issue the next proposal id; see [`spec_issue`].
pub fn next_proposal_id(s: &ProgramState) -> (r: Result<(u64, ProgramState), DaoError>)
    ensures
        match r {
            Ok(x) => spec_issue(*s) == Ok::<(u64, ProgramState), DaoError>(x),
            Err(e) => spec_issue(*s) == Err::<(u64, ProgramState), DaoError>(e),
        },
{
    if s.proposal_counter == u64::MAX {
        Err(DaoError::ArithmeticOverflow)
    } else {
        Ok((s.proposal_counter, ProgramState { proposal_counter: s.proposal_counter + 1 }))
    }
}

/// Creation of a proposal: validates the creator profile and the signer,
/// issues the next id, and yields the new proposal, the creator profile
/// with the id appended, and the incremented counter. The new proposal's
/// tally is all zeros, one slot per option.
pub open spec fn spec_create_proposal(
    slot_owner: Identity,
    program_id: Identity,
    signer: Identity,
    signed: bool,
    creator_key: Identity,
    c: CreatorV,
    state: ProgramState,
    title: Seq<char>,
    description: Seq<char>,
    options: Seq<Seq<char>>,
    proposal_type: ProposalType,
    now: i64,
    end_time: i64,
) -> Result<(ProposalV, CreatorV, ProgramState), DaoError> {
    if slot_owner != program_id {
        Err(DaoError::WrongOwningProgram)
    } else if !signed {
        Err(DaoError::MissingAuthorization)
    } else if !c.initialized {
        Err(DaoError::UninitializedRecord)
    } else if c.owner != signer {
        Err(DaoError::AuthorizationMismatch)
    } else {
        match spec_issue(state) {
            Err(e) => Err(e),
            Ok((id, state2)) => Ok(
                (
                    (ProposalV {
                        initialized: true,
                        id: id,
                        creator: creator_key,
                        title: title,
                        description: description,
                        options: options,
                        votes: Seq::new(options.len(), |i: int| 0u64),
                        proposal_type: proposal_type,
                        create_time: now,
                        end_time: end_time,
                        total_votes: 0,
                        is_active: true,
                    }),
                    (CreatorV { proposals: c.proposals.push(id), ..c }),
                    state2,
                ),
            ),
        }
    }
}

/// Apply a proposal creation; see [`spec_create_proposal`].
pub fn create_proposal(
    slot_owner: &Identity,
    program_id: &Identity,
    signer: &Identity,
    signed: bool,
    creator_key: &Identity,
    c: Creator,
    state: &ProgramState,
    title: String,
    description: String,
    options: Vec<String>,
    proposal_type: ProposalType,
    now: i64,
    end_time: i64,
) -> (r: Result<(Proposal, Creator, ProgramState), DaoError>)
    ensures
        match r {
            Ok((p2, c2, s2)) => spec_create_proposal(
                *slot_owner,
                *program_id,
                *signer,
                signed,
                *creator_key,
                c@,
                *state,
                title@,
                description@,
                options.deep_view(),
                proposal_type,
                now,
                end_time,
            ) == Ok::<(ProposalV, CreatorV, ProgramState), DaoError>((p2@, c2@, s2)),
            Err(e) => spec_create_proposal(
                *slot_owner,
                *program_id,
                *signer,
                signed,
                *creator_key,
                c@,
                *state,
                title@,
                description@,
                options.deep_view(),
                proposal_type,
                now,
                end_time,
            ) == Err::<(ProposalV, CreatorV, ProgramState), DaoError>(e),
        },
{
    if slot_owner != program_id {
        return Err(DaoError::WrongOwningProgram);
    }
    if !signed {
        return Err(DaoError::MissingAuthorization);
    }
    if !c.initialized {
        return Err(DaoError::UninitializedRecord);
    }
    if c.owner != *signer {
        return Err(DaoError::AuthorizationMismatch);
    }
    let (id, state2) = match next_proposal_id(state) {
        Ok(x) => x,
        Err(e) => {
            return Err(e);
        },
    };
    let mut votes: Vec<u64> = Vec::new();
    let n = options.len();
    let mut i: usize = 0;
    while i < n
        invariant
            i <= n,
            votes@ == Seq::new(i as nat, |k: int| 0u64),
        decreases n - i,
    {
        votes.push(0u64);
        assert(votes@ =~= Seq::new(i as nat + 1, |k: int| 0u64));
        i = i + 1;
    }
    let p = Proposal {
        initialized: true,
        id,
        creator: *creator_key,
        title,
        description,
        options,
        votes,
        proposal_type,
        create_time: now,
        end_time,
        total_votes: 0,
        is_active: true,
    };
    let mut c2 = c;
    c2.proposals.push(id);
    proof {
        assert(Seq::new(p.options.deep_view().len(), |i: int| 0u64) =~= p.votes@);
        assert(c2@ =~= (CreatorV { proposals: c@.proposals.push(id), ..c@ }));
        assert(p@ =~= (ProposalV {
            initialized: true,
            id: id,
            creator: *creator_key,
            title: p.title@,
            description: p.description@,
            options: p.options.deep_view(),
            votes: Seq::new(p.options.deep_view().len(), |i: int| 0u64),
            proposal_type: proposal_type,
            create_time: now,
            end_time: end_time,
            total_votes: 0,
            is_active: true,
        }));
    }
    Ok((p, c2, state2))
}

// ---------------------------------------------------------------------------
// Voting
// ---------------------------------------------------------------------------

/// A vote: the full validation chain in order — authorization present,
/// records initialized, wallet matches the signer, proposal active,
/// deadline not passed, option index in range, minimum stake by kind,
/// weight bounded by the staked balance — then the tally update and the
/// history append. The staked balance itself is not debited. The index
/// check holds the index below both list lengths, which on a record whose
/// tally list disagrees with its option list also guards the update.
pub open spec fn spec_vote(
    u: UserV,
    p: ProposalV,
    signer: Identity,
    signed: bool,
    proposal_id: u64,
    option_index: u8,
    vote_weight: u64,
    now: i64,
) -> Result<(UserV, ProposalV), DaoError> {
    if !signed {
        Err(DaoError::MissingAuthorization)
    } else if !u.initialized || !p.initialized {
        Err(DaoError::UninitializedRecord)
    } else if u.wallet != signer {
        Err(DaoError::AuthorizationMismatch)
    } else if !p.is_active {
        Err(DaoError::ProposalInactive)
    } else if now > p.end_time {
        Err(DaoError::VotingPeriodEnded)
    } else if option_index as int >= p.options.len() || option_index as int >= p.votes.len() {
        Err(DaoError::InvalidIndex)
    } else if u.staked_amount < min_stake(p.proposal_type) {
        Err(DaoError::InsufficientFunds)
    } else if vote_weight > u.staked_amount {
        Err(DaoError::InsufficientFunds)
    } else if p.votes[option_index as int] + vote_weight > u64::MAX || p.total_votes + vote_weight
        > u64::MAX {
        Err(DaoError::ArithmeticOverflow)
    } else {
        Ok(
            (
                (UserV {
                    voting_history: u.voting_history.push(
                        VoteRecord {
                            proposal_id: proposal_id,
                            option_index: option_index,
                            vote_weight: vote_weight,
                            timestamp: now,
                        },
                    ),
                    ..u
                }),
                (ProposalV {
                    votes: p.votes.update(
                        option_index as int,
                        (p.votes[option_index as int] + vote_weight) as u64,
                    ),
                    total_votes: (p.total_votes + vote_weight) as u64,
                    ..p
                }),
            ),
        )
    }
}

/// Apply a vote; see [`spec_vote`].
pub fn apply_vote(
    u: User,
    p: Proposal,
    signer: &Identity,
    signed: bool,
    proposal_id: u64,
    option_index: u8,
    vote_weight: u64,
    now: i64,
) -> (r: Result<(User, Proposal), DaoError>)
    ensures
        match r {
            Ok((u2, p2)) => spec_vote(u@, p@, *signer, signed, proposal_id, option_index,
                vote_weight, now) == Ok::<(UserV, ProposalV), DaoError>((u2@, p2@)),
            Err(e) => spec_vote(u@, p@, *signer, signed, proposal_id, option_index, vote_weight,
                now) == Err::<(UserV, ProposalV), DaoError>(e),
        },
{
    if !signed {
        return Err(DaoError::MissingAuthorization);
    }
    if !u.initialized || !p.initialized {
        return Err(DaoError::UninitializedRecord);
    }
    if u.wallet != *signer {
        return Err(DaoError::AuthorizationMismatch);
    }
    if !p.is_active {
        return Err(DaoError::ProposalInactive);
    }
    if now > p.end_time {
        return Err(DaoError::VotingPeriodEnded);
    }
    let idx = option_index as usize;
    if idx >= p.options.len() || idx >= p.votes.len() {
        return Err(DaoError::InvalidIndex);
    }
    let gate = match p.proposal_type {
        ProposalType::Idea => MIN_STAKE_IDEA,
        ProposalType::Proposal => MIN_STAKE_PROPOSAL,
    };
    if u.staked_amount < gate {
        return Err(DaoError::InsufficientFunds);
    }
    if vote_weight > u.staked_amount {
        return Err(DaoError::InsufficientFunds);
    }
    let slot = match p.votes[idx].checked_add(vote_weight) {
        Some(x) => x,
        None => {
            return Err(DaoError::ArithmeticOverflow);
        },
    };
    let total = match p.total_votes.checked_add(vote_weight) {
        Some(x) => x,
        None => {
            return Err(DaoError::ArithmeticOverflow);
        },
    };
    let mut u2 = u;
    let mut p2 = p;
    p2.votes.set(idx, slot);
    p2.total_votes = total;
    u2.voting_history.push(
        VoteRecord { proposal_id, option_index, vote_weight, timestamp: now },
    );
    proof {
        assert(u2@ =~= (UserV {
            voting_history: u@.voting_history.push(
                VoteRecord {
                    proposal_id: proposal_id,
                    option_index: option_index,
                    vote_weight: vote_weight,
                    timestamp: now,
                },
            ),
            ..u@
        }));
        assert(p2@ =~= (ProposalV {
            votes: p@.votes.update(
                option_index as int,
                (p@.votes[option_index as int] + vote_weight) as u64,
            ),
            total_votes: (p@.total_votes + vote_weight) as u64,
            ..p@
        }));
    }
    Ok((u2, p2))
}

// ---------------------------------------------------------------------------
// Staking and unstaking
// ---------------------------------------------------------------------------

/// The account a first stake creates: owned by the signer, holding
/// exactly the staked amount, with no history, no rewards, and the claim
/// clock set to now.
pub open spec fn fresh_user(signer: Identity, amount: u64, now: i64) -> UserV {
    UserV {
        initialized: true,
        wallet: signer,
        staked_amount: amount,
        voting_history: Seq::empty(),
        rewards_earned: 0,
        last_claim_time: now,
    }
}

/// A stake: an uninitialized slot — one holding no record yet, or a
/// record whose `initialized` flag is still clear — gets a fresh account
/// with the staked balance equal to the amount; an existing account has
/// the amount added to its balance, checked against overflow. Only a
/// signer proof is required.
pub open spec fn spec_stake(
    u: Option<UserV>,
    signer: Identity,
    signed: bool,
    amount: u64,
    now: i64,
) -> Result<UserV, DaoError> {
    if !signed {
        Err(DaoError::MissingAuthorization)
    } else {
        match u {
            None => Ok(fresh_user(signer, amount, now)),
            Some(u) => if !u.initialized {
                Ok(fresh_user(signer, amount, now))
            } else if u.staked_amount + amount > u64::MAX {
                Err(DaoError::ArithmeticOverflow)
            } else {
                Ok((UserV { staked_amount: (u.staked_amount + amount) as u64, ..u }))
            },
        }
    }
}

/// Apply a stake; see [`spec_stake`]. `u` is `None` when the account slot
/// is still empty.
pub fn apply_stake(u: Option<User>, signer: &Identity, signed: bool, amount: u64, now: i64) -> (r:
    Result<User, DaoError>)
    ensures
        match r {
            Ok(u2) => spec_stake(
                match u {
                    Some(x) => Some(x@),
                    None => None,
                },
                *signer,
                signed,
                amount,
                now,
            ) == Ok::<UserV, DaoError>(u2@),
            Err(e) => spec_stake(
                match u {
                    Some(x) => Some(x@),
                    None => None,
                },
                *signer,
                signed,
                amount,
                now,
            ) == Err::<UserV, DaoError>(e),
        },
{
    if !signed {
        return Err(DaoError::MissingAuthorization);
    }
    let existing = match u {
        None => None,
        Some(ex) => if ex.initialized {
            Some(ex)
        } else {
            None
        },
    };
    match existing {
        None => {
            let fresh = User {
                initialized: true,
                wallet: *signer,
                staked_amount: amount,
                voting_history: Vec::new(),
                rewards_earned: 0,
                last_claim_time: now,
            };
            proof {
                assert(fresh@ =~= fresh_user(*signer, amount, now));
            }
            Ok(fresh)
        },
        Some(mut ex) => {
            let staked = match ex.staked_amount.checked_add(amount) {
                Some(x) => x,
                None => {
                    return Err(DaoError::ArithmeticOverflow);
                },
            };
            let ghost pre = ex@;
            ex.staked_amount = staked;
            proof {
                assert(ex@ =~= (UserV { staked_amount: (pre.staked_amount + amount) as u64, ..pre }));
            }
            Ok(ex)
        },
    }
}

/// An unstake: the account must exist, belong to the signer, and hold at
/// least the amount; the balance decreases by exactly the amount and no
/// other field changes.
pub open spec fn spec_unstake(u: UserV, signer: Identity, signed: bool, amount: u64) -> Result<
    UserV,
    DaoError,
> {
    if !signed {
        Err(DaoError::MissingAuthorization)
    } else if !u.initialized {
        Err(DaoError::UninitializedRecord)
    } else if u.wallet != signer {
        Err(DaoError::AuthorizationMismatch)
    } else if u.staked_amount < amount {
        Err(DaoError::InsufficientFunds)
    } else {
        Ok((UserV { staked_amount: (u.staked_amount - amount) as u64, ..u }))
    }
}

/// Apply an unstake; see [`spec_unstake`].
pub fn apply_unstake(u: User, signer: &Identity, signed: bool, amount: u64) -> (r: Result<
    User,
    DaoError,
>)
    ensures
        match r {
            Ok(u2) => spec_unstake(u@, *signer, signed, amount) == Ok::<UserV, DaoError>(u2@),
            Err(e) => spec_unstake(u@, *signer, signed, amount) == Err::<UserV, DaoError>(e),
        },
{
    if !signed {
        return Err(DaoError::MissingAuthorization);
    }
    if !u.initialized {
        return Err(DaoError::UninitializedRecord);
    }
    if u.wallet != *signer {
        return Err(DaoError::AuthorizationMismatch);
    }
    if u.staked_amount < amount {
        return Err(DaoError::InsufficientFunds);
    }
    let ghost pre = u@;
    let mut u2 = u;
    u2.staked_amount = u2.staked_amount - amount;
    proof {
        assert(u2@ =~= (UserV { staked_amount: (pre.staked_amount - amount) as u64, ..pre }));
    }
    Ok(u2)
}

// ---------------------------------------------------------------------------
// Reward accrual
// ---------------------------------------------------------------------------

/// A reward claim: the account must exist and belong to the signer; the
/// clock must not have run backwards — a claim time in the future is
/// rejected, not clamped, and reported with the checked-arithmetic kind,
/// since it is the elapsed-time subtraction that is being refused. The
/// reward is
/// `(staked / 100) * elapsed / 86400` in truncating integer arithmetic,
/// with the multiplication checked against overflow; it is added to the
/// earned rewards (checked) and the claim time advances to `now`.
pub open spec fn spec_claim(u: UserV, signer: Identity, signed: bool, now: i64) -> Result<
    UserV,
    DaoError,
> {
    if !signed {
        Err(DaoError::MissingAuthorization)
    } else if !u.initialized {
        Err(DaoError::UninitializedRecord)
    } else if u.wallet != signer {
        Err(DaoError::AuthorizationMismatch)
    } else if now < u.last_claim_time {
        Err(DaoError::ArithmeticOverflow)
    } else {
        let elapsed = now - u.last_claim_time;
        let daily = u.staked_amount as int / 100;
        if daily * elapsed > u64::MAX {
            Err(DaoError::ArithmeticOverflow)
        } else {
            let reward = daily * elapsed / (SECONDS_PER_DAY as int);
            if u.rewards_earned + reward > u64::MAX {
                Err(DaoError::ArithmeticOverflow)
            } else {
                Ok(
                    (UserV {
                        rewards_earned: (u.rewards_earned + reward) as u64,
                        last_claim_time: now,
                        ..u
                    }),
                )
            }
        }
    }
}

/// Apply a reward claim; see [`spec_claim`].
pub fn apply_claim(u: User, signer: &Identity, signed: bool, now: i64) -> (r: Result<
    User,
    DaoError,
>)
    ensures
        match r {
            Ok(u2) => spec_claim(u@, *signer, signed, now) == Ok::<UserV, DaoError>(u2@),
            Err(e) => spec_claim(u@, *signer, signed, now) == Err::<UserV, DaoError>(e),
        },
{
    if !signed {
        return Err(DaoError::MissingAuthorization);
    }
    if !u.initialized {
        return Err(DaoError::UninitializedRecord);
    }
    if u.wallet != *signer {
        return Err(DaoError::AuthorizationMismatch);
    }
    if now < u.last_claim_time {
        return Err(DaoError::ArithmeticOverflow);
    }
    let elapsed_wide: i128 = (now as i128) - (u.last_claim_time as i128);
    let daily: u64 = u.staked_amount / 100;
    let ghost elapsed = now - u.last_claim_time;
    assert(elapsed_wide == elapsed);
    let reward: u64;
    if daily == 0 {
        proof {
            assert(daily as int * elapsed == 0) by (nonlinear_arith)
                requires
                    daily == 0,
            ;
        }
        reward = 0;
        assert(reward as int == daily as int * elapsed / (SECONDS_PER_DAY as int));
    } else if elapsed_wide > (u64::MAX as i128) {
        proof {
            assert(daily as int * elapsed >= 1 * elapsed) by (nonlinear_arith)
                requires
                    daily >= 1,
                    elapsed >= 0,
            ;
        }
        return Err(DaoError::ArithmeticOverflow);
    } else {
        let elapsed_u: u64 = elapsed_wide as u64;
        assert(elapsed_u == elapsed);
        let prod = match daily.checked_mul(elapsed_u) {
            Some(x) => x,
            None => {
                return Err(DaoError::ArithmeticOverflow);
            },
        };
        reward = prod / SECONDS_PER_DAY;
    }
    let earned = match u.rewards_earned.checked_add(reward) {
        Some(x) => x,
        None => {
            return Err(DaoError::ArithmeticOverflow);
        },
    };
    let ghost pre = u@;
    let mut u2 = u;
    u2.rewards_earned = earned;
    u2.last_claim_time = now;
    proof {
        assert(u2@ =~= (UserV {
            rewards_earned: (pre.rewards_earned + (daily as int * elapsed / (
            SECONDS_PER_DAY as int))) as u64,
            last_claim_time: now,
            ..pre
        }));
    }
    Ok(u2)
}

// ---------------------------------------------------------------------------
// Laws of the engine
// ---------------------------------------------------------------------------

proof fn lemma_sum_update(v: Seq<u64>, i: int, x: u64)
    requires
        0 <= i < v.len(),
    ensures
        sum_votes(v.update(i, x)) == sum_votes(v) - v[i] + x,
    decreases v.len(),
{
    if i == 0 {
        assert(v.update(0, x)[0] == x);
        assert(v.update(0, x).skip(1) =~= v.skip(1));
    } else {
        assert(v.update(i, x)[0] == v[0]);
        assert(v.update(i, x).skip(1) =~= v.skip(1).update(i - 1, x));
        lemma_sum_update(v.skip(1), i - 1, x);
        assert(v.skip(1)[i - 1] == v[i]);
    }
}

proof fn lemma_sum_zeros(n: nat)
    ensures
        sum_votes(Seq::new(n, |i: int| 0u64)) == 0,
    decreases n,
{
    let v = Seq::new(n, |i: int| 0u64);
    if n > 0 {
        assert(v.skip(1) =~= Seq::new((n - 1) as nat, |i: int| 0u64));
        lemma_sum_zeros((n - 1) as nat);
    }
}

/// A proposal built by a successful creation satisfies the tally
/// invariant: one zero tally slot per option, and a zero total.
pub proof fn lemma_create_establishes_tally(
    slot_owner: Identity,
    program_id: Identity,
    signer: Identity,
    signed: bool,
    creator_key: Identity,
    c: CreatorV,
    state: ProgramState,
    title: Seq<char>,
    description: Seq<char>,
    options: Seq<Seq<char>>,
    proposal_type: ProposalType,
    now: i64,
    end_time: i64,
)
    ensures
        (match spec_create_proposal(
            slot_owner,
            program_id,
            signer,
            signed,
            creator_key,
            c,
            state,
            title,
            description,
            options,
            proposal_type,
            now,
            end_time,
        ) {
            Ok((p, _, _)) => tally_ok(p),
            Err(_) => true,
        }),
{
    lemma_sum_zeros(options.len());
}

/// After any single successful vote on a proposal that satisfies the
/// tally invariant, `total_votes` is again the sum of `votes`.
pub proof fn lemma_vote_preserves_tally(
    u: UserV,
    p: ProposalV,
    signer: Identity,
    signed: bool,
    proposal_id: u64,
    option_index: u8,
    vote_weight: u64,
    now: i64,
)
    requires
        tally_ok(p),
    ensures
        (match spec_vote(u, p, signer, signed, proposal_id, option_index, vote_weight, now) {
            Ok((u2, p2)) => tally_ok(p2),
            Err(_) => true,
        }),
{
    match spec_vote(u, p, signer, signed, proposal_id, option_index, vote_weight, now) {
        Ok((u2, p2)) => {
            lemma_sum_update(
                p.votes,
                option_index as int,
                (p.votes[option_index as int] + vote_weight) as u64,
            );
        },
        Err(_) => {},
    }
}

/// One vote request, as the engine sees it.
pub struct VoteEvent {
    pub user: UserV,
    pub signer: Identity,
    pub signed: bool,
    pub proposal_id: u64,
    pub option_index: u8,
    pub vote_weight: u64,
    pub now: i64,
}

/// The proposal after a run of vote requests: each successful vote updates
/// the tally, each rejected one leaves the proposal as it was.
pub open spec fn apply_votes(p: ProposalV, evs: Seq<VoteEvent>) -> ProposalV
    decreases evs.len(),
{
    if evs.len() == 0 {
        p
    } else {
        let e = evs[0];
        let p2 = match spec_vote(
            e.user,
            p,
            e.signer,
            e.signed,
            e.proposal_id,
            e.option_index,
            e.vote_weight,
            e.now,
        ) {
            Ok(r) => r.1,
            Err(_) => p,
        };
        apply_votes(p2, evs.skip(1))
    }
}

/// After any sequence of votes, a proposal that satisfied the tally
/// invariant still satisfies it: `total_votes == sum(votes)` at all times.
pub proof fn lemma_vote_sequence_preserves_tally(p: ProposalV, evs: Seq<VoteEvent>)
    requires
        tally_ok(p),
    ensures
        tally_ok(apply_votes(p, evs)),
    decreases evs.len(),
{
    if evs.len() > 0 {
        let e = evs[0];
        lemma_vote_preserves_tally(
            e.user,
            p,
            e.signer,
            e.signed,
            e.proposal_id,
            e.option_index,
            e.vote_weight,
            e.now,
        );
        let p2 = match spec_vote(
            e.user,
            p,
            e.signer,
            e.signed,
            e.proposal_id,
            e.option_index,
            e.vote_weight,
            e.now,
        ) {
            Ok(r) => r.1,
            Err(_) => p,
        };
        lemma_vote_sequence_preserves_tally(p2, evs.skip(1));
    }
}

/// The ids and final counter of a run of `n` successful id issuances.
pub open spec fn issue_n(s: ProgramState, n: nat) -> Option<(Seq<u64>, ProgramState)>
    decreases n,
{
    if n == 0 {
        Some((Seq::empty(), s))
    } else {
        match spec_issue(s) {
            Ok((id, s2)) => match issue_n(s2, (n - 1) as nat) {
                Some((ids, s3)) => Some((seq![id] + ids, s3)),
                None => None,
            },
            Err(_) => None,
        }
    }
}

/// Proposal ids issued across any sequence of successful creations are
/// strictly increasing and never reused: the k-th issued id is the
/// starting counter plus k, and the counter ends strictly past every
/// issued id.
pub proof fn lemma_issued_ids_strictly_increasing(s: ProgramState, n: nat)
    ensures
        (match issue_n(s, n) {
            Some((ids, s2)) => {
                &&& ids.len() == n
                &&& s2.proposal_counter == s.proposal_counter + n
                &&& (forall|k: int| 0 <= k < n ==> ids[k] == s.proposal_counter + k)
                &&& (forall|i: int, j: int| 0 <= i < j < n ==> ids[i] < ids[j])
            },
            None => true,
        }),
    decreases n,
{
    if n > 0 {
        match spec_issue(s) {
            Ok((id, s2)) => {
                lemma_issued_ids_strictly_increasing(s2, (n - 1) as nat);
                match issue_n(s2, (n - 1) as nat) {
                    Some((ids, s3)) => {
                        let all = seq![id] + ids;
                        assert(forall|k: int|
                            0 <= k < n ==> all[k] == s.proposal_counter + k) by {
                            assert(all[0] == id);
                            assert(forall|k: int|
                                1 <= k < n ==> all[k] == ids[k - 1] && ids[k - 1]
                                    == s2.proposal_counter + (k - 1));
                        }
                    },
                    None => {},
                }
            },
            Err(_) => {},
        }
    }
}

/// A vote whose weight exceeds the voter's staked balance fails with
/// `InsufficientFunds`, for every weight and every balance, whenever the
/// checks ahead of the funds gates pass; no record is changed.
pub proof fn lemma_vote_insufficient_weight(
    u: UserV,
    p: ProposalV,
    signer: Identity,
    signed: bool,
    proposal_id: u64,
    option_index: u8,
    vote_weight: u64,
    now: i64,
)
    requires
        signed,
        u.initialized,
        p.initialized,
        u.wallet == signer,
        p.is_active,
        now <= p.end_time,
        (option_index as int) < p.options.len(),
        (option_index as int) < p.votes.len(),
        vote_weight > u.staked_amount,
    ensures
        spec_vote(u, p, signer, signed, proposal_id, option_index, vote_weight, now) == Err::<
            (UserV, ProposalV),
            DaoError,
        >(DaoError::InsufficientFunds),
{
}

/// Unstaking more than the staked balance fails with `InsufficientFunds`;
/// otherwise the balance decreases by exactly the amount and no other
/// field changes.
pub proof fn lemma_unstake_exact(u: UserV, signer: Identity, signed: bool, amount: u64)
    requires
        signed,
        u.initialized,
        u.wallet == signer,
    ensures
        amount > u.staked_amount ==> spec_unstake(u, signer, signed, amount) == Err::<
            UserV,
            DaoError,
        >(DaoError::InsufficientFunds),
        amount <= u.staked_amount ==> spec_unstake(u, signer, signed, amount) == Ok::<
            UserV,
            DaoError,
        >((UserV { staked_amount: (u.staked_amount - amount) as u64, ..u })),
{
}

/// Staking into an uninitialized slot — empty, or holding a record whose
/// `initialized` flag is clear — creates an account whose staked balance
/// is exactly the amount, with no rewards, no history, and the claim
/// clock set to now.
pub proof fn lemma_stake_fresh(u: UserV, signer: Identity, amount: u64, now: i64)
    requires
        !u.initialized,
    ensures
        spec_stake(None, signer, true, amount, now) == Ok::<UserV, DaoError>(
            fresh_user(signer, amount, now),
        ),
        spec_stake(Some(u), signer, true, amount, now) == Ok::<UserV, DaoError>(
            fresh_user(signer, amount, now),
        ),
        fresh_user(signer, amount, now).staked_amount == amount,
        fresh_user(signer, amount, now).rewards_earned == 0,
{
}

} // verus!
