use vstd::prelude::*;

verus! {

/// Opaque fixed-size public identifier of an actor or record owner:
/// 32 bytes, held as four 64-bit words in little-endian order.
#[derive(Clone, Copy, Debug, PartialEq, Eq, Structural)]
pub struct Identity {
    pub w0: u64,
    pub w1: u64,
    pub w2: u64,
    pub w3: u64,
}

/// Kind of a proposal: an informal idea has a low minimum-stake gate,
/// a formal proposal a higher one.
#[derive(Clone, Copy, Debug, PartialEq, Eq, Structural)]
pub enum ProposalType {
    Idea,
    Proposal,
}

/// One entry of a user's voting history; append-only, never mutated.
#[derive(Clone, Copy, Debug, PartialEq, Eq, Structural)]
pub struct VoteRecord {
    pub proposal_id: u64,
    pub option_index: u8,
    pub vote_weight: u64,
    pub timestamp: i64,
}

/// Global counter record from which proposal ids are issued.
#[derive(Clone, Copy, Debug, PartialEq, Eq, Structural)]
pub struct ProgramState {
    pub proposal_counter: u64,
}

/// A token-holder's account: logical staked balance, voting history and
/// accrued rewards.
#[derive(Debug)]
pub struct User {
    pub initialized: bool,
    pub wallet: Identity,
    pub staked_amount: u64,
    pub voting_history: Vec<VoteRecord>,
    pub rewards_earned: u64,
    pub last_claim_time: i64,
}

/// Mathematical value of a `User` record.
#[verifier::ext_equal]
pub struct UserV {
    pub initialized: bool,
    pub wallet: Identity,
    pub staked_amount: u64,
    pub voting_history: Seq<VoteRecord>,
    pub rewards_earned: u64,
    pub last_claim_time: i64,
}

impl View for User {
    type V = UserV;

    open spec fn view(&self) -> UserV {
        UserV {
            initialized: self.initialized,
            wallet: self.wallet,
            staked_amount: self.staked_amount,
            voting_history: self.voting_history@,
            rewards_earned: self.rewards_earned,
            last_claim_time: self.last_claim_time,
        }
    }
}

/// A creator's profile record.
#[derive(Debug)]
pub struct Creator {
    pub initialized: bool,
    pub owner: Identity,
    pub name: String,
    pub platform_links: Vec<String>,
    pub proposals: Vec<u64>,
    pub token_pool: u64,
}

/// Mathematical value of a `Creator` record.
#[verifier::ext_equal]
pub struct CreatorV {
    pub initialized: bool,
    pub owner: Identity,
    pub name: Seq<char>,
    pub platform_links: Seq<Seq<char>>,
    pub proposals: Seq<u64>,
    pub token_pool: u64,
}

impl View for Creator {
    type V = CreatorV;

    open spec fn view(&self) -> CreatorV {
        CreatorV {
            initialized: self.initialized,
            owner: self.owner,
            name: self.name@,
            platform_links: self.platform_links.deep_view(),
            proposals: self.proposals@,
            token_pool: self.token_pool,
        }
    }
}

/// A proposal record. Its tally invariant — `total_votes` equals the sum of
/// `votes`, and `votes` is as long as `options` — is stated by
/// [`crate::engine::tally_ok`].
#[derive(Debug)]
pub struct Proposal {
    pub initialized: bool,
    pub id: u64,
    pub creator: Identity,
    pub title: String,
    pub description: String,
    pub options: Vec<String>,
    pub votes: Vec<u64>,
    pub proposal_type: ProposalType,
    pub create_time: i64,
    pub end_time: i64,
    pub total_votes: u64,
    pub is_active: bool,
}

/// Mathematical value of a `Proposal` record.
#[verifier::ext_equal]
pub struct ProposalV {
    pub initialized: bool,
    pub id: u64,
    pub creator: Identity,
    pub title: Seq<char>,
    pub description: Seq<char>,
    pub options: Seq<Seq<char>>,
    pub votes: Seq<u64>,
    pub proposal_type: ProposalType,
    pub create_time: i64,
    pub end_time: i64,
    pub total_votes: u64,
    pub is_active: bool,
}

impl View for Proposal {
    type V = ProposalV;

    open spec fn view(&self) -> ProposalV {
        ProposalV {
            initialized: self.initialized,
            id: self.id,
            creator: self.creator,
            title: self.title@,
            description: self.description@,
            options: self.options.deep_view(),
            votes: self.votes@,
            proposal_type: self.proposal_type,
            create_time: self.create_time,
            end_time: self.end_time,
            total_votes: self.total_votes,
            is_active: self.is_active,
        }
    }
}

/// The six instructions of the ledger, decoded from a one-byte discriminant
/// in declaration order followed by the variant's fields.
#[derive(Debug)]
pub enum SMDAOInstruction {
    InitializeCreator { name: String, platform_links: Vec<String> },
    CreateProposal {
        title: String,
        description: String,
        options: Vec<String>,
        proposal_type: ProposalType,
        end_time: i64,
    },
    Vote { proposal_id: u64, option_index: u8, vote_weight: u64 },
    Stake { amount: u64 },
    Unstake { amount: u64 },
    ClaimRewards,
}

/// Mathematical value of an instruction.
#[verifier::ext_equal]
pub enum InstructionV {
    InitializeCreator { name: Seq<char>, platform_links: Seq<Seq<char>> },
    CreateProposal {
        title: Seq<char>,
        description: Seq<char>,
        options: Seq<Seq<char>>,
        proposal_type: ProposalType,
        end_time: i64,
    },
    Vote { proposal_id: u64, option_index: u8, vote_weight: u64 },
    Stake { amount: u64 },
    Unstake { amount: u64 },
    ClaimRewards,
}

impl View for SMDAOInstruction {
    type V = InstructionV;

    open spec fn view(&self) -> InstructionV {
        match self {
            SMDAOInstruction::InitializeCreator { name, platform_links } =>
                InstructionV::InitializeCreator {
                    name: name@,
                    platform_links: platform_links.deep_view(),
                },
            SMDAOInstruction::CreateProposal {
                title, description, options, proposal_type, end_time,
            } => InstructionV::CreateProposal {
                title: title@,
                description: description@,
                options: options.deep_view(),
                proposal_type: *proposal_type,
                end_time: *end_time,
            },
            SMDAOInstruction::Vote { proposal_id, option_index, vote_weight } =>
                InstructionV::Vote {
                    proposal_id: *proposal_id,
                    option_index: *option_index,
                    vote_weight: *vote_weight,
                },
            SMDAOInstruction::Stake { amount } => InstructionV::Stake { amount: *amount },
            SMDAOInstruction::Unstake { amount } => InstructionV::Unstake { amount: *amount },
            SMDAOInstruction::ClaimRewards => InstructionV::ClaimRewards,
        }
    }
}

} // verus!
