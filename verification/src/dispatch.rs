//! The instruction dispatcher and the six slot-level handlers. Each
//! handler takes the record slots of one invocation, decodes the records
//! it needs, runs the engine's transition, and — only after every check
//! has passed — commits the re-serialized records. A failing invocation
//! leaves every slot exactly as it was.
//!
//! Each handler's contract is one equation against a spec function over
//! slot values, so the byte-level behaviour of an invocation is pinned
//! down completely: which slots change, to which bytes, and which error
//! comes back on every rejected input.

use vstd::prelude::*;

use crate::codec::{
    dec_creator, dec_instruction, dec_proposal, dec_state, dec_user, decode_creator,
    decode_instruction, decode_proposal, decode_state, decode_user, enc_creator, enc_instruction,
    enc_proposal, enc_state, enc_user, encode_creator, encode_proposal, encode_state, encode_user,
    first_of, lemma_dec_enc_instruction, lemma_dec_enc_proposal, lemma_dec_enc_state, wf_creator,
    wf_instruction, wf_proposal, wf_user,
};
use crate::engine::{
    apply_claim, apply_stake, apply_unstake, apply_vote, create_proposal,
    lemma_vote_preserves_tally, register_creator, spec_claim, spec_create_proposal,
    spec_register_creator, spec_stake, spec_unstake, spec_vote, tally_ok,
};
use crate::errors::DaoError;
use crate::records::{
    Creator, CreatorV, Identity, InstructionV, ProgramState, Proposal, ProposalType, ProposalV,
    SMDAOInstruction, User, UserV,
};
use crate::store::{
    can_store, commit_record, fits_slot, slots_v, staged_bytes, write_bytes, RecordSlot, SlotV,
};

verus! {

/// A slot after a record encoding is committed over the front of its
/// bytes.
pub open spec fn staged_slot(s: SlotV, enc: Seq<u8>) -> SlotV {
    SlotV { data: write_bytes(s.data, enc), ..s }
}

// ---------------------------------------------------------------------------
// Creator registration
// ---------------------------------------------------------------------------

/// Slot-level registration: slot 0 is the creator slot, slot 1 the signing
/// owner; a third record (the external allocator) must be present but is
/// not read.
pub open spec fn spec_process_initialize_creator(
    program_id: Identity,
    slots: Seq<SlotV>,
    name: Seq<char>,
    platform_links: Seq<Seq<char>>,
) -> Result<Seq<SlotV>, DaoError> {
    if slots.len() < 3 {
        Err(DaoError::MissingRecord)
    } else {
        let cslot = slots[0];
        let owner = slots[1];
        match spec_register_creator(
            cslot.owner_program,
            program_id,
            owner.key,
            owner.is_signer,
            name,
            platform_links,
        ) {
            Err(e) => Err(e),
            Ok(c) => if !wf_creator(c) || !can_store(cslot.data, enc_creator(c)) {
                Err(DaoError::SerializationCapacityExceeded)
            } else {
                Ok(slots.update(0, staged_slot(cslot, enc_creator(c))))
            },
        }
    }
}

/// Register a creator profile; see [`spec_process_initialize_creator`].
pub fn process_initialize_creator(
    program_id: &Identity,
    slots: &mut Vec<RecordSlot>,
    name: String,
    platform_links: Vec<String>,
) -> (r: Result<(), DaoError>)
    ensures
        match r {
            Ok(()) => spec_process_initialize_creator(
                *program_id,
                slots_v(old(slots)@),
                name@,
                platform_links.deep_view(),
            ) == Ok::<Seq<SlotV>, DaoError>(slots_v(final(slots)@)),
            Err(e) => spec_process_initialize_creator(
                *program_id,
                slots_v(old(slots)@),
                name@,
                platform_links.deep_view(),
            ) == Err::<Seq<SlotV>, DaoError>(e) && slots_v(final(slots)@) == slots_v(old(slots)@),
        },
{
    if slots.len() < 3 {
        return Err(DaoError::MissingRecord);
    }
    let slot_owner = slots[0].owner_program;
    let signer_key = slots[1].key;
    let signed = slots[1].is_signer;
    let c = match register_creator(&slot_owner, program_id, &signer_key, signed, name,
        platform_links) {
        Ok(c) => c,
        Err(e) => {
            return Err(e);
        },
    };
    let enc = match encode_creator(&c) {
        Ok(b) => b,
        Err(_) => {
            return Err(DaoError::SerializationCapacityExceeded);
        },
    };
    if !fits_slot(&enc, &slots[0].data) {
        return Err(DaoError::SerializationCapacityExceeded);
    }
    let staged = staged_bytes(&enc, &slots[0].data);
    commit_record(slots, 0, staged);
    proof {
        assert(slots_v(slots@) =~~= slots_v(old(slots)@).update(
            0,
            staged_slot(slots_v(old(slots)@)[0], enc_creator(c@)),
        ));
    }
    Ok(())
}

// ---------------------------------------------------------------------------
// Proposal creation
// ---------------------------------------------------------------------------

/// Slot-level proposal creation, validation stage: slot 0 is the proposal
/// slot, slot 1 the creator profile, slot 2 the signing owner, slot 3 the
/// global counter; a fifth record (the external allocator) must be
/// present but is not read. The creator profile is validated before the
/// counter is read; an empty counter slot stands for a counter of zero.
pub open spec fn spec_create_stage(
    program_id: Identity,
    slots: Seq<SlotV>,
    title: Seq<char>,
    description: Seq<char>,
    options: Seq<Seq<char>>,
    proposal_type: ProposalType,
    end_time: i64,
    now: i64,
) -> Result<(ProposalV, CreatorV, ProgramState), DaoError> {
    if slots.len() < 5 {
        Err(DaoError::MissingRecord)
    } else if slots[0].owner_program != program_id {
        Err(DaoError::WrongOwningProgram)
    } else if !slots[2].is_signer {
        Err(DaoError::MissingAuthorization)
    } else {
        match first_of(dec_creator(slots[1].data)) {
            None => Err(DaoError::MalformedEncoding),
            Some(c) => if !c.initialized {
                Err(DaoError::UninitializedRecord)
            } else if c.owner != slots[2].key {
                Err(DaoError::AuthorizationMismatch)
            } else {
                let state_r = if slots[3].data.len() == 0 {
                    Some(ProgramState { proposal_counter: 0 })
                } else {
                    first_of(dec_state(slots[3].data))
                };
                match state_r {
                    None => Err(DaoError::MalformedEncoding),
                    Some(state) => spec_create_proposal(
                        slots[0].owner_program,
                        program_id,
                        slots[2].key,
                        slots[2].is_signer,
                        slots[1].key,
                        c,
                        state,
                        title,
                        description,
                        options,
                        proposal_type,
                        now,
                        end_time,
                    ),
                }
            },
        }
    }
}

/// Slot-level proposal creation, commit stage: all three mutated records
/// must fit their slots, then all three are written; otherwise nothing
/// is.
pub open spec fn spec_commit_create(
    slots: Seq<SlotV>,
    p2: ProposalV,
    c2: CreatorV,
    s2: ProgramState,
) -> Result<Seq<SlotV>, DaoError> {
    if !wf_proposal(p2) || !can_store(slots[0].data, enc_proposal(p2)) || !wf_creator(c2)
        || !can_store(slots[1].data, enc_creator(c2)) || !can_store(slots[3].data, enc_state(s2)) {
        Err(DaoError::SerializationCapacityExceeded)
    } else {
        Ok(
            slots.update(0, staged_slot(slots[0], enc_proposal(p2))).update(
                1,
                staged_slot(slots[1], enc_creator(c2)),
            ).update(3, staged_slot(slots[3], enc_state(s2))),
        )
    }
}

/// One whole proposal creation over slot values: validate, then commit.
pub open spec fn spec_process_create_proposal(
    program_id: Identity,
    slots: Seq<SlotV>,
    title: Seq<char>,
    description: Seq<char>,
    options: Seq<Seq<char>>,
    proposal_type: ProposalType,
    end_time: i64,
    now: i64,
) -> Result<Seq<SlotV>, DaoError> {
    match spec_create_stage(
        program_id,
        slots,
        title,
        description,
        options,
        proposal_type,
        end_time,
        now,
    ) {
        Err(e) => Err(e),
        Ok((p2, c2, s2)) => spec_commit_create(slots, p2, c2, s2),
    }
}

fn create_stage(
    program_id: &Identity,
    slots: &Vec<RecordSlot>,
    title: String,
    description: String,
    options: Vec<String>,
    proposal_type: ProposalType,
    end_time: i64,
    now: i64,
) -> (r: Result<(Proposal, Creator, ProgramState), DaoError>)
    ensures
        match r {
            Ok((p2, c2, s2)) => spec_create_stage(
                *program_id,
                slots_v(slots@),
                title@,
                description@,
                options.deep_view(),
                proposal_type,
                end_time,
                now,
            ) == Ok::<(ProposalV, CreatorV, ProgramState), DaoError>((p2@, c2@, s2)),
            Err(e) => spec_create_stage(
                *program_id,
                slots_v(slots@),
                title@,
                description@,
                options.deep_view(),
                proposal_type,
                end_time,
                now,
            ) == Err::<(ProposalV, CreatorV, ProgramState), DaoError>(e),
        },
{
    if slots.len() < 5 {
        return Err(DaoError::MissingRecord);
    }
    let slot_owner = slots[0].owner_program;
    if slot_owner != *program_id {
        return Err(DaoError::WrongOwningProgram);
    }
    let signed = slots[2].is_signer;
    if !signed {
        return Err(DaoError::MissingAuthorization);
    }
    let signer_key = slots[2].key;
    let creator_key = slots[1].key;
    let c = match decode_creator(&slots[1].data) {
        Ok(c) => c,
        Err(e) => {
            return Err(e);
        },
    };
    if !c.initialized {
        return Err(DaoError::UninitializedRecord);
    }
    if c.owner != signer_key {
        return Err(DaoError::AuthorizationMismatch);
    }
    let state = if slots[3].data.len() == 0 {
        ProgramState { proposal_counter: 0 }
    } else {
        match decode_state(&slots[3].data) {
            Ok(s) => s,
            Err(e) => {
                return Err(e);
            },
        }
    };
    create_proposal(&slot_owner, program_id, &signer_key, signed, &creator_key, c, &state, title,
        description, options, proposal_type, now, end_time)
}

#[verifier::rlimit(100)]
#[verifier::spinoff_prover]
fn commit_create(
    slots: &mut Vec<RecordSlot>,
    p2: &Proposal,
    c2: &Creator,
    s2: &ProgramState,
) -> (r: Result<(), DaoError>)
    requires
        old(slots)@.len() >= 5,
    ensures
        match r {
            Ok(()) => spec_commit_create(slots_v(old(slots)@), p2@, c2@, *s2) == Ok::<
                Seq<SlotV>,
                DaoError,
            >(slots_v(final(slots)@)),
            Err(e) => spec_commit_create(slots_v(old(slots)@), p2@, c2@, *s2) == Err::<
                Seq<SlotV>,
                DaoError,
            >(e) && slots_v(final(slots)@) == slots_v(old(slots)@),
        },
{
    let enc_p = match encode_proposal(p2) {
        Ok(b) => b,
        Err(_) => {
            return Err(DaoError::SerializationCapacityExceeded);
        },
    };
    let enc_c = match encode_creator(c2) {
        Ok(b) => b,
        Err(_) => {
            return Err(DaoError::SerializationCapacityExceeded);
        },
    };
    let enc_s = encode_state(s2);
    if !fits_slot(&enc_p, &slots[0].data) || !fits_slot(&enc_c, &slots[1].data) || !fits_slot(
        &enc_s,
        &slots[3].data,
    ) {
        return Err(DaoError::SerializationCapacityExceeded);
    }
    let staged_p = staged_bytes(&enc_p, &slots[0].data);
    let staged_c = staged_bytes(&enc_c, &slots[1].data);
    let staged_s = staged_bytes(&enc_s, &slots[3].data);
    let ghost pre = slots_v(old(slots)@);
    proof {
        assert(pre[0] == old(slots)@[0]@);
        assert(pre[1] == old(slots)@[1]@);
        assert(pre[3] == old(slots)@[3]@);
    }
    commit_record(slots, 0, staged_p);
    let ghost m1 = slots_v(slots@);
    proof {
        assert(m1[1] == slots@[1]@);
        assert(m1[3] == slots@[3]@);
    }
    commit_record(slots, 1, staged_c);
    let ghost m2 = slots_v(slots@);
    proof {
        assert(m2[3] == slots@[3]@);
    }
    commit_record(slots, 3, staged_s);
    proof {
        assert(m1 =~~= pre.update(0, staged_slot(pre[0], enc_proposal(p2@))));
        assert(m2 =~~= m1.update(1, staged_slot(pre[1], enc_creator(c2@))));
        assert(slots_v(slots@) =~~= m2.update(3, staged_slot(pre[3], enc_state(*s2))));
        assert(slots_v(slots@) =~~= pre.update(0, staged_slot(pre[0], enc_proposal(p2@))).update(
            1,
            staged_slot(pre[1], enc_creator(c2@)),
        ).update(3, staged_slot(pre[3], enc_state(*s2))));
    }
    Ok(())
}

/// Create a proposal; see [`spec_process_create_proposal`].
pub fn process_create_proposal(
    program_id: &Identity,
    slots: &mut Vec<RecordSlot>,
    title: String,
    description: String,
    options: Vec<String>,
    proposal_type: ProposalType,
    end_time: i64,
    now: i64,
) -> (r: Result<(), DaoError>)
    ensures
        match r {
            Ok(()) => spec_process_create_proposal(
                *program_id,
                slots_v(old(slots)@),
                title@,
                description@,
                options.deep_view(),
                proposal_type,
                end_time,
                now,
            ) == Ok::<Seq<SlotV>, DaoError>(slots_v(final(slots)@)),
            Err(e) => spec_process_create_proposal(
                *program_id,
                slots_v(old(slots)@),
                title@,
                description@,
                options.deep_view(),
                proposal_type,
                end_time,
                now,
            ) == Err::<Seq<SlotV>, DaoError>(e) && slots_v(final(slots)@) == slots_v(old(slots)@),
        },
{
    let (p2, c2, s2) = match create_stage(program_id, slots, title, description, options,
        proposal_type, end_time, now) {
        Ok(x) => x,
        Err(e) => {
            return Err(e);
        },
    };
    commit_create(slots, &p2, &c2, &s2)
}

// ---------------------------------------------------------------------------
// Voting
// ---------------------------------------------------------------------------

/// Slot-level voting, validation stage: slot 0 is the voter's account,
/// slot 1 the proposal, slot 2 the signing voter. Yields the mutated
/// records of a valid vote, or the first failing check's error.
pub open spec fn spec_vote_stage(
    program_id: Identity,
    slots: Seq<SlotV>,
    proposal_id: u64,
    option_index: u8,
    vote_weight: u64,
    now: i64,
) -> Result<(UserV, ProposalV), DaoError> {
    if slots.len() < 3 {
        Err(DaoError::MissingRecord)
    } else if !slots[2].is_signer {
        Err(DaoError::MissingAuthorization)
    } else {
        match first_of(dec_user(slots[0].data)) {
            None => Err(DaoError::MalformedEncoding),
            Some(u) => match first_of(dec_proposal(slots[1].data)) {
                None => Err(DaoError::MalformedEncoding),
                Some(p) => spec_vote(
                    u,
                    p,
                    slots[2].key,
                    slots[2].is_signer,
                    proposal_id,
                    option_index,
                    vote_weight,
                    now,
                ),
            },
        }
    }
}

/// Slot-level voting, commit stage: both mutated records must fit their
/// slots, then both are written; otherwise nothing is.
pub open spec fn spec_commit_vote(slots: Seq<SlotV>, u2: UserV, p2: ProposalV) -> Result<
    Seq<SlotV>,
    DaoError,
> {
    if !wf_proposal(p2) || !can_store(slots[1].data, enc_proposal(p2)) || !wf_user(u2)
        || !can_store(slots[0].data, enc_user(u2)) {
        Err(DaoError::SerializationCapacityExceeded)
    } else {
        Ok(
            slots.update(1, staged_slot(slots[1], enc_proposal(p2))).update(
                0,
                staged_slot(slots[0], enc_user(u2)),
            ),
        )
    }
}

/// One whole vote over slot values: validate, then commit.
pub open spec fn spec_process_vote(
    program_id: Identity,
    slots: Seq<SlotV>,
    proposal_id: u64,
    option_index: u8,
    vote_weight: u64,
    now: i64,
) -> Result<Seq<SlotV>, DaoError> {
    match spec_vote_stage(program_id, slots, proposal_id, option_index, vote_weight, now) {
        Err(e) => Err(e),
        Ok((u2, p2)) => spec_commit_vote(slots, u2, p2),
    }
}

fn vote_stage(
    program_id: &Identity,
    slots: &Vec<RecordSlot>,
    proposal_id: u64,
    option_index: u8,
    vote_weight: u64,
    now: i64,
) -> (r: Result<(User, Proposal), DaoError>)
    ensures
        match r {
            Ok((u2, p2)) => spec_vote_stage(
                *program_id,
                slots_v(slots@),
                proposal_id,
                option_index,
                vote_weight,
                now,
            ) == Ok::<(UserV, ProposalV), DaoError>((u2@, p2@)),
            Err(e) => spec_vote_stage(
                *program_id,
                slots_v(slots@),
                proposal_id,
                option_index,
                vote_weight,
                now,
            ) == Err::<(UserV, ProposalV), DaoError>(e),
        },
{
    if slots.len() < 3 {
        return Err(DaoError::MissingRecord);
    }
    let signed = slots[2].is_signer;
    if !signed {
        return Err(DaoError::MissingAuthorization);
    }
    let voter_key = slots[2].key;
    let u = match decode_user(&slots[0].data) {
        Ok(u) => u,
        Err(e) => {
            return Err(e);
        },
    };
    let p = match decode_proposal(&slots[1].data) {
        Ok(p) => p,
        Err(e) => {
            return Err(e);
        },
    };
    apply_vote(u, p, &voter_key, signed, proposal_id, option_index, vote_weight, now)
}

#[verifier::rlimit(100)]
#[verifier::spinoff_prover]
fn commit_vote(slots: &mut Vec<RecordSlot>, u2: &User, p2: &Proposal) -> (r: Result<
    (),
    DaoError,
>)
    requires
        old(slots)@.len() >= 3,
    ensures
        match r {
            Ok(()) => spec_commit_vote(slots_v(old(slots)@), u2@, p2@) == Ok::<
                Seq<SlotV>,
                DaoError,
            >(slots_v(final(slots)@)),
            Err(e) => spec_commit_vote(slots_v(old(slots)@), u2@, p2@) == Err::<
                Seq<SlotV>,
                DaoError,
            >(e) && slots_v(final(slots)@) == slots_v(old(slots)@),
        },
{
    let enc_p = match encode_proposal(p2) {
        Ok(b) => b,
        Err(_) => {
            return Err(DaoError::SerializationCapacityExceeded);
        },
    };
    let enc_u = match encode_user(u2) {
        Ok(b) => b,
        Err(_) => {
            return Err(DaoError::SerializationCapacityExceeded);
        },
    };
    if !fits_slot(&enc_p, &slots[1].data) || !fits_slot(&enc_u, &slots[0].data) {
        return Err(DaoError::SerializationCapacityExceeded);
    }
    let staged_p = staged_bytes(&enc_p, &slots[1].data);
    let staged_u = staged_bytes(&enc_u, &slots[0].data);
    let ghost pre = slots_v(old(slots)@);
    proof {
        assert(pre[0] == old(slots)@[0]@);
        assert(pre[1] == old(slots)@[1]@);
    }
    commit_record(slots, 1, staged_p);
    let ghost m1 = slots_v(slots@);
    proof {
        assert(m1[0] == slots@[0]@);
    }
    commit_record(slots, 0, staged_u);
    proof {
        assert(m1 =~~= pre.update(1, staged_slot(pre[1], enc_proposal(p2@))));
        assert(slots_v(slots@) =~~= m1.update(0, staged_slot(pre[0], enc_user(u2@))));
        assert(slots_v(slots@) =~~= pre.update(1, staged_slot(pre[1], enc_proposal(p2@))).update(
            0,
            staged_slot(pre[0], enc_user(u2@)),
        ));
    }
    Ok(())
}

/// Record a vote; see [`spec_process_vote`].
pub fn process_vote(
    program_id: &Identity,
    slots: &mut Vec<RecordSlot>,
    proposal_id: u64,
    option_index: u8,
    vote_weight: u64,
    now: i64,
) -> (r: Result<(), DaoError>)
    ensures
        match r {
            Ok(()) => spec_process_vote(
                *program_id,
                slots_v(old(slots)@),
                proposal_id,
                option_index,
                vote_weight,
                now,
            ) == Ok::<Seq<SlotV>, DaoError>(slots_v(final(slots)@)),
            Err(e) => spec_process_vote(
                *program_id,
                slots_v(old(slots)@),
                proposal_id,
                option_index,
                vote_weight,
                now,
            ) == Err::<Seq<SlotV>, DaoError>(e) && slots_v(final(slots)@) == slots_v(old(slots)@),
        },
{
    let (u2, p2) = match vote_stage(program_id, slots, proposal_id, option_index, vote_weight,
        now) {
        Ok(x) => x,
        Err(e) => {
            return Err(e);
        },
    };
    commit_vote(slots, &u2, &p2)
}

// ---------------------------------------------------------------------------
// Staking, unstaking, claiming
// ---------------------------------------------------------------------------

/// Slot-level staking: slot 0 is the user's account, slot 3 the signing
/// owner; slots 1, 2 and 4 (the external token accounts and token ledger)
/// must be present but are not read. An empty account slot, or one whose
/// record decodes with its `initialized` flag still clear, gets a fresh
/// account.
pub open spec fn spec_process_stake(
    program_id: Identity,
    slots: Seq<SlotV>,
    amount: u64,
    now: i64,
) -> Result<Seq<SlotV>, DaoError> {
    if slots.len() < 5 {
        Err(DaoError::MissingRecord)
    } else {
        let uslot = slots[0];
        let owner = slots[3];
        if !owner.is_signer {
            Err(DaoError::MissingAuthorization)
        } else {
            let u_r = if uslot.data.len() == 0 {
                Some(None)
            } else {
                match first_of(dec_user(uslot.data)) {
                    None => None,
                    Some(u) => Some(Some(u)),
                }
            };
            match u_r {
                None => Err(DaoError::MalformedEncoding),
                Some(u_opt) => match spec_stake(u_opt, owner.key, owner.is_signer, amount, now) {
                    Err(e) => Err(e),
                    Ok(u2) => if !wf_user(u2) || !can_store(uslot.data, enc_user(u2)) {
                        Err(DaoError::SerializationCapacityExceeded)
                    } else {
                        Ok(slots.update(0, staged_slot(uslot, enc_user(u2))))
                    },
                },
            }
        }
    }
}

/// Stake tokens; see [`spec_process_stake`].
pub fn process_stake(
    program_id: &Identity,
    slots: &mut Vec<RecordSlot>,
    amount: u64,
    now: i64,
) -> (r: Result<(), DaoError>)
    ensures
        match r {
            Ok(()) => spec_process_stake(*program_id, slots_v(old(slots)@), amount, now) == Ok::<
                Seq<SlotV>,
                DaoError,
            >(slots_v(final(slots)@)),
            Err(e) => spec_process_stake(*program_id, slots_v(old(slots)@), amount, now) == Err::<
                Seq<SlotV>,
                DaoError,
            >(e) && slots_v(final(slots)@) == slots_v(old(slots)@),
        },
{
    if slots.len() < 5 {
        return Err(DaoError::MissingRecord);
    }
    let signed = slots[3].is_signer;
    if !signed {
        return Err(DaoError::MissingAuthorization);
    }
    let owner_key = slots[3].key;
    let u_opt = if slots[0].data.len() == 0 {
        None
    } else {
        match decode_user(&slots[0].data) {
            Ok(u) => Some(u),
            Err(e) => {
                return Err(e);
            },
        }
    };
    let u2 = match apply_stake(u_opt, &owner_key, signed, amount, now) {
        Ok(x) => x,
        Err(e) => {
            return Err(e);
        },
    };
    let enc_u = match encode_user(&u2) {
        Ok(b) => b,
        Err(_) => {
            return Err(DaoError::SerializationCapacityExceeded);
        },
    };
    if !fits_slot(&enc_u, &slots[0].data) {
        return Err(DaoError::SerializationCapacityExceeded);
    }
    let staged_u = staged_bytes(&enc_u, &slots[0].data);
    commit_record(slots, 0, staged_u);
    proof {
        let pre = slots_v(old(slots)@);
        assert(slots_v(slots@) =~~= pre.update(0, staged_slot(pre[0], enc_user(u2@))));
    }
    Ok(())
}

/// Slot-level unstaking: slot 0 is the user's account, slot 3 the signing
/// owner; slots 1, 2 and 4 must be present but are not read.
pub open spec fn spec_process_unstake(
    program_id: Identity,
    slots: Seq<SlotV>,
    amount: u64,
) -> Result<Seq<SlotV>, DaoError> {
    if slots.len() < 5 {
        Err(DaoError::MissingRecord)
    } else {
        let uslot = slots[0];
        let owner = slots[3];
        if !owner.is_signer {
            Err(DaoError::MissingAuthorization)
        } else {
            match first_of(dec_user(uslot.data)) {
                None => Err(DaoError::MalformedEncoding),
                Some(u) => match spec_unstake(u, owner.key, owner.is_signer, amount) {
                    Err(e) => Err(e),
                    Ok(u2) => if !wf_user(u2) || !can_store(uslot.data, enc_user(u2)) {
                        Err(DaoError::SerializationCapacityExceeded)
                    } else {
                        Ok(slots.update(0, staged_slot(uslot, enc_user(u2))))
                    },
                },
            }
        }
    }
}

/// Unstake tokens; see [`spec_process_unstake`].
pub fn process_unstake(
    program_id: &Identity,
    slots: &mut Vec<RecordSlot>,
    amount: u64,
) -> (r: Result<(), DaoError>)
    ensures
        match r {
            Ok(()) => spec_process_unstake(*program_id, slots_v(old(slots)@), amount) == Ok::<
                Seq<SlotV>,
                DaoError,
            >(slots_v(final(slots)@)),
            Err(e) => spec_process_unstake(*program_id, slots_v(old(slots)@), amount) == Err::<
                Seq<SlotV>,
                DaoError,
            >(e) && slots_v(final(slots)@) == slots_v(old(slots)@),
        },
{
    if slots.len() < 5 {
        return Err(DaoError::MissingRecord);
    }
    let signed = slots[3].is_signer;
    if !signed {
        return Err(DaoError::MissingAuthorization);
    }
    let owner_key = slots[3].key;
    let u = match decode_user(&slots[0].data) {
        Ok(u) => u,
        Err(e) => {
            return Err(e);
        },
    };
    let u2 = match apply_unstake(u, &owner_key, signed, amount) {
        Ok(x) => x,
        Err(e) => {
            return Err(e);
        },
    };
    let enc_u = match encode_user(&u2) {
        Ok(b) => b,
        Err(_) => {
            return Err(DaoError::SerializationCapacityExceeded);
        },
    };
    if !fits_slot(&enc_u, &slots[0].data) {
        return Err(DaoError::SerializationCapacityExceeded);
    }
    let staged_u = staged_bytes(&enc_u, &slots[0].data);
    commit_record(slots, 0, staged_u);
    proof {
        let pre = slots_v(old(slots)@);
        assert(slots_v(slots@) =~~= pre.update(0, staged_slot(pre[0], enc_user(u2@))));
    }
    Ok(())
}

/// Slot-level reward claim: slot 0 is the user's account, slot 3 the
/// signing owner; slots 1, 2 and 4 must be present but are not read.
pub open spec fn spec_process_claim_rewards(
    program_id: Identity,
    slots: Seq<SlotV>,
    now: i64,
) -> Result<Seq<SlotV>, DaoError> {
    if slots.len() < 5 {
        Err(DaoError::MissingRecord)
    } else {
        let uslot = slots[0];
        let owner = slots[3];
        if !owner.is_signer {
            Err(DaoError::MissingAuthorization)
        } else {
            match first_of(dec_user(uslot.data)) {
                None => Err(DaoError::MalformedEncoding),
                Some(u) => match spec_claim(u, owner.key, owner.is_signer, now) {
                    Err(e) => Err(e),
                    Ok(u2) => if !wf_user(u2) || !can_store(uslot.data, enc_user(u2)) {
                        Err(DaoError::SerializationCapacityExceeded)
                    } else {
                        Ok(slots.update(0, staged_slot(uslot, enc_user(u2))))
                    },
                },
            }
        }
    }
}

/// Claim accrued rewards; see [`spec_process_claim_rewards`].
pub fn process_claim_rewards(
    program_id: &Identity,
    slots: &mut Vec<RecordSlot>,
    now: i64,
) -> (r: Result<(), DaoError>)
    ensures
        match r {
            Ok(()) => spec_process_claim_rewards(*program_id, slots_v(old(slots)@), now) == Ok::<
                Seq<SlotV>,
                DaoError,
            >(slots_v(final(slots)@)),
            Err(e) => spec_process_claim_rewards(*program_id, slots_v(old(slots)@), now) == Err::<
                Seq<SlotV>,
                DaoError,
            >(e) && slots_v(final(slots)@) == slots_v(old(slots)@),
        },
{
    if slots.len() < 5 {
        return Err(DaoError::MissingRecord);
    }
    let signed = slots[3].is_signer;
    if !signed {
        return Err(DaoError::MissingAuthorization);
    }
    let owner_key = slots[3].key;
    let u = match decode_user(&slots[0].data) {
        Ok(u) => u,
        Err(e) => {
            return Err(e);
        },
    };
    let u2 = match apply_claim(u, &owner_key, signed, now) {
        Ok(x) => x,
        Err(e) => {
            return Err(e);
        },
    };
    let enc_u = match encode_user(&u2) {
        Ok(b) => b,
        Err(_) => {
            return Err(DaoError::SerializationCapacityExceeded);
        },
    };
    if !fits_slot(&enc_u, &slots[0].data) {
        return Err(DaoError::SerializationCapacityExceeded);
    }
    let staged_u = staged_bytes(&enc_u, &slots[0].data);
    commit_record(slots, 0, staged_u);
    proof {
        let pre = slots_v(old(slots)@);
        assert(slots_v(slots@) =~~= pre.update(0, staged_slot(pre[0], enc_user(u2@))));
    }
    Ok(())
}

// ---------------------------------------------------------------------------
// Dispatch
// ---------------------------------------------------------------------------

/// One whole invocation over slot values: decode the instruction bytes and
/// run the matching handler.
pub open spec fn spec_process_instruction(
    program_id: Identity,
    slots: Seq<SlotV>,
    instruction_data: Seq<u8>,
    now: i64,
) -> Result<Seq<SlotV>, DaoError> {
    match first_of(dec_instruction(instruction_data)) {
        None => Err(DaoError::MalformedEncoding),
        Some(i) => match i {
            InstructionV::InitializeCreator { name, platform_links } =>
                spec_process_initialize_creator(program_id, slots, name, platform_links),
            InstructionV::CreateProposal {
                title,
                description,
                options,
                proposal_type,
                end_time,
            } => spec_process_create_proposal(
                program_id,
                slots,
                title,
                description,
                options,
                proposal_type,
                end_time,
                now,
            ),
            InstructionV::Vote { proposal_id, option_index, vote_weight } => spec_process_vote(
                program_id,
                slots,
                proposal_id,
                option_index,
                vote_weight,
                now,
            ),
            InstructionV::Stake { amount } => spec_process_stake(program_id, slots, amount, now),
            InstructionV::Unstake { amount } => spec_process_unstake(program_id, slots, amount),
            InstructionV::ClaimRewards => spec_process_claim_rewards(program_id, slots, now),
        },
    }
}

/// Decode and apply one instruction against the supplied record slots at
/// the supplied current time; see [`spec_process_instruction`]. On any
/// error, no slot is changed.
pub fn process_instruction(
    program_id: &Identity,
    slots: &mut Vec<RecordSlot>,
    instruction_data: &Vec<u8>,
    now: i64,
) -> (r: Result<(), DaoError>)
    ensures
        match r {
            Ok(()) => spec_process_instruction(
                *program_id,
                slots_v(old(slots)@),
                instruction_data@,
                now,
            ) == Ok::<Seq<SlotV>, DaoError>(slots_v(final(slots)@)),
            Err(e) => spec_process_instruction(
                *program_id,
                slots_v(old(slots)@),
                instruction_data@,
                now,
            ) == Err::<Seq<SlotV>, DaoError>(e) && slots_v(final(slots)@) == slots_v(old(slots)@),
        },
{
    let instruction = match decode_instruction(instruction_data) {
        Ok(i) => i,
        Err(e) => {
            return Err(e);
        },
    };
    match instruction {
        SMDAOInstruction::InitializeCreator { name, platform_links } =>
            process_initialize_creator(program_id, slots, name, platform_links),
        SMDAOInstruction::CreateProposal { title, description, options, proposal_type, end_time } =>
            process_create_proposal(
            program_id,
            slots,
            title,
            description,
            options,
            proposal_type,
            end_time,
            now,
        ),
        SMDAOInstruction::Vote { proposal_id, option_index, vote_weight } => process_vote(
            program_id,
            slots,
            proposal_id,
            option_index,
            vote_weight,
            now,
        ),
        SMDAOInstruction::Stake { amount } => process_stake(program_id, slots, amount, now),
        SMDAOInstruction::Unstake { amount } => process_unstake(program_id, slots, amount),
        SMDAOInstruction::ClaimRewards => process_claim_rewards(program_id, slots, now),
    }
}

// ---------------------------------------------------------------------------
// Laws at the slot level
// ---------------------------------------------------------------------------

/// A well-formed instruction's encoding decodes back to exactly that
/// instruction, so dispatching its encoding runs the matching handler on
/// precisely its field values; bytes that decode to no instruction make
/// the whole invocation fail with `MalformedEncoding` and touch no slot,
/// by [`spec_process_instruction`]'s first case.
pub proof fn lemma_process_encoded_instruction(
    program_id: Identity,
    slots: Seq<SlotV>,
    i: InstructionV,
    now: i64,
)
    requires
        wf_instruction(i),
    ensures
        spec_process_instruction(program_id, slots, enc_instruction(i), now) == (match i {
            InstructionV::InitializeCreator { name, platform_links } =>
                spec_process_initialize_creator(program_id, slots, name, platform_links),
            InstructionV::CreateProposal {
                title,
                description,
                options,
                proposal_type,
                end_time,
            } => spec_process_create_proposal(
                program_id,
                slots,
                title,
                description,
                options,
                proposal_type,
                end_time,
                now,
            ),
            InstructionV::Vote { proposal_id, option_index, vote_weight } => spec_process_vote(
                program_id,
                slots,
                proposal_id,
                option_index,
                vote_weight,
                now,
            ),
            InstructionV::Stake { amount } => spec_process_stake(program_id, slots, amount, now),
            InstructionV::Unstake { amount } => spec_process_unstake(program_id, slots, amount),
            InstructionV::ClaimRewards => spec_process_claim_rewards(program_id, slots, now),
        }),
{
    lemma_dec_enc_instruction(i, Seq::empty());
    assert(enc_instruction(i) + Seq::<u8>::empty() =~= enc_instruction(i));
}

/// After any committed vote, the proposal record stored in its slot still
/// satisfies the tally invariant: its `total_votes` is the sum of its
/// vote list, one entry per option.
#[verifier::rlimit(100)]
#[verifier::spinoff_prover]
pub proof fn lemma_process_vote_preserves_tally(
    program_id: Identity,
    slots: Seq<SlotV>,
    proposal_id: u64,
    option_index: u8,
    vote_weight: u64,
    now: i64,
)
    requires
        3 <= slots.len(),
        (match first_of(dec_proposal(slots[1].data)) {
            Some(p) => tally_ok(p),
            None => true,
        }),
    ensures
        (match spec_process_vote(program_id, slots, proposal_id, option_index, vote_weight, now) {
            Ok(slots2) => (match first_of(dec_proposal(slots2[1].data)) {
                Some(p2) => tally_ok(p2),
                None => false,
            }),
            Err(_) => true,
        }),
{
    match (first_of(dec_user(slots[0].data)), first_of(dec_proposal(slots[1].data))) {
        (Some(u), Some(p)) => {
            lemma_vote_preserves_tally(
                u,
                p,
                slots[2].key,
                slots[2].is_signer,
                proposal_id,
                option_index,
                vote_weight,
                now,
            );
            match spec_vote(
                u,
                p,
                slots[2].key,
                slots[2].is_signer,
                proposal_id,
                option_index,
                vote_weight,
                now,
            ) {
                Ok((u2, p2)) => {
                    if wf_proposal(p2) && can_store(slots[1].data, enc_proposal(p2)) && wf_user(u2)
                        && can_store(slots[0].data, enc_user(u2)) {
                        let stored = write_bytes(slots[1].data, enc_proposal(p2));
                        if slots[1].data.len() == 0 {
                            lemma_dec_enc_proposal(p2, Seq::empty());
                            assert(stored =~= enc_proposal(p2) + Seq::<u8>::empty());
                        } else {
                            let rest = slots[1].data.skip(enc_proposal(p2).len() as int);
                            lemma_dec_enc_proposal(p2, rest);
                        }
                    }
                },
                Err(_) => {},
            }
        },
        _ => {},
    }
}

/// A committed proposal creation issues the stored counter's current
/// value (zero for an empty counter slot) as the new proposal's id, and
/// leaves the stored counter exactly one larger — so ids issued across
/// any run of creations are strictly increasing and never reused, as
/// [`crate::engine::lemma_issued_ids_strictly_increasing`] states of the
/// counter transition.
#[verifier::rlimit(100)]
#[verifier::spinoff_prover]
pub proof fn lemma_process_create_issues_next_id(
    program_id: Identity,
    slots: Seq<SlotV>,
    title: Seq<char>,
    description: Seq<char>,
    options: Seq<Seq<char>>,
    proposal_type: ProposalType,
    end_time: i64,
    now: i64,
    s: ProgramState,
)
    requires
        5 <= slots.len(),
        (slots[3].data.len() == 0 && s.proposal_counter == 0) || (slots[3].data.len() != 0
            && first_of(dec_state(slots[3].data)) == Some(s)),
    ensures
        (match spec_process_create_proposal(
            program_id,
            slots,
            title,
            description,
            options,
            proposal_type,
            end_time,
            now,
        ) {
            Ok(slots2) => {
                &&& (match first_of(dec_proposal(slots2[0].data)) {
                    Some(p2) => p2.id == s.proposal_counter,
                    None => false,
                })
                &&& first_of(dec_state(slots2[3].data)) == Some(
                    (ProgramState { proposal_counter: (s.proposal_counter + 1) as u64 }),
                )
            },
            Err(_) => true,
        }),
{
    match spec_create_stage(
        program_id,
        slots,
        title,
        description,
        options,
        proposal_type,
        end_time,
        now,
    ) {
        Ok((p2, c2, s2)) => {
            if wf_proposal(p2) && can_store(slots[0].data, enc_proposal(p2)) && wf_creator(c2)
                && can_store(slots[1].data, enc_creator(c2)) && can_store(
                slots[3].data,
                enc_state(s2),
            ) {
                let stored_p = write_bytes(slots[0].data, enc_proposal(p2));
                if slots[0].data.len() == 0 {
                    lemma_dec_enc_proposal(p2, Seq::empty());
                    assert(stored_p =~= enc_proposal(p2) + Seq::<u8>::empty());
                } else {
                    lemma_dec_enc_proposal(p2, slots[0].data.skip(enc_proposal(p2).len() as int));
                }
                let stored_s = write_bytes(slots[3].data, enc_state(s2));
                if slots[3].data.len() == 0 {
                    lemma_dec_enc_state(s2, Seq::empty());
                    assert(stored_s =~= enc_state(s2) + Seq::<u8>::empty());
                } else {
                    lemma_dec_enc_state(s2, slots[3].data.skip(enc_state(s2).len() as int));
                }
            }
        },
        Err(_) => {},
    }
}

/// A vote whose weight exceeds the voter's staked balance fails the whole
/// invocation with `InsufficientFunds`, for every weight and balance,
/// whenever the checks ahead of the funds gates pass; by the handler's
/// contract no slot is changed on the error.
pub proof fn lemma_process_vote_insufficient_weight(
    program_id: Identity,
    slots: Seq<SlotV>,
    u: UserV,
    p: ProposalV,
    proposal_id: u64,
    option_index: u8,
    vote_weight: u64,
    now: i64,
)
    requires
        3 <= slots.len(),
        slots[2].is_signer,
        first_of(dec_user(slots[0].data)) == Some(u),
        first_of(dec_proposal(slots[1].data)) == Some(p),
        u.initialized,
        p.initialized,
        u.wallet == slots[2].key,
        p.is_active,
        now <= p.end_time,
        (option_index as int) < p.options.len(),
        (option_index as int) < p.votes.len(),
        vote_weight > u.staked_amount,
    ensures
        spec_process_vote(program_id, slots, proposal_id, option_index, vote_weight, now) == Err::<
            Seq<SlotV>,
            DaoError,
        >(DaoError::InsufficientFunds),
{
}

/// A vote after the proposal's end time fails the whole invocation with
/// `VotingPeriodEnded`; by the handler's contract no slot is changed.
pub proof fn lemma_process_vote_after_deadline(
    program_id: Identity,
    slots: Seq<SlotV>,
    u: UserV,
    p: ProposalV,
    proposal_id: u64,
    option_index: u8,
    vote_weight: u64,
    now: i64,
)
    requires
        3 <= slots.len(),
        slots[2].is_signer,
        first_of(dec_user(slots[0].data)) == Some(u),
        first_of(dec_proposal(slots[1].data)) == Some(p),
        u.initialized,
        p.initialized,
        u.wallet == slots[2].key,
        p.is_active,
        now > p.end_time,
    ensures
        spec_process_vote(program_id, slots, proposal_id, option_index, vote_weight, now) == Err::<
            Seq<SlotV>,
            DaoError,
        >(DaoError::VotingPeriodEnded),
{
}

/// A vote on an option index at or past the option list fails the whole
/// invocation with `InvalidIndex`; by the handler's contract no slot is
/// changed.
pub proof fn lemma_process_vote_index_out_of_range(
    program_id: Identity,
    slots: Seq<SlotV>,
    u: UserV,
    p: ProposalV,
    proposal_id: u64,
    option_index: u8,
    vote_weight: u64,
    now: i64,
)
    requires
        3 <= slots.len(),
        slots[2].is_signer,
        first_of(dec_user(slots[0].data)) == Some(u),
        first_of(dec_proposal(slots[1].data)) == Some(p),
        u.initialized,
        p.initialized,
        u.wallet == slots[2].key,
        p.is_active,
        now <= p.end_time,
        option_index as int >= p.options.len(),
    ensures
        spec_process_vote(program_id, slots, proposal_id, option_index, vote_weight, now) == Err::<
            Seq<SlotV>,
            DaoError,
        >(DaoError::InvalidIndex),
{
}

/// Unstaking more than the stored balance fails the whole invocation with
/// `InsufficientFunds`; a committed unstake writes exactly the stored
/// record with its balance reduced by the amount and no other field
/// changed.
pub proof fn lemma_process_unstake_exact(
    program_id: Identity,
    slots: Seq<SlotV>,
    u: UserV,
    amount: u64,
)
    requires
        5 <= slots.len(),
        slots[3].is_signer,
        first_of(dec_user(slots[0].data)) == Some(u),
        u.initialized,
        u.wallet == slots[3].key,
    ensures
        amount > u.staked_amount ==> spec_process_unstake(program_id, slots, amount) == Err::<
            Seq<SlotV>,
            DaoError,
        >(DaoError::InsufficientFunds),
        (match spec_process_unstake(program_id, slots, amount) {
            Ok(slots2) => amount <= u.staked_amount && slots2 == slots.update(
                0,
                staged_slot(
                    slots[0],
                    enc_user(
                        (UserV { staked_amount: (u.staked_amount - amount) as u64, ..u }),
                    ),
                ),
            ),
            Err(_) => true,
        }),
{
}

} // verus!
