//! Binary codec for the persisted records and the instruction payload.
//!
//! The layout is fixed: integers are little-endian and fixed-width, a
//! boolean is one byte holding 0 or 1, a string is a 4-byte byte-count
//! followed by its UTF-8 bytes, a list is a 4-byte element count followed
//! by the elements, and an enum is a 1-byte discriminant in declaration
//! order followed by the variant's fields.
//!
//! For every value each `enc_*` spec function gives the exact byte
//! sequence; each `dec_*` spec function reads one value off the front of a
//! byte sequence and returns it with the remaining bytes, or `None` when
//! the bytes do not decode. The `lemma_dec_enc_*` lemmas state the
//! round-trip law; the executable encoders and decoders are proved to
//! agree with the spec functions exactly.

use vstd::prelude::*;
use vstd::utf8::*;

use crate::errors::DaoError;
use crate::records::{
    Creator, CreatorV, Identity, InstructionV, ProgramState, Proposal, ProposalType, ProposalV,
    SMDAOInstruction, User, UserV, VoteRecord,
};

verus! {

// ---------------------------------------------------------------------------
// Fixed-width integers and booleans
// ---------------------------------------------------------------------------

pub open spec fn enc_u8(x: u8) -> Seq<u8> {
    seq![x]
}

pub open spec fn dec_u8(b: Seq<u8>) -> Option<(u8, Seq<u8>)> {
    if b.len() >= 1 {
        Some((b[0], b.skip(1)))
    } else {
        None
    }
}

pub proof fn lemma_dec_enc_u8(x: u8, rest: Seq<u8>)
    ensures
        dec_u8(enc_u8(x) + rest) == Some((x, rest)),
{
    assert((enc_u8(x) + rest).skip(1) =~= rest);
}

pub open spec fn enc_bool(x: bool) -> Seq<u8> {
    seq![if x { 1u8 } else { 0u8 }]
}

pub open spec fn dec_bool(b: Seq<u8>) -> Option<(bool, Seq<u8>)> {
    if b.len() >= 1 && (b[0] == 0u8 || b[0] == 1u8) {
        Some((b[0] == 1u8, b.skip(1)))
    } else {
        None
    }
}

pub proof fn lemma_dec_enc_bool(x: bool, rest: Seq<u8>)
    ensures
        dec_bool(enc_bool(x) + rest) == Some((x, rest)),
{
    assert((enc_bool(x) + rest).skip(1) =~= rest);
}

pub open spec fn enc_u32(x: u32) -> Seq<u8> {
    seq![x as u8, (x >> 8) as u8, (x >> 16) as u8, (x >> 24) as u8]
}

pub open spec fn u32_from_le(b0: u8, b1: u8, b2: u8, b3: u8) -> u32 {
    (b0 as u32) | ((b1 as u32) << 8) | ((b2 as u32) << 16) | ((b3 as u32) << 24)
}

pub open spec fn dec_u32(b: Seq<u8>) -> Option<(u32, Seq<u8>)> {
    if b.len() >= 4 {
        Some((u32_from_le(b[0], b[1], b[2], b[3]), b.skip(4)))
    } else {
        None
    }
}

pub proof fn lemma_dec_enc_u32(x: u32, rest: Seq<u8>)
    ensures
        dec_u32(enc_u32(x) + rest) == Some((x, rest)),
{
    assert(u32_from_le(x as u8, (x >> 8) as u8, (x >> 16) as u8, (x >> 24) as u8) == x)
        by (bit_vector);
    assert((enc_u32(x) + rest).skip(4) =~= rest);
}

pub open spec fn enc_u64(x: u64) -> Seq<u8> {
    seq![
        x as u8,
        (x >> 8) as u8,
        (x >> 16) as u8,
        (x >> 24) as u8,
        (x >> 32) as u8,
        (x >> 40) as u8,
        (x >> 48) as u8,
        (x >> 56) as u8,
    ]
}

pub open spec fn u64_from_le(b: Seq<u8>) -> u64
    recommends
        b.len() >= 8,
{
    (b[0] as u64) | ((b[1] as u64) << 8) | ((b[2] as u64) << 16) | ((b[3] as u64) << 24)
        | ((b[4] as u64) << 32) | ((b[5] as u64) << 40) | ((b[6] as u64) << 48)
        | ((b[7] as u64) << 56)
}

pub open spec fn dec_u64(b: Seq<u8>) -> Option<(u64, Seq<u8>)> {
    if b.len() >= 8 {
        Some((u64_from_le(b), b.skip(8)))
    } else {
        None
    }
}

pub proof fn lemma_dec_enc_u64(x: u64, rest: Seq<u8>)
    ensures
        dec_u64(enc_u64(x) + rest) == Some((x, rest)),
{
    let b = enc_u64(x) + rest;
    assert(b.len() >= 8);
    assert((x as u8 as u64) | ((x >> 8) as u8 as u64) << 8 | ((x >> 16) as u8 as u64) << 16
        | ((x >> 24) as u8 as u64) << 24 | ((x >> 32) as u8 as u64) << 32
        | ((x >> 40) as u8 as u64) << 40 | ((x >> 48) as u8 as u64) << 48
        | ((x >> 56) as u8 as u64) << 56 == x) by (bit_vector);
    assert(u64_from_le(b) == x);
    assert(b.skip(8) =~= rest);
}

/// A signed 64-bit value is laid out as its two's-complement bit pattern,
/// little-endian.
pub open spec fn enc_i64(x: i64) -> Seq<u8> {
    enc_u64(x as u64)
}

pub open spec fn dec_i64(b: Seq<u8>) -> Option<(i64, Seq<u8>)> {
    match dec_u64(b) {
        Some((v, rest)) => Some((v as i64, rest)),
        None => None,
    }
}

pub proof fn lemma_dec_enc_i64(x: i64, rest: Seq<u8>)
    ensures
        dec_i64(enc_i64(x) + rest) == Some((x, rest)),
{
    lemma_dec_enc_u64(x as u64, rest);
    assert((x as u64) as i64 == x) by (bit_vector);
}

// ---------------------------------------------------------------------------
// Identities
// ---------------------------------------------------------------------------

pub open spec fn enc_identity(id: Identity) -> Seq<u8> {
    enc_u64(id.w0) + enc_u64(id.w1) + enc_u64(id.w2) + enc_u64(id.w3)
}

pub open spec fn dec_identity(b: Seq<u8>) -> Option<(Identity, Seq<u8>)> {
    match dec_u64(b) {
        Some((w0, b)) => match dec_u64(b) {
            Some((w1, b)) => match dec_u64(b) {
                Some((w2, b)) => match dec_u64(b) {
                    Some((w3, b)) => Some((Identity { w0, w1, w2, w3 }, b)),
                    None => None,
                },
                None => None,
            },
            None => None,
        },
        None => None,
    }
}

pub proof fn lemma_dec_enc_identity(id: Identity, rest: Seq<u8>)
    ensures
        dec_identity(enc_identity(id) + rest) == Some((id, rest)),
{
    let t1 = enc_u64(id.w1) + (enc_u64(id.w2) + (enc_u64(id.w3) + rest));
    let t2 = enc_u64(id.w2) + (enc_u64(id.w3) + rest);
    let t3 = enc_u64(id.w3) + rest;
    assert(enc_identity(id) + rest =~= enc_u64(id.w0) + t1);
    lemma_dec_enc_u64(id.w0, t1);
    lemma_dec_enc_u64(id.w1, t2);
    lemma_dec_enc_u64(id.w2, t3);
    lemma_dec_enc_u64(id.w3, rest);
}

// ---------------------------------------------------------------------------
// Strings
// ---------------------------------------------------------------------------

/// A string fits the format when its UTF-8 byte length fits the 4-byte
/// length prefix.
pub open spec fn wf_str(s: Seq<char>) -> bool {
    encode_utf8(s).len() < 0x1_0000_0000
}

pub open spec fn enc_str(s: Seq<char>) -> Seq<u8> {
    enc_u32(encode_utf8(s).len() as u32) + encode_utf8(s)
}

pub open spec fn dec_str(b: Seq<u8>) -> Option<(Seq<char>, Seq<u8>)> {
    match dec_u32(b) {
        Some((n, r)) => if n <= r.len() && valid_utf8(r.take(n as int)) {
            Some((decode_utf8(r.take(n as int)), r.skip(n as int)))
        } else {
            None
        },
        None => None,
    }
}

pub proof fn lemma_dec_enc_str(s: Seq<char>, rest: Seq<u8>)
    requires
        wf_str(s),
    ensures
        dec_str(enc_str(s) + rest) == Some((s, rest)),
{
    let u = encode_utf8(s);
    let n = u.len() as u32;
    assert(enc_str(s) + rest =~= enc_u32(n) + (u + rest));
    lemma_dec_enc_u32(n, u + rest);
    assert((u + rest).take(n as int) =~= u);
    assert((u + rest).skip(n as int) =~= rest);
    broadcast use encode_utf8_valid_utf8, encode_utf8_decode_utf8;

    assert(valid_utf8(u));
    assert(decode_utf8(u) == s);
}

// ---------------------------------------------------------------------------
// Lists
// ---------------------------------------------------------------------------

pub open spec fn enc_str_elems(v: Seq<Seq<char>>) -> Seq<u8>
    decreases v.len(),
{
    if v.len() == 0 {
        Seq::empty()
    } else {
        enc_str(v[0]) + enc_str_elems(v.skip(1))
    }
}

pub open spec fn dec_str_elems(b: Seq<u8>, n: nat) -> Option<(Seq<Seq<char>>, Seq<u8>)>
    decreases n,
{
    if n == 0 {
        Some((Seq::empty(), b))
    } else {
        match dec_str(b) {
            Some((s, r)) => match dec_str_elems(r, (n - 1) as nat) {
                Some((ss, r2)) => Some((seq![s] + ss, r2)),
                None => None,
            },
            None => None,
        }
    }
}

pub open spec fn wf_str_list(v: Seq<Seq<char>>) -> bool {
    v.len() < 0x1_0000_0000 && (forall|i: int| 0 <= i < v.len() ==> wf_str(#[trigger] v[i]))
}

pub open spec fn enc_str_list(v: Seq<Seq<char>>) -> Seq<u8> {
    enc_u32(v.len() as u32) + enc_str_elems(v)
}

pub open spec fn dec_str_list(b: Seq<u8>) -> Option<(Seq<Seq<char>>, Seq<u8>)> {
    match dec_u32(b) {
        Some((n, r)) => dec_str_elems(r, n as nat),
        None => None,
    }
}

proof fn lemma_dec_enc_str_elems(v: Seq<Seq<char>>, rest: Seq<u8>)
    requires
        forall|i: int| 0 <= i < v.len() ==> wf_str(#[trigger] v[i]),
    ensures
        dec_str_elems(enc_str_elems(v) + rest, v.len()) == Some((v, rest)),
    decreases v.len(),
{
    if v.len() == 0 {
        assert(enc_str_elems(v) + rest =~= rest);
        assert(v =~= Seq::<Seq<char>>::empty());
    } else {
        let tail = enc_str_elems(v.skip(1)) + rest;
        assert(enc_str_elems(v) + rest =~= enc_str(v[0]) + tail);
        lemma_dec_enc_str(v[0], tail);
        lemma_dec_enc_str_elems(v.skip(1), rest);
        assert(seq![v[0]] + v.skip(1) =~= v);
    }
}

pub proof fn lemma_dec_enc_str_list(v: Seq<Seq<char>>, rest: Seq<u8>)
    requires
        wf_str_list(v),
    ensures
        dec_str_list(enc_str_list(v) + rest) == Some((v, rest)),
{
    let tail = enc_str_elems(v) + rest;
    assert(enc_str_list(v) + rest =~= enc_u32(v.len() as u32) + tail);
    lemma_dec_enc_u32(v.len() as u32, tail);
    lemma_dec_enc_str_elems(v, rest);
}

pub open spec fn enc_u64_elems(v: Seq<u64>) -> Seq<u8>
    decreases v.len(),
{
    if v.len() == 0 {
        Seq::empty()
    } else {
        enc_u64(v[0]) + enc_u64_elems(v.skip(1))
    }
}

pub open spec fn dec_u64_elems(b: Seq<u8>, n: nat) -> Option<(Seq<u64>, Seq<u8>)>
    decreases n,
{
    if n == 0 {
        Some((Seq::empty(), b))
    } else {
        match dec_u64(b) {
            Some((x, r)) => match dec_u64_elems(r, (n - 1) as nat) {
                Some((xs, r2)) => Some((seq![x] + xs, r2)),
                None => None,
            },
            None => None,
        }
    }
}

pub open spec fn wf_u64_list(v: Seq<u64>) -> bool {
    v.len() < 0x1_0000_0000
}

pub open spec fn enc_u64_list(v: Seq<u64>) -> Seq<u8> {
    enc_u32(v.len() as u32) + enc_u64_elems(v)
}

pub open spec fn dec_u64_list(b: Seq<u8>) -> Option<(Seq<u64>, Seq<u8>)> {
    match dec_u32(b) {
        Some((n, r)) => dec_u64_elems(r, n as nat),
        None => None,
    }
}

proof fn lemma_dec_enc_u64_elems(v: Seq<u64>, rest: Seq<u8>)
    ensures
        dec_u64_elems(enc_u64_elems(v) + rest, v.len()) == Some((v, rest)),
    decreases v.len(),
{
    if v.len() == 0 {
        assert(enc_u64_elems(v) + rest =~= rest);
        assert(v =~= Seq::<u64>::empty());
    } else {
        let tail = enc_u64_elems(v.skip(1)) + rest;
        assert(enc_u64_elems(v) + rest =~= enc_u64(v[0]) + tail);
        lemma_dec_enc_u64(v[0], tail);
        lemma_dec_enc_u64_elems(v.skip(1), rest);
        assert(seq![v[0]] + v.skip(1) =~= v);
    }
}

pub proof fn lemma_dec_enc_u64_list(v: Seq<u64>, rest: Seq<u8>)
    requires
        wf_u64_list(v),
    ensures
        dec_u64_list(enc_u64_list(v) + rest) == Some((v, rest)),
{
    let tail = enc_u64_elems(v) + rest;
    assert(enc_u64_list(v) + rest =~= enc_u32(v.len() as u32) + tail);
    lemma_dec_enc_u32(v.len() as u32, tail);
    lemma_dec_enc_u64_elems(v, rest);
}

// ---------------------------------------------------------------------------
// Vote records and their lists
// ---------------------------------------------------------------------------

pub open spec fn enc_vote_record(v: VoteRecord) -> Seq<u8> {
    enc_u64(v.proposal_id) + enc_u8(v.option_index) + enc_u64(v.vote_weight)
        + enc_i64(v.timestamp)
}

pub open spec fn dec_vote_record(b: Seq<u8>) -> Option<(VoteRecord, Seq<u8>)> {
    match dec_u64(b) {
        Some((proposal_id, b)) => match dec_u8(b) {
            Some((option_index, b)) => match dec_u64(b) {
                Some((vote_weight, b)) => match dec_i64(b) {
                    Some((timestamp, b)) => Some(
                        (VoteRecord { proposal_id, option_index, vote_weight, timestamp }, b),
                    ),
                    None => None,
                },
                None => None,
            },
            None => None,
        },
        None => None,
    }
}

pub proof fn lemma_dec_enc_vote_record(v: VoteRecord, rest: Seq<u8>)
    ensures
        dec_vote_record(enc_vote_record(v) + rest) == Some((v, rest)),
{
    let t1 = enc_u8(v.option_index) + (enc_u64(v.vote_weight) + (enc_i64(v.timestamp) + rest));
    let t2 = enc_u64(v.vote_weight) + (enc_i64(v.timestamp) + rest);
    let t3 = enc_i64(v.timestamp) + rest;
    assert(enc_vote_record(v) + rest =~= enc_u64(v.proposal_id) + t1);
    lemma_dec_enc_u64(v.proposal_id, t1);
    lemma_dec_enc_u8(v.option_index, t2);
    lemma_dec_enc_u64(v.vote_weight, t3);
    lemma_dec_enc_i64(v.timestamp, rest);
}

pub open spec fn enc_vr_elems(v: Seq<VoteRecord>) -> Seq<u8>
    decreases v.len(),
{
    if v.len() == 0 {
        Seq::empty()
    } else {
        enc_vote_record(v[0]) + enc_vr_elems(v.skip(1))
    }
}

pub open spec fn dec_vr_elems(b: Seq<u8>, n: nat) -> Option<(Seq<VoteRecord>, Seq<u8>)>
    decreases n,
{
    if n == 0 {
        Some((Seq::empty(), b))
    } else {
        match dec_vote_record(b) {
            Some((x, r)) => match dec_vr_elems(r, (n - 1) as nat) {
                Some((xs, r2)) => Some((seq![x] + xs, r2)),
                None => None,
            },
            None => None,
        }
    }
}

pub open spec fn wf_vr_list(v: Seq<VoteRecord>) -> bool {
    v.len() < 0x1_0000_0000
}

pub open spec fn enc_vr_list(v: Seq<VoteRecord>) -> Seq<u8> {
    enc_u32(v.len() as u32) + enc_vr_elems(v)
}

pub open spec fn dec_vr_list(b: Seq<u8>) -> Option<(Seq<VoteRecord>, Seq<u8>)> {
    match dec_u32(b) {
        Some((n, r)) => dec_vr_elems(r, n as nat),
        None => None,
    }
}

proof fn lemma_dec_enc_vr_elems(v: Seq<VoteRecord>, rest: Seq<u8>)
    ensures
        dec_vr_elems(enc_vr_elems(v) + rest, v.len()) == Some((v, rest)),
    decreases v.len(),
{
    if v.len() == 0 {
        assert(enc_vr_elems(v) + rest =~= rest);
        assert(v =~= Seq::<VoteRecord>::empty());
    } else {
        let tail = enc_vr_elems(v.skip(1)) + rest;
        assert(enc_vr_elems(v) + rest =~= enc_vote_record(v[0]) + tail);
        lemma_dec_enc_vote_record(v[0], tail);
        lemma_dec_enc_vr_elems(v.skip(1), rest);
        assert(seq![v[0]] + v.skip(1) =~= v);
    }
}

pub proof fn lemma_dec_enc_vr_list(v: Seq<VoteRecord>, rest: Seq<u8>)
    requires
        wf_vr_list(v),
    ensures
        dec_vr_list(enc_vr_list(v) + rest) == Some((v, rest)),
{
    let tail = enc_vr_elems(v) + rest;
    assert(enc_vr_list(v) + rest =~= enc_u32(v.len() as u32) + tail);
    lemma_dec_enc_u32(v.len() as u32, tail);
    lemma_dec_enc_vr_elems(v, rest);
}

// ---------------------------------------------------------------------------
// Enums with a one-byte discriminant
// ---------------------------------------------------------------------------

pub open spec fn enc_ptype(t: ProposalType) -> Seq<u8> {
    match t {
        ProposalType::Idea => seq![0u8],
        ProposalType::Proposal => seq![1u8],
    }
}

pub open spec fn dec_ptype(b: Seq<u8>) -> Option<(ProposalType, Seq<u8>)> {
    if b.len() >= 1 && b[0] == 0u8 {
        Some((ProposalType::Idea, b.skip(1)))
    } else if b.len() >= 1 && b[0] == 1u8 {
        Some((ProposalType::Proposal, b.skip(1)))
    } else {
        None
    }
}

pub proof fn lemma_dec_enc_ptype(t: ProposalType, rest: Seq<u8>)
    ensures
        dec_ptype(enc_ptype(t) + rest) == Some((t, rest)),
{
    assert((enc_ptype(t) + rest).skip(1) =~= rest);
}

// ---------------------------------------------------------------------------
// Whole records
// ---------------------------------------------------------------------------

pub open spec fn enc_state(s: ProgramState) -> Seq<u8> {
    enc_u64(s.proposal_counter)
}

pub open spec fn dec_state(b: Seq<u8>) -> Option<(ProgramState, Seq<u8>)> {
    match dec_u64(b) {
        Some((proposal_counter, b)) => Some((ProgramState { proposal_counter }, b)),
        None => None,
    }
}

pub proof fn lemma_dec_enc_state(s: ProgramState, rest: Seq<u8>)
    ensures
        dec_state(enc_state(s) + rest) == Some((s, rest)),
{
    lemma_dec_enc_u64(s.proposal_counter, rest);
}

/// A user record fits the format when its voting history fits the 4-byte
/// count prefix.
pub open spec fn wf_user(u: UserV) -> bool {
    wf_vr_list(u.voting_history)
}

pub open spec fn enc_user(u: UserV) -> Seq<u8> {
    enc_bool(u.initialized) + enc_identity(u.wallet) + enc_u64(u.staked_amount)
        + enc_vr_list(u.voting_history) + enc_u64(u.rewards_earned) + enc_i64(u.last_claim_time)
}

pub open spec fn dec_user(b: Seq<u8>) -> Option<(UserV, Seq<u8>)> {
    match dec_bool(b) {
        Some((initialized, b)) => match dec_identity(b) {
            Some((wallet, b)) => match dec_u64(b) {
                Some((staked_amount, b)) => match dec_vr_list(b) {
                    Some((voting_history, b)) => match dec_u64(b) {
                        Some((rewards_earned, b)) => match dec_i64(b) {
                            Some((last_claim_time, b)) => Some(
                                (
                                    UserV {
                                        initialized,
                                        wallet,
                                        staked_amount,
                                        voting_history,
                                        rewards_earned,
                                        last_claim_time,
                                    },
                                    b,
                                ),
                            ),
                            None => None,
                        },
                        None => None,
                    },
                    None => None,
                },
                None => None,
            },
            None => None,
        },
        None => None,
    }
}

#[verifier::rlimit(100)]
pub proof fn lemma_dec_enc_user(u: UserV, rest: Seq<u8>)
    requires
        wf_user(u),
    ensures
        dec_user(enc_user(u) + rest) == Some((u, rest)),
{
    let t5 = enc_i64(u.last_claim_time) + rest;
    let t4 = enc_u64(u.rewards_earned) + t5;
    let t3 = enc_vr_list(u.voting_history) + t4;
    let t2 = enc_u64(u.staked_amount) + t3;
    let t1 = enc_identity(u.wallet) + t2;
    assert(enc_user(u) + rest =~= enc_bool(u.initialized) + t1);
    lemma_dec_enc_bool(u.initialized, t1);
    assert(t1 =~= enc_identity(u.wallet) + t2);
    lemma_dec_enc_identity(u.wallet, t2);
    lemma_dec_enc_u64(u.staked_amount, t3);
    lemma_dec_enc_vr_list(u.voting_history, t4);
    lemma_dec_enc_u64(u.rewards_earned, t5);
    lemma_dec_enc_i64(u.last_claim_time, rest);
}

/// A creator record fits the format when its name, each platform link, and
/// both of its lists fit their 4-byte prefixes.
pub open spec fn wf_creator(c: CreatorV) -> bool {
    wf_str(c.name) && wf_str_list(c.platform_links) && wf_u64_list(c.proposals)
}

pub open spec fn enc_creator(c: CreatorV) -> Seq<u8> {
    enc_bool(c.initialized) + enc_identity(c.owner) + enc_str(c.name)
        + enc_str_list(c.platform_links) + enc_u64_list(c.proposals) + enc_u64(c.token_pool)
}

pub open spec fn dec_creator(b: Seq<u8>) -> Option<(CreatorV, Seq<u8>)> {
    match dec_bool(b) {
        Some((initialized, b)) => match dec_identity(b) {
            Some((owner, b)) => match dec_str(b) {
                Some((name, b)) => match dec_str_list(b) {
                    Some((platform_links, b)) => match dec_u64_list(b) {
                        Some((proposals, b)) => match dec_u64(b) {
                            Some((token_pool, b)) => Some(
                                (
                                    CreatorV {
                                        initialized,
                                        owner,
                                        name,
                                        platform_links,
                                        proposals,
                                        token_pool,
                                    },
                                    b,
                                ),
                            ),
                            None => None,
                        },
                        None => None,
                    },
                    None => None,
                },
                None => None,
            },
            None => None,
        },
        None => None,
    }
}

#[verifier::rlimit(100)]
pub proof fn lemma_dec_enc_creator(c: CreatorV, rest: Seq<u8>)
    requires
        wf_creator(c),
    ensures
        dec_creator(enc_creator(c) + rest) == Some((c, rest)),
{
    let t5 = enc_u64(c.token_pool) + rest;
    let t4 = enc_u64_list(c.proposals) + t5;
    let t3 = enc_str_list(c.platform_links) + t4;
    let t2 = enc_str(c.name) + t3;
    let t1 = enc_identity(c.owner) + t2;
    assert(enc_creator(c) + rest =~= enc_bool(c.initialized) + t1);
    lemma_dec_enc_bool(c.initialized, t1);
    lemma_dec_enc_identity(c.owner, t2);
    lemma_dec_enc_str(c.name, t3);
    lemma_dec_enc_str_list(c.platform_links, t4);
    lemma_dec_enc_u64_list(c.proposals, t5);
    lemma_dec_enc_u64(c.token_pool, rest);
}

/// A proposal record fits the format when its strings and lists fit their
/// 4-byte prefixes.
pub open spec fn wf_proposal(p: ProposalV) -> bool {
    wf_str(p.title) && wf_str(p.description) && wf_str_list(p.options) && wf_u64_list(p.votes)
}

pub open spec fn enc_proposal(p: ProposalV) -> Seq<u8> {
    enc_bool(p.initialized) + enc_u64(p.id) + enc_identity(p.creator) + enc_str(p.title)
        + enc_str(p.description) + enc_str_list(p.options) + enc_u64_list(p.votes)
        + enc_ptype(p.proposal_type) + enc_i64(p.create_time) + enc_i64(p.end_time)
        + enc_u64(p.total_votes) + enc_bool(p.is_active)
}

pub open spec fn dec_proposal_head(b: Seq<u8>) -> Option<
    ((bool, u64, Identity, Seq<char>, Seq<char>, Seq<Seq<char>>), Seq<u8>),
> {
    match dec_bool(b) {
        Some((initialized, b)) => match dec_u64(b) {
            Some((id, b)) => match dec_identity(b) {
                Some((creator, b)) => match dec_str(b) {
                    Some((title, b)) => match dec_str(b) {
                        Some((description, b)) => match dec_str_list(b) {
                            Some((options, b)) => Some(
                                ((initialized, id, creator, title, description, options), b),
                            ),
                            None => None,
                        },
                        None => None,
                    },
                    None => None,
                },
                None => None,
            },
            None => None,
        },
        None => None,
    }
}

pub open spec fn dec_proposal_tail(b: Seq<u8>) -> Option<
    ((Seq<u64>, ProposalType, i64, i64, u64, bool), Seq<u8>),
> {
    match dec_u64_list(b) {
        Some((votes, b)) => match dec_ptype(b) {
            Some((proposal_type, b)) => match dec_i64(b) {
                Some((create_time, b)) => match dec_i64(b) {
                    Some((end_time, b)) => match dec_u64(b) {
                        Some((total_votes, b)) => match dec_bool(b) {
                            Some((is_active, b)) => Some(
                                (
                                    (
                                        votes,
                                        proposal_type,
                                        create_time,
                                        end_time,
                                        total_votes,
                                        is_active,
                                    ),
                                    b,
                                ),
                            ),
                            None => None,
                        },
                        None => None,
                    },
                    None => None,
                },
                None => None,
            },
            None => None,
        },
        None => None,
    }
}

pub open spec fn dec_proposal(b: Seq<u8>) -> Option<(ProposalV, Seq<u8>)> {
    match dec_proposal_head(b) {
        Some(((initialized, id, creator, title, description, options), b)) => match dec_proposal_tail(
            b,
        ) {
            Some(((votes, proposal_type, create_time, end_time, total_votes, is_active), b)) =>
                Some(
                (
                    ProposalV {
                        initialized,
                        id,
                        creator,
                        title,
                        description,
                        options,
                        votes,
                        proposal_type,
                        create_time,
                        end_time,
                        total_votes,
                        is_active,
                    },
                    b,
                ),
            ),
            None => None,
        },
        None => None,
    }
}

#[verifier::rlimit(100)]
pub proof fn lemma_dec_enc_proposal(p: ProposalV, rest: Seq<u8>)
    requires
        wf_proposal(p),
    ensures
        dec_proposal(enc_proposal(p) + rest) == Some((p, rest)),
{
    let t11 = enc_bool(p.is_active) + rest;
    let t10 = enc_u64(p.total_votes) + t11;
    let t9 = enc_i64(p.end_time) + t10;
    let t8 = enc_i64(p.create_time) + t9;
    let t7 = enc_ptype(p.proposal_type) + t8;
    let t6 = enc_u64_list(p.votes) + t7;
    let t5 = enc_str_list(p.options) + t6;
    let t4 = enc_str(p.description) + t5;
    let t3 = enc_str(p.title) + t4;
    let t2 = enc_identity(p.creator) + t3;
    let t1 = enc_u64(p.id) + t2;
    let l1 = enc_bool(p.initialized);
    let l2 = l1 + enc_u64(p.id);
    let l3 = l2 + enc_identity(p.creator);
    let l4 = l3 + enc_str(p.title);
    let l5 = l4 + enc_str(p.description);
    let l6 = l5 + enc_str_list(p.options);
    let l7 = l6 + enc_u64_list(p.votes);
    let l8 = l7 + enc_ptype(p.proposal_type);
    let l9 = l8 + enc_i64(p.create_time);
    let l10 = l9 + enc_i64(p.end_time);
    let l11 = l10 + enc_u64(p.total_votes);
    let b = enc_proposal(p) + rest;
    vstd::seq_lib::lemma_concat_associative(l11, enc_bool(p.is_active), rest);
    vstd::seq_lib::lemma_concat_associative(l10, enc_u64(p.total_votes), t11);
    vstd::seq_lib::lemma_concat_associative(l9, enc_i64(p.end_time), t10);
    vstd::seq_lib::lemma_concat_associative(l8, enc_i64(p.create_time), t9);
    vstd::seq_lib::lemma_concat_associative(l7, enc_ptype(p.proposal_type), t8);
    vstd::seq_lib::lemma_concat_associative(l6, enc_u64_list(p.votes), t7);
    vstd::seq_lib::lemma_concat_associative(l5, enc_str_list(p.options), t6);
    vstd::seq_lib::lemma_concat_associative(l4, enc_str(p.description), t5);
    vstd::seq_lib::lemma_concat_associative(l3, enc_str(p.title), t4);
    vstd::seq_lib::lemma_concat_associative(l2, enc_identity(p.creator), t3);
    vstd::seq_lib::lemma_concat_associative(l1, enc_u64(p.id), t2);
    assert(b == enc_bool(p.initialized) + t1);
    lemma_dec_enc_bool(p.initialized, t1);
    assert(dec_bool(b) == Some((p.initialized, t1)));
    lemma_dec_enc_u64(p.id, t2);
    assert(dec_u64(t1) == Some((p.id, t2)));
    lemma_dec_enc_identity(p.creator, t3);
    assert(dec_identity(t2) == Some((p.creator, t3)));
    lemma_dec_enc_str(p.title, t4);
    assert(dec_str(t3) == Some((p.title, t4)));
    lemma_dec_enc_str(p.description, t5);
    assert(dec_str(t4) == Some((p.description, t5)));
    lemma_dec_enc_str_list(p.options, t6);
    assert(dec_str_list(t5) == Some((p.options, t6)));
    assert(dec_proposal_head(b) == Some(
        ((p.initialized, p.id, p.creator, p.title, p.description, p.options), t6),
    ));
    lemma_dec_enc_u64_list(p.votes, t7);
    assert(dec_u64_list(t6) == Some((p.votes, t7)));
    lemma_dec_enc_ptype(p.proposal_type, t8);
    assert(dec_ptype(t7) == Some((p.proposal_type, t8)));
    lemma_dec_enc_i64(p.create_time, t9);
    assert(dec_i64(t8) == Some((p.create_time, t9)));
    lemma_dec_enc_i64(p.end_time, t10);
    assert(dec_i64(t9) == Some((p.end_time, t10)));
    lemma_dec_enc_u64(p.total_votes, t11);
    assert(dec_u64(t10) == Some((p.total_votes, t11)));
    lemma_dec_enc_bool(p.is_active, rest);
    assert(dec_bool(t11) == Some((p.is_active, rest)));
    assert(dec_proposal_tail(t6) == Some(
        ((p.votes, p.proposal_type, p.create_time, p.end_time, p.total_votes, p.is_active), rest),
    ));
}

// ---------------------------------------------------------------------------
// Instructions
// ---------------------------------------------------------------------------

/// An instruction fits the format when its strings and lists fit their
/// 4-byte prefixes.
pub open spec fn wf_instruction(i: InstructionV) -> bool {
    match i {
        InstructionV::InitializeCreator { name, platform_links } => wf_str(name) && wf_str_list(
            platform_links,
        ),
        InstructionV::CreateProposal { title, description, options, .. } => wf_str(title)
            && wf_str(description) && wf_str_list(options),
        _ => true,
    }
}

pub open spec fn enc_instruction(i: InstructionV) -> Seq<u8> {
    match i {
        InstructionV::InitializeCreator { name, platform_links } => seq![0u8] + enc_str(name)
            + enc_str_list(platform_links),
        InstructionV::CreateProposal { title, description, options, proposal_type, end_time } =>
            seq![1u8] + enc_str(title) + enc_str(description) + enc_str_list(options) + enc_ptype(
                proposal_type,
            ) + enc_i64(end_time),
        InstructionV::Vote { proposal_id, option_index, vote_weight } => seq![2u8] + enc_u64(
            proposal_id,
        ) + enc_u8(option_index) + enc_u64(vote_weight),
        InstructionV::Stake { amount } => seq![3u8] + enc_u64(amount),
        InstructionV::Unstake { amount } => seq![4u8] + enc_u64(amount),
        InstructionV::ClaimRewards => seq![5u8],
    }
}

pub open spec fn dec_instruction(b: Seq<u8>) -> Option<(InstructionV, Seq<u8>)> {
    match dec_u8(b) {
        None => None,
        Some((disc, b)) => if disc == 0 {
            match dec_str(b) {
                Some((name, b)) => match dec_str_list(b) {
                    Some((platform_links, b)) => Some(
                        (InstructionV::InitializeCreator { name, platform_links }, b),
                    ),
                    None => None,
                },
                None => None,
            }
        } else if disc == 1 {
            match dec_str(b) {
                Some((title, b)) => match dec_str(b) {
                    Some((description, b)) => match dec_str_list(b) {
                        Some((options, b)) => match dec_ptype(b) {
                            Some((proposal_type, b)) => match dec_i64(b) {
                                Some((end_time, b)) => Some(
                                    (
                                        InstructionV::CreateProposal {
                                            title,
                                            description,
                                            options,
                                            proposal_type,
                                            end_time,
                                        },
                                        b,
                                    ),
                                ),
                                None => None,
                            },
                            None => None,
                        },
                        None => None,
                    },
                    None => None,
                },
                None => None,
            }
        } else if disc == 2 {
            match dec_u64(b) {
                Some((proposal_id, b)) => match dec_u8(b) {
                    Some((option_index, b)) => match dec_u64(b) {
                        Some((vote_weight, b)) => Some(
                            (InstructionV::Vote { proposal_id, option_index, vote_weight }, b),
                        ),
                        None => None,
                    },
                    None => None,
                },
                None => None,
            }
        } else if disc == 3 {
            match dec_u64(b) {
                Some((amount, b)) => Some((InstructionV::Stake { amount }, b)),
                None => None,
            }
        } else if disc == 4 {
            match dec_u64(b) {
                Some((amount, b)) => Some((InstructionV::Unstake { amount }, b)),
                None => None,
            }
        } else if disc == 5 {
            Some((InstructionV::ClaimRewards, b))
        } else {
            None
        },
    }
}

#[verifier::rlimit(100)]
pub proof fn lemma_dec_enc_instruction(i: InstructionV, rest: Seq<u8>)
    requires
        wf_instruction(i),
    ensures
        dec_instruction(enc_instruction(i) + rest) == Some((i, rest)),
{
    match i {
        InstructionV::InitializeCreator { name, platform_links } => {
            let t2 = enc_str_list(platform_links) + rest;
            let t1 = enc_str(name) + t2;
            assert(enc_instruction(i) + rest =~= enc_u8(0u8) + t1);
            lemma_dec_enc_u8(0u8, t1);
            lemma_dec_enc_str(name, t2);
            lemma_dec_enc_str_list(platform_links, rest);
        },
        InstructionV::CreateProposal { title, description, options, proposal_type, end_time } => {
            let t4 = enc_i64(end_time) + rest;
            let t3 = enc_ptype(proposal_type) + t4;
            let t2 = enc_str_list(options) + t3;
            let t1 = enc_str(description) + t2;
            let t0 = enc_str(title) + t1;
            assert(enc_instruction(i) + rest =~= enc_u8(1u8) + t0);
            lemma_dec_enc_u8(1u8, t0);
            lemma_dec_enc_str(title, t1);
            lemma_dec_enc_str(description, t2);
            lemma_dec_enc_str_list(options, t3);
            lemma_dec_enc_ptype(proposal_type, t4);
            lemma_dec_enc_i64(end_time, rest);
        },
        InstructionV::Vote { proposal_id, option_index, vote_weight } => {
            let t2 = enc_u64(vote_weight) + rest;
            let t1 = enc_u8(option_index) + t2;
            let t0 = enc_u64(proposal_id) + t1;
            assert(enc_instruction(i) + rest =~= enc_u8(2u8) + t0);
            lemma_dec_enc_u8(2u8, t0);
            lemma_dec_enc_u64(proposal_id, t1);
            lemma_dec_enc_u8(option_index, t2);
            lemma_dec_enc_u64(vote_weight, rest);
        },
        InstructionV::Stake { amount } => {
            let t0 = enc_u64(amount) + rest;
            assert(enc_instruction(i) + rest =~= enc_u8(3u8) + t0);
            lemma_dec_enc_u8(3u8, t0);
            lemma_dec_enc_u64(amount, rest);
        },
        InstructionV::Unstake { amount } => {
            let t0 = enc_u64(amount) + rest;
            assert(enc_instruction(i) + rest =~= enc_u8(4u8) + t0);
            lemma_dec_enc_u8(4u8, t0);
            lemma_dec_enc_u64(amount, rest);
        },
        InstructionV::ClaimRewards => {
            assert(enc_instruction(i) + rest =~= enc_u8(5u8) + rest);
            lemma_dec_enc_u8(5u8, rest);
        },
    }
}

// ---------------------------------------------------------------------------
// Snoc laws of the element encoders, used by the encoding loops
// ---------------------------------------------------------------------------

proof fn lemma_enc_str_elems_push(v: Seq<Seq<char>>, x: Seq<char>)
    ensures
        enc_str_elems(v.push(x)) == enc_str_elems(v) + enc_str(x),
    decreases v.len(),
{
    if v.len() == 0 {
        assert(v.push(x) =~= seq![x]);
        assert(seq![x].skip(1) =~= Seq::<Seq<char>>::empty());
        assert(seq![x][0] == x);
        assert(enc_str_elems(Seq::<Seq<char>>::empty()) == Seq::<u8>::empty());
        assert(enc_str_elems(v.push(x)) == enc_str(x) + Seq::<u8>::empty());
        assert(enc_str(x) + Seq::<u8>::empty() =~= enc_str(x));
        assert(Seq::<u8>::empty() + enc_str(x) =~= enc_str(x));
        assert(enc_str_elems(v) == Seq::<u8>::empty());
    } else {
        assert(v.push(x).skip(1) =~= v.skip(1).push(x));
        assert(v.push(x)[0] == v[0]);
        lemma_enc_str_elems_push(v.skip(1), x);
        assert(enc_str_elems(v.push(x)) == enc_str(v[0]) + (enc_str_elems(v.skip(1))
            + enc_str(x)));
        vstd::seq_lib::lemma_concat_associative(
            enc_str(v[0]),
            enc_str_elems(v.skip(1)),
            enc_str(x),
        );
    }
}

proof fn lemma_enc_u64_elems_push(v: Seq<u64>, x: u64)
    ensures
        enc_u64_elems(v.push(x)) == enc_u64_elems(v) + enc_u64(x),
    decreases v.len(),
{
    if v.len() == 0 {
        assert(v.push(x) =~= seq![x]);
        assert(seq![x].skip(1) =~= Seq::<u64>::empty());
        assert(seq![x][0] == x);
        assert(enc_u64_elems(Seq::<u64>::empty()) == Seq::<u8>::empty());
        assert(enc_u64_elems(v.push(x)) == enc_u64(x) + Seq::<u8>::empty());
        assert(enc_u64(x) + Seq::<u8>::empty() =~= enc_u64(x));
        assert(Seq::<u8>::empty() + enc_u64(x) =~= enc_u64(x));
        assert(enc_u64_elems(v) == Seq::<u8>::empty());
    } else {
        assert(v.push(x).skip(1) =~= v.skip(1).push(x));
        assert(v.push(x)[0] == v[0]);
        lemma_enc_u64_elems_push(v.skip(1), x);
        assert(enc_u64_elems(v.push(x)) == enc_u64(v[0]) + (enc_u64_elems(v.skip(1))
            + enc_u64(x)));
        vstd::seq_lib::lemma_concat_associative(
            enc_u64(v[0]),
            enc_u64_elems(v.skip(1)),
            enc_u64(x),
        );
    }
}

proof fn lemma_enc_vr_elems_push(v: Seq<VoteRecord>, x: VoteRecord)
    ensures
        enc_vr_elems(v.push(x)) == enc_vr_elems(v) + enc_vote_record(x),
    decreases v.len(),
{
    if v.len() == 0 {
        assert(v.push(x) =~= seq![x]);
        assert(seq![x].skip(1) =~= Seq::<VoteRecord>::empty());
        assert(seq![x][0] == x);
        assert(enc_vr_elems(Seq::<VoteRecord>::empty()) == Seq::<u8>::empty());
        assert(enc_vr_elems(v.push(x)) == enc_vote_record(x) + Seq::<u8>::empty());
        assert(enc_vote_record(x) + Seq::<u8>::empty() =~= enc_vote_record(x));
        assert(Seq::<u8>::empty() + enc_vote_record(x) =~= enc_vote_record(x));
        assert(enc_vr_elems(v) == Seq::<u8>::empty());
    } else {
        assert(v.push(x).skip(1) =~= v.skip(1).push(x));
        assert(v.push(x)[0] == v[0]);
        lemma_enc_vr_elems_push(v.skip(1), x);
        assert(enc_vr_elems(v.push(x)) == enc_vote_record(v[0]) + (enc_vr_elems(v.skip(1))
            + enc_vote_record(x)));
        vstd::seq_lib::lemma_concat_associative(
            enc_vote_record(v[0]),
            enc_vr_elems(v.skip(1)),
            enc_vote_record(x),
        );
    }
}

// ---------------------------------------------------------------------------
// Executable encoders
// ---------------------------------------------------------------------------

fn emit_u8(out: &mut Vec<u8>, x: u8)
    ensures
        final(out)@ == old(out)@ + enc_u8(x),
{
    out.push(x);
    assert(out@ =~= old(out)@ + enc_u8(x));
}

fn emit_bool(out: &mut Vec<u8>, x: bool)
    ensures
        final(out)@ == old(out)@ + enc_bool(x),
{
    out.push(if x { 1u8 } else { 0u8 });
    assert(out@ =~= old(out)@ + enc_bool(x));
}

fn emit_u32(out: &mut Vec<u8>, x: u32)
    ensures
        final(out)@ == old(out)@ + enc_u32(x),
{
    let b0: u8 = #[verifier::truncate] (x as u8);
    let b1: u8 = #[verifier::truncate] ((x >> 8) as u8);
    let b2: u8 = #[verifier::truncate] ((x >> 16) as u8);
    let b3: u8 = #[verifier::truncate] ((x >> 24) as u8);
    out.push(b0);
    out.push(b1);
    out.push(b2);
    out.push(b3);
    assert(out@ =~= old(out)@ + enc_u32(x));
}

fn emit_u64(out: &mut Vec<u8>, x: u64)
    ensures
        final(out)@ == old(out)@ + enc_u64(x),
{
    let b0: u8 = #[verifier::truncate] (x as u8);
    let b1: u8 = #[verifier::truncate] ((x >> 8) as u8);
    let b2: u8 = #[verifier::truncate] ((x >> 16) as u8);
    let b3: u8 = #[verifier::truncate] ((x >> 24) as u8);
    let b4: u8 = #[verifier::truncate] ((x >> 32) as u8);
    let b5: u8 = #[verifier::truncate] ((x >> 40) as u8);
    let b6: u8 = #[verifier::truncate] ((x >> 48) as u8);
    let b7: u8 = #[verifier::truncate] ((x >> 56) as u8);
    out.push(b0);
    out.push(b1);
    out.push(b2);
    out.push(b3);
    out.push(b4);
    out.push(b5);
    out.push(b6);
    out.push(b7);
    assert(out@ =~= old(out)@ + enc_u64(x));
}

fn emit_i64(out: &mut Vec<u8>, x: i64)
    ensures
        final(out)@ == old(out)@ + enc_i64(x),
{
    let u: u64 = #[verifier::truncate] (x as u64);
    emit_u64(out, u);
}

fn emit_identity(out: &mut Vec<u8>, id: &Identity)
    ensures
        final(out)@ == old(out)@ + enc_identity(*id),
{
    emit_u64(out, id.w0);
    emit_u64(out, id.w1);
    emit_u64(out, id.w2);
    emit_u64(out, id.w3);
    assert(out@ =~= old(out)@ + enc_identity(*id));
}

fn emit_ptype(out: &mut Vec<u8>, t: &ProposalType)
    ensures
        final(out)@ == old(out)@ + enc_ptype(*t),
{
    match t {
        ProposalType::Idea => out.push(0u8),
        ProposalType::Proposal => out.push(1u8),
    }
    assert(out@ =~= old(out)@ + enc_ptype(*t));
}

fn emit_vote_record(out: &mut Vec<u8>, v: &VoteRecord)
    ensures
        final(out)@ == old(out)@ + enc_vote_record(*v),
{
    emit_u64(out, v.proposal_id);
    emit_u8(out, v.option_index);
    emit_u64(out, v.vote_weight);
    emit_i64(out, v.timestamp);
    assert(out@ =~= old(out)@ + enc_vote_record(*v));
}

fn emit_str(out: &mut Vec<u8>, s: &String) -> (r: Result<(), DaoError>)
    ensures
        match r {
            Ok(()) => wf_str(s@) && final(out)@ == old(out)@ + enc_str(s@),
            Err(e) => e == DaoError::SerializationCapacityExceeded && !wf_str(s@) && final(out)@ == old(
                out,
            )@,
        },
{
    let bs = s.as_str().as_bytes_vec();
    if bs.len() as u64 >= 0x1_0000_0000u64 {
        return Err(DaoError::SerializationCapacityExceeded);
    }
    let n: u32 = #[verifier::truncate] (bs.len() as u32);
    emit_u32(out, n);
    let ghost base = out@;
    let m = bs.len();
    let mut i: usize = 0;
    while i < m
        invariant
            i <= m,
            m == bs@.len(),
            out@ == base + bs@.take(i as int),
        decreases m - i,
    {
        out.push(bs[i]);
        assert(out@ =~= base + bs@.take(i as int + 1));
        i = i + 1;
    }
    assert(bs@.take(m as int) =~= bs@);
    assert(out@ =~= old(out)@ + enc_str(s@));
    Ok(())
}

fn emit_str_list(out: &mut Vec<u8>, v: &Vec<String>) -> (r: Result<(), DaoError>)
    ensures
        match r {
            Ok(()) => wf_str_list(v.deep_view()) && final(out)@ == old(out)@ + enc_str_list(v.deep_view()),
            Err(e) => e == DaoError::SerializationCapacityExceeded && !wf_str_list(v.deep_view()),
        },
{
    let ghost dv = v.deep_view();
    assert(dv.len() == v@.len());
    if v.len() as u64 >= 0x1_0000_0000u64 {
        return Err(DaoError::SerializationCapacityExceeded);
    }
    let n: u32 = #[verifier::truncate] (v.len() as u32);
    emit_u32(out, n);
    let ghost base = out@;
    let m = v.len();
    let mut i: usize = 0;
    while i < m
        invariant
            i <= m,
            m == v@.len(),
            dv == v.deep_view(),
            dv.len() == m,
            out@ == base + enc_str_elems(dv.take(i as int)),
            forall|j: int| 0 <= j < i ==> wf_str(#[trigger] dv[j]),
        decreases m - i,
    {
        assert(v@[i as int]@ == dv[i as int]);
        match emit_str(out, &v[i]) {
            Ok(()) => {},
            Err(e) => {
                return Err(e);
            },
        }
        proof {
            assert(dv.take(i as int + 1) =~= dv.take(i as int).push(dv[i as int]));
            lemma_enc_str_elems_push(dv.take(i as int), dv[i as int]);
        }
        i = i + 1;
    }
    proof {
        assert(dv.take(m as int) =~= dv);
        assert(out@ =~= old(out)@ + enc_str_list(dv));
    }
    Ok(())
}

fn emit_u64_list(out: &mut Vec<u8>, v: &Vec<u64>) -> (r: Result<(), DaoError>)
    ensures
        match r {
            Ok(()) => wf_u64_list(v@) && final(out)@ == old(out)@ + enc_u64_list(v@),
            Err(e) => e == DaoError::SerializationCapacityExceeded && !wf_u64_list(v@),
        },
{
    if v.len() as u64 >= 0x1_0000_0000u64 {
        return Err(DaoError::SerializationCapacityExceeded);
    }
    let n: u32 = #[verifier::truncate] (v.len() as u32);
    emit_u32(out, n);
    let ghost base = out@;
    let m = v.len();
    let mut i: usize = 0;
    while i < m
        invariant
            i <= m,
            m == v@.len(),
            out@ == base + enc_u64_elems(v@.take(i as int)),
        decreases m - i,
    {
        emit_u64(out, v[i]);
        proof {
            assert(v@.take(i as int + 1) =~= v@.take(i as int).push(v@[i as int]));
            lemma_enc_u64_elems_push(v@.take(i as int), v@[i as int]);
        }
        i = i + 1;
    }
    proof {
        assert(v@.take(m as int) =~= v@);
        assert(out@ =~= old(out)@ + enc_u64_list(v@));
    }
    Ok(())
}

fn emit_vr_list(out: &mut Vec<u8>, v: &Vec<VoteRecord>) -> (r: Result<(), DaoError>)
    ensures
        match r {
            Ok(()) => wf_vr_list(v@) && final(out)@ == old(out)@ + enc_vr_list(v@),
            Err(e) => e == DaoError::SerializationCapacityExceeded && !wf_vr_list(v@),
        },
{
    if v.len() as u64 >= 0x1_0000_0000u64 {
        return Err(DaoError::SerializationCapacityExceeded);
    }
    let n: u32 = #[verifier::truncate] (v.len() as u32);
    emit_u32(out, n);
    let ghost base = out@;
    let m = v.len();
    let mut i: usize = 0;
    while i < m
        invariant
            i <= m,
            m == v@.len(),
            out@ == base + enc_vr_elems(v@.take(i as int)),
        decreases m - i,
    {
        emit_vote_record(out, &v[i]);
        proof {
            assert(v@.take(i as int + 1) =~= v@.take(i as int).push(v@[i as int]));
            lemma_enc_vr_elems_push(v@.take(i as int), v@[i as int]);
        }
        i = i + 1;
    }
    proof {
        assert(v@.take(m as int) =~= v@);
        assert(out@ =~= old(out)@ + enc_vr_list(v@));
    }
    Ok(())
}

/// Serialize a user record to its byte layout.
pub fn encode_user(u: &User) -> (r: Result<Vec<u8>, DaoError>)
    ensures
        match r {
            Ok(b) => wf_user(u@) && b@ == enc_user(u@),
            Err(e) => e == DaoError::SerializationCapacityExceeded && !wf_user(u@),
        },
{
    let mut out: Vec<u8> = Vec::new();
    assert(Seq::<u8>::empty() + enc_bool(u.initialized) =~= enc_bool(u.initialized));
    emit_bool(&mut out, u.initialized);
    emit_identity(&mut out, &u.wallet);
    emit_u64(&mut out, u.staked_amount);
    match emit_vr_list(&mut out, &u.voting_history) {
        Ok(()) => {},
        Err(e) => {
            return Err(e);
        },
    }
    emit_u64(&mut out, u.rewards_earned);
    emit_i64(&mut out, u.last_claim_time);
    Ok(out)
}

/// Serialize a creator record to its byte layout.
pub fn encode_creator(c: &Creator) -> (r: Result<Vec<u8>, DaoError>)
    ensures
        match r {
            Ok(b) => wf_creator(c@) && b@ == enc_creator(c@),
            Err(e) => e == DaoError::SerializationCapacityExceeded && !wf_creator(c@),
        },
{
    let mut out: Vec<u8> = Vec::new();
    assert(Seq::<u8>::empty() + enc_bool(c.initialized) =~= enc_bool(c.initialized));
    emit_bool(&mut out, c.initialized);
    emit_identity(&mut out, &c.owner);
    match emit_str(&mut out, &c.name) {
        Ok(()) => {},
        Err(e) => {
            return Err(e);
        },
    }
    match emit_str_list(&mut out, &c.platform_links) {
        Ok(()) => {},
        Err(e) => {
            return Err(e);
        },
    }
    match emit_u64_list(&mut out, &c.proposals) {
        Ok(()) => {},
        Err(e) => {
            return Err(e);
        },
    }
    emit_u64(&mut out, c.token_pool);
    Ok(out)
}

/// Serialize a proposal record to its byte layout.
pub fn encode_proposal(p: &Proposal) -> (r: Result<Vec<u8>, DaoError>)
    ensures
        match r {
            Ok(b) => wf_proposal(p@) && b@ == enc_proposal(p@),
            Err(e) => e == DaoError::SerializationCapacityExceeded && !wf_proposal(p@),
        },
{
    let mut out: Vec<u8> = Vec::new();
    assert(Seq::<u8>::empty() + enc_bool(p.initialized) =~= enc_bool(p.initialized));
    emit_bool(&mut out, p.initialized);
    emit_u64(&mut out, p.id);
    emit_identity(&mut out, &p.creator);
    match emit_str(&mut out, &p.title) {
        Ok(()) => {},
        Err(e) => {
            return Err(e);
        },
    }
    match emit_str(&mut out, &p.description) {
        Ok(()) => {},
        Err(e) => {
            return Err(e);
        },
    }
    match emit_str_list(&mut out, &p.options) {
        Ok(()) => {},
        Err(e) => {
            return Err(e);
        },
    }
    match emit_u64_list(&mut out, &p.votes) {
        Ok(()) => {},
        Err(e) => {
            return Err(e);
        },
    }
    emit_ptype(&mut out, &p.proposal_type);
    emit_i64(&mut out, p.create_time);
    emit_i64(&mut out, p.end_time);
    emit_u64(&mut out, p.total_votes);
    emit_bool(&mut out, p.is_active);
    Ok(out)
}

/// Serialize the proposal-counter record to its byte layout.
pub fn encode_state(s: &ProgramState) -> (r: Vec<u8>)
    ensures
        r@ == enc_state(*s),
{
    let mut out: Vec<u8> = Vec::new();
    assert(Seq::<u8>::empty() + enc_u64(s.proposal_counter) =~= enc_u64(s.proposal_counter));
    emit_u64(&mut out, s.proposal_counter);
    out
}

/// Serialize an instruction to its byte layout.
pub fn encode_instruction(i: &SMDAOInstruction) -> (r: Result<Vec<u8>, DaoError>)
    ensures
        match r {
            Ok(b) => wf_instruction(i@) && b@ == enc_instruction(i@),
            Err(e) => e == DaoError::SerializationCapacityExceeded && !wf_instruction(i@),
        },
{
    let mut out: Vec<u8> = Vec::new();
    match i {
        SMDAOInstruction::InitializeCreator { name, platform_links } => {
            assert(Seq::<u8>::empty() + enc_u8(0u8) =~= enc_u8(0u8));
            emit_u8(&mut out, 0u8);
            match emit_str(&mut out, name) {
                Ok(()) => {},
                Err(e) => {
                    return Err(e);
                },
            }
            match emit_str_list(&mut out, platform_links) {
                Ok(()) => {},
                Err(e) => {
                    return Err(e);
                },
            }
        },
        SMDAOInstruction::CreateProposal {
            title, description, options, proposal_type, end_time,
        } => {
            assert(Seq::<u8>::empty() + enc_u8(1u8) =~= enc_u8(1u8));
            emit_u8(&mut out, 1u8);
            match emit_str(&mut out, title) {
                Ok(()) => {},
                Err(e) => {
                    return Err(e);
                },
            }
            match emit_str(&mut out, description) {
                Ok(()) => {},
                Err(e) => {
                    return Err(e);
                },
            }
            match emit_str_list(&mut out, options) {
                Ok(()) => {},
                Err(e) => {
                    return Err(e);
                },
            }
            emit_ptype(&mut out, proposal_type);
            emit_i64(&mut out, *end_time);
        },
        SMDAOInstruction::Vote { proposal_id, option_index, vote_weight } => {
            assert(Seq::<u8>::empty() + enc_u8(2u8) =~= enc_u8(2u8));
            emit_u8(&mut out, 2u8);
            emit_u64(&mut out, *proposal_id);
            emit_u8(&mut out, *option_index);
            emit_u64(&mut out, *vote_weight);
        },
        SMDAOInstruction::Stake { amount } => {
            assert(Seq::<u8>::empty() + enc_u8(3u8) =~= enc_u8(3u8));
            emit_u8(&mut out, 3u8);
            emit_u64(&mut out, *amount);
        },
        SMDAOInstruction::Unstake { amount } => {
            assert(Seq::<u8>::empty() + enc_u8(4u8) =~= enc_u8(4u8));
            emit_u8(&mut out, 4u8);
            emit_u64(&mut out, *amount);
        },
        SMDAOInstruction::ClaimRewards => {
            assert(Seq::<u8>::empty() + enc_u8(5u8) =~= enc_u8(5u8));
            emit_u8(&mut out, 5u8);
        },
    }
    Ok(out)
}

// ---------------------------------------------------------------------------
// Executable decoders
// ---------------------------------------------------------------------------

/// The decoded value of a front decoder, with the remaining bytes dropped.
pub open spec fn first_of<T>(r: Option<(T, Seq<u8>)>) -> Option<T> {
    match r {
        Some((v, _)) => Some(v),
        None => None,
    }
}

/// A partial element decode: the elements read so far, prepended to
/// whatever the rest of the element run decodes to.
pub open spec fn prepend_elems<T>(pre: Seq<T>, r: Option<(Seq<T>, Seq<u8>)>) -> Option<
    (Seq<T>, Seq<u8>),
> {
    match r {
        Some((xs, rest)) => Some((pre + xs, rest)),
        None => None,
    }
}

/// Relies on `String::from_utf8`: it succeeds exactly on valid UTF-8 input
/// and the returned string holds exactly the input bytes.
#[verifier::external_body]
fn string_from_utf8(v: Vec<u8>) -> (r: Option<String>)
    ensures
        r is Some <==> valid_utf8(v@),
        r matches Some(s) ==> encode_utf8(s@) == v@,
{
    match String::from_utf8(v) {
        Ok(s) => Some(s),
        Err(_) => None,
    }
}

fn read_u8(b: &Vec<u8>, pos: usize) -> (r: Result<(u8, usize), DaoError>)
    requires
        pos <= b@.len(),
    ensures
        match r {
            Ok((v, p2)) => pos <= p2 <= b@.len() && dec_u8(b@.skip(pos as int)) == Some(
                (v, b@.skip(p2 as int)),
            ),
            Err(e) => e == DaoError::MalformedEncoding && dec_u8(b@.skip(pos as int)) is None,
        },
{
    if b.len() - pos >= 1 {
        proof {
            assert(b@.skip(pos as int)[0] == b@[pos as int]);
            assert(b@.skip(pos as int).skip(1) =~= b@.skip(pos as int + 1));
        }
        Ok((b[pos], pos + 1))
    } else {
        Err(DaoError::MalformedEncoding)
    }
}

fn read_bool(b: &Vec<u8>, pos: usize) -> (r: Result<(bool, usize), DaoError>)
    requires
        pos <= b@.len(),
    ensures
        match r {
            Ok((v, p2)) => pos <= p2 <= b@.len() && dec_bool(b@.skip(pos as int)) == Some(
                (v, b@.skip(p2 as int)),
            ),
            Err(e) => e == DaoError::MalformedEncoding && dec_bool(b@.skip(pos as int)) is None,
        },
{
    if b.len() - pos >= 1 {
        let v = b[pos];
        proof {
            assert(b@.skip(pos as int)[0] == b@[pos as int]);
            assert(b@.skip(pos as int).skip(1) =~= b@.skip(pos as int + 1));
        }
        if v == 0 {
            Ok((false, pos + 1))
        } else if v == 1 {
            Ok((true, pos + 1))
        } else {
            Err(DaoError::MalformedEncoding)
        }
    } else {
        Err(DaoError::MalformedEncoding)
    }
}

fn read_ptype(b: &Vec<u8>, pos: usize) -> (r: Result<(ProposalType, usize), DaoError>)
    requires
        pos <= b@.len(),
    ensures
        match r {
            Ok((v, p2)) => pos <= p2 <= b@.len() && dec_ptype(b@.skip(pos as int)) == Some(
                (v, b@.skip(p2 as int)),
            ),
            Err(e) => e == DaoError::MalformedEncoding && dec_ptype(b@.skip(pos as int)) is None,
        },
{
    if b.len() - pos >= 1 {
        let v = b[pos];
        proof {
            assert(b@.skip(pos as int)[0] == b@[pos as int]);
            assert(b@.skip(pos as int).skip(1) =~= b@.skip(pos as int + 1));
        }
        if v == 0 {
            Ok((ProposalType::Idea, pos + 1))
        } else if v == 1 {
            Ok((ProposalType::Proposal, pos + 1))
        } else {
            Err(DaoError::MalformedEncoding)
        }
    } else {
        Err(DaoError::MalformedEncoding)
    }
}

fn read_u32(b: &Vec<u8>, pos: usize) -> (r: Result<(u32, usize), DaoError>)
    requires
        pos <= b@.len(),
    ensures
        match r {
            Ok((v, p2)) => pos <= p2 <= b@.len() && dec_u32(b@.skip(pos as int)) == Some(
                (v, b@.skip(p2 as int)),
            ),
            Err(e) => e == DaoError::MalformedEncoding && dec_u32(b@.skip(pos as int)) is None,
        },
{
    if b.len() - pos >= 4 {
        let v = (b[pos] as u32) | ((b[pos + 1] as u32) << 8) | ((b[pos + 2] as u32) << 16) | ((b[
            pos + 3
        ] as u32) << 24);
        proof {
            let t = b@.skip(pos as int);
            assert(t[0] == b@[pos as int]);
            assert(t[1] == b@[pos as int + 1]);
            assert(t[2] == b@[pos as int + 2]);
            assert(t[3] == b@[pos as int + 3]);
            assert(t.skip(4) =~= b@.skip(pos as int + 4));
        }
        Ok((v, pos + 4))
    } else {
        Err(DaoError::MalformedEncoding)
    }
}

fn read_u64(b: &Vec<u8>, pos: usize) -> (r: Result<(u64, usize), DaoError>)
    requires
        pos <= b@.len(),
    ensures
        match r {
            Ok((v, p2)) => pos <= p2 <= b@.len() && dec_u64(b@.skip(pos as int)) == Some(
                (v, b@.skip(p2 as int)),
            ),
            Err(e) => e == DaoError::MalformedEncoding && dec_u64(b@.skip(pos as int)) is None,
        },
{
    if b.len() - pos >= 8 {
        let v = (b[pos] as u64) | ((b[pos + 1] as u64) << 8) | ((b[pos + 2] as u64) << 16) | ((b[
            pos + 3
        ] as u64) << 24) | ((b[pos + 4] as u64) << 32) | ((b[pos + 5] as u64) << 40) | ((b[pos
            + 6] as u64) << 48) | ((b[pos + 7] as u64) << 56);
        proof {
            let t = b@.skip(pos as int);
            assert(t[0] == b@[pos as int]);
            assert(t[1] == b@[pos as int + 1]);
            assert(t[2] == b@[pos as int + 2]);
            assert(t[3] == b@[pos as int + 3]);
            assert(t[4] == b@[pos as int + 4]);
            assert(t[5] == b@[pos as int + 5]);
            assert(t[6] == b@[pos as int + 6]);
            assert(t[7] == b@[pos as int + 7]);
            assert(t.skip(8) =~= b@.skip(pos as int + 8));
        }
        Ok((v, pos + 8))
    } else {
        Err(DaoError::MalformedEncoding)
    }
}

fn read_i64(b: &Vec<u8>, pos: usize) -> (r: Result<(i64, usize), DaoError>)
    requires
        pos <= b@.len(),
    ensures
        match r {
            Ok((v, p2)) => pos <= p2 <= b@.len() && dec_i64(b@.skip(pos as int)) == Some(
                (v, b@.skip(p2 as int)),
            ),
            Err(e) => e == DaoError::MalformedEncoding && dec_i64(b@.skip(pos as int)) is None,
        },
{
    match read_u64(b, pos) {
        Ok((v, p2)) => {
            let s: i64 = #[verifier::truncate] (v as i64);
            Ok((s, p2))
        },
        Err(e) => Err(e),
    }
}

fn read_identity(b: &Vec<u8>, pos: usize) -> (r: Result<(Identity, usize), DaoError>)
    requires
        pos <= b@.len(),
    ensures
        match r {
            Ok((v, p2)) => pos <= p2 <= b@.len() && dec_identity(b@.skip(pos as int)) == Some(
                (v, b@.skip(p2 as int)),
            ),
            Err(e) => e == DaoError::MalformedEncoding && dec_identity(
                b@.skip(pos as int),
            ) is None,
        },
{
    let (w0, p1) = match read_u64(b, pos) {
        Ok(x) => x,
        Err(e) => {
            return Err(e);
        },
    };
    let (w1, p2) = match read_u64(b, p1) {
        Ok(x) => x,
        Err(e) => {
            return Err(e);
        },
    };
    let (w2, p3) = match read_u64(b, p2) {
        Ok(x) => x,
        Err(e) => {
            return Err(e);
        },
    };
    let (w3, p4) = match read_u64(b, p3) {
        Ok(x) => x,
        Err(e) => {
            return Err(e);
        },
    };
    Ok((Identity { w0, w1, w2, w3 }, p4))
}

fn read_vote_record(b: &Vec<u8>, pos: usize) -> (r: Result<(VoteRecord, usize), DaoError>)
    requires
        pos <= b@.len(),
    ensures
        match r {
            Ok((v, p2)) => pos <= p2 <= b@.len() && dec_vote_record(b@.skip(pos as int)) == Some(
                (v, b@.skip(p2 as int)),
            ),
            Err(e) => e == DaoError::MalformedEncoding && dec_vote_record(
                b@.skip(pos as int),
            ) is None,
        },
{
    let (proposal_id, p1) = match read_u64(b, pos) {
        Ok(x) => x,
        Err(e) => {
            return Err(e);
        },
    };
    let (option_index, p2) = match read_u8(b, p1) {
        Ok(x) => x,
        Err(e) => {
            return Err(e);
        },
    };
    let (vote_weight, p3) = match read_u64(b, p2) {
        Ok(x) => x,
        Err(e) => {
            return Err(e);
        },
    };
    let (timestamp, p4) = match read_i64(b, p3) {
        Ok(x) => x,
        Err(e) => {
            return Err(e);
        },
    };
    Ok((VoteRecord { proposal_id, option_index, vote_weight, timestamp }, p4))
}

fn read_string(b: &Vec<u8>, pos: usize) -> (r: Result<(String, usize), DaoError>)
    requires
        pos <= b@.len(),
    ensures
        match r {
            Ok((s, p2)) => pos <= p2 <= b@.len() && dec_str(b@.skip(pos as int)) == Some(
                (s@, b@.skip(p2 as int)),
            ),
            Err(e) => e == DaoError::MalformedEncoding && dec_str(b@.skip(pos as int)) is None,
        },
{
    let (n, p1) = match read_u32(b, pos) {
        Ok(x) => x,
        Err(e) => {
            return Err(e);
        },
    };
    let rem: u64 = (b.len() - p1) as u64;
    let n_wide: u64 = n as u64;
    if rem < n_wide {
        proof {
            assert(b@.skip(p1 as int).len() < n);
        }
        return Err(DaoError::MalformedEncoding);
    }
    let m = n as usize;
    let mut bytes: Vec<u8> = Vec::new();
    let mut i: usize = 0;
    while i < m
        invariant
            i <= m,
            p1 + m <= b@.len(),
            b@.len() <= usize::MAX,
            bytes@ == b@.subrange(p1 as int, p1 as int + i as int),
        decreases m - i,
    {
        bytes.push(b[p1 + i]);
        assert(bytes@ =~= b@.subrange(p1 as int, p1 as int + i as int + 1));
        i = i + 1;
    }
    proof {
        assert(bytes@ =~= b@.skip(p1 as int).take(n as int));
    }
    match string_from_utf8(bytes) {
        Some(s) => {
            proof {
                broadcast use encode_utf8_decode_utf8;

                assert(decode_utf8(b@.skip(p1 as int).take(n as int)) == s@);
                assert(b@.skip(p1 as int).skip(n as int) =~= b@.skip(p1 as int + n as int));
            }
            Ok((s, p1 + m))
        },
        None => Err(DaoError::MalformedEncoding),
    }
}

fn read_str_list(b: &Vec<u8>, pos: usize) -> (r: Result<(Vec<String>, usize), DaoError>)
    requires
        pos <= b@.len(),
    ensures
        match r {
            Ok((v, p2)) => pos <= p2 <= b@.len() && dec_str_list(b@.skip(pos as int)) == Some(
                (v.deep_view(), b@.skip(p2 as int)),
            ),
            Err(e) => e == DaoError::MalformedEncoding && dec_str_list(
                b@.skip(pos as int),
            ) is None,
        },
{
    let (n, p1) = match read_u32(b, pos) {
        Ok(x) => x,
        Err(e) => {
            return Err(e);
        },
    };
    let ghost s0 = b@.skip(p1 as int);
    let mut acc: Vec<String> = Vec::new();
    let mut p = p1;
    let mut i: u32 = 0;
    proof {
        match dec_str_elems(s0, n as nat) {
            Some((xs, r)) => {
                assert(Seq::<Seq<char>>::empty() + xs =~= xs);
            },
            None => {},
        }
        assert(acc.deep_view() =~= Seq::<Seq<char>>::empty());
    }
    while i < n
        invariant
            i <= n,
            pos <= p1 <= p <= b@.len(),
            s0 == b@.skip(p1 as int),
            dec_u32(b@.skip(pos as int)) == Some((n, s0)),
            acc.deep_view().len() == i,
            dec_str_elems(s0, n as nat) == prepend_elems(
                acc.deep_view(),
                dec_str_elems(b@.skip(p as int), (n - i) as nat),
            ),
        decreases n - i,
    {
        let ghost acc_pre = acc.deep_view();
        let ghost cur = b@.skip(p as int);
        match read_string(b, p) {
            Ok((s, p2)) => {
                proof {
                    assert(dec_str(cur) == Some((s@, b@.skip(p2 as int))));
                    match dec_str_elems(b@.skip(p2 as int), (n - i - 1) as nat) {
                        Some((xs, r)) => {
                            assert(acc_pre + (seq![s@] + xs) =~= (acc_pre.push(s@)) + xs);
                        },
                        None => {},
                    }
                }
                acc.push(s);
                proof {
                    assert(acc.deep_view() =~= acc_pre.push(s@));
                }
                p = p2;
            },
            Err(e) => {
                proof {
                    assert(dec_str_elems(cur, (n - i) as nat) is None);
                }
                return Err(e);
            },
        }
        i = i + 1;
    }
    proof {
        assert(dec_str_elems(b@.skip(p as int), 0) == Some(
            (Seq::<Seq<char>>::empty(), b@.skip(p as int)),
        ));
        assert(acc.deep_view() + Seq::<Seq<char>>::empty() =~= acc.deep_view());
    }
    Ok((acc, p))
}

fn read_u64_list(b: &Vec<u8>, pos: usize) -> (r: Result<(Vec<u64>, usize), DaoError>)
    requires
        pos <= b@.len(),
    ensures
        match r {
            Ok((v, p2)) => pos <= p2 <= b@.len() && dec_u64_list(b@.skip(pos as int)) == Some(
                (v@, b@.skip(p2 as int)),
            ),
            Err(e) => e == DaoError::MalformedEncoding && dec_u64_list(
                b@.skip(pos as int),
            ) is None,
        },
{
    let (n, p1) = match read_u32(b, pos) {
        Ok(x) => x,
        Err(e) => {
            return Err(e);
        },
    };
    let ghost s0 = b@.skip(p1 as int);
    let mut acc: Vec<u64> = Vec::new();
    let mut p = p1;
    let mut i: u32 = 0;
    proof {
        match dec_u64_elems(s0, n as nat) {
            Some((xs, r)) => {
                assert(Seq::<u64>::empty() + xs =~= xs);
            },
            None => {},
        }
    }
    while i < n
        invariant
            i <= n,
            pos <= p1 <= p <= b@.len(),
            s0 == b@.skip(p1 as int),
            dec_u32(b@.skip(pos as int)) == Some((n, s0)),
            acc@.len() == i,
            dec_u64_elems(s0, n as nat) == prepend_elems(
                acc@,
                dec_u64_elems(b@.skip(p as int), (n - i) as nat),
            ),
        decreases n - i,
    {
        let ghost acc_pre = acc@;
        let ghost cur = b@.skip(p as int);
        match read_u64(b, p) {
            Ok((x, p2)) => {
                proof {
                    match dec_u64_elems(b@.skip(p2 as int), (n - i - 1) as nat) {
                        Some((xs, r)) => {
                            assert(acc_pre + (seq![x] + xs) =~= (acc_pre.push(x)) + xs);
                        },
                        None => {},
                    }
                }
                acc.push(x);
                p = p2;
            },
            Err(e) => {
                proof {
                    assert(dec_u64_elems(cur, (n - i) as nat) is None);
                }
                return Err(e);
            },
        }
        i = i + 1;
    }
    proof {
        assert(acc@ + Seq::<u64>::empty() =~= acc@);
    }
    Ok((acc, p))
}

fn read_vr_list(b: &Vec<u8>, pos: usize) -> (r: Result<(Vec<VoteRecord>, usize), DaoError>)
    requires
        pos <= b@.len(),
    ensures
        match r {
            Ok((v, p2)) => pos <= p2 <= b@.len() && dec_vr_list(b@.skip(pos as int)) == Some(
                (v@, b@.skip(p2 as int)),
            ),
            Err(e) => e == DaoError::MalformedEncoding && dec_vr_list(
                b@.skip(pos as int),
            ) is None,
        },
{
    let (n, p1) = match read_u32(b, pos) {
        Ok(x) => x,
        Err(e) => {
            return Err(e);
        },
    };
    let ghost s0 = b@.skip(p1 as int);
    let mut acc: Vec<VoteRecord> = Vec::new();
    let mut p = p1;
    let mut i: u32 = 0;
    proof {
        match dec_vr_elems(s0, n as nat) {
            Some((xs, r)) => {
                assert(Seq::<VoteRecord>::empty() + xs =~= xs);
            },
            None => {},
        }
    }
    while i < n
        invariant
            i <= n,
            pos <= p1 <= p <= b@.len(),
            s0 == b@.skip(p1 as int),
            dec_u32(b@.skip(pos as int)) == Some((n, s0)),
            acc@.len() == i,
            dec_vr_elems(s0, n as nat) == prepend_elems(
                acc@,
                dec_vr_elems(b@.skip(p as int), (n - i) as nat),
            ),
        decreases n - i,
    {
        let ghost acc_pre = acc@;
        let ghost cur = b@.skip(p as int);
        match read_vote_record(b, p) {
            Ok((x, p2)) => {
                proof {
                    match dec_vr_elems(b@.skip(p2 as int), (n - i - 1) as nat) {
                        Some((xs, r)) => {
                            assert(acc_pre + (seq![x] + xs) =~= (acc_pre.push(x)) + xs);
                        },
                        None => {},
                    }
                }
                acc.push(x);
                p = p2;
            },
            Err(e) => {
                proof {
                    assert(dec_vr_elems(cur, (n - i) as nat) is None);
                }
                return Err(e);
            },
        }
        i = i + 1;
    }
    proof {
        assert(acc@ + Seq::<VoteRecord>::empty() =~= acc@);
    }
    Ok((acc, p))
}

/// Deserialize a user record; trailing bytes after the record are ignored.
#[verifier::spinoff_prover]
pub fn decode_user(b: &Vec<u8>) -> (r: Result<User, DaoError>)
    ensures
        match r {
            Ok(u) => first_of(dec_user(b@)) == Some(u@),
            Err(e) => e == DaoError::MalformedEncoding && dec_user(b@) is None,
        },
{
    proof {
        assert(b@.skip(0) =~= b@);
    }
    let (initialized, p1) = match read_bool(b, 0) {
        Ok(x) => x,
        Err(e) => {
            return Err(e);
        },
    };
    let (wallet, p2) = match read_identity(b, p1) {
        Ok(x) => x,
        Err(e) => {
            return Err(e);
        },
    };
    let (staked_amount, p3) = match read_u64(b, p2) {
        Ok(x) => x,
        Err(e) => {
            return Err(e);
        },
    };
    let (voting_history, p4) = match read_vr_list(b, p3) {
        Ok(x) => x,
        Err(e) => {
            return Err(e);
        },
    };
    let (rewards_earned, p5) = match read_u64(b, p4) {
        Ok(x) => x,
        Err(e) => {
            return Err(e);
        },
    };
    let (last_claim_time, _p6) = match read_i64(b, p5) {
        Ok(x) => x,
        Err(e) => {
            return Err(e);
        },
    };
    Ok(
        User {
            initialized,
            wallet,
            staked_amount,
            voting_history,
            rewards_earned,
            last_claim_time,
        },
    )
}

/// Deserialize a creator record; trailing bytes after the record are ignored.
#[verifier::rlimit(100)]
#[verifier::spinoff_prover]
pub fn decode_creator(b: &Vec<u8>) -> (r: Result<Creator, DaoError>)
    ensures
        match r {
            Ok(c) => first_of(dec_creator(b@)) == Some(c@),
            Err(e) => e == DaoError::MalformedEncoding && dec_creator(b@) is None,
        },
{
    proof {
        assert(b@.skip(0) =~= b@);
    }
    let (initialized, p1) = match read_bool(b, 0) {
        Ok(x) => x,
        Err(e) => {
            return Err(e);
        },
    };
    let (owner, p2) = match read_identity(b, p1) {
        Ok(x) => x,
        Err(e) => {
            return Err(e);
        },
    };
    let (name, p3) = match read_string(b, p2) {
        Ok(x) => x,
        Err(e) => {
            return Err(e);
        },
    };
    let (platform_links, p4) = match read_str_list(b, p3) {
        Ok(x) => x,
        Err(e) => {
            return Err(e);
        },
    };
    let (proposals, p5) = match read_u64_list(b, p4) {
        Ok(x) => x,
        Err(e) => {
            return Err(e);
        },
    };
    let (token_pool, _p6) = match read_u64(b, p5) {
        Ok(x) => x,
        Err(e) => {
            return Err(e);
        },
    };
    Ok(Creator { initialized, owner, name, platform_links, proposals, token_pool })
}

fn read_proposal_head(b: &Vec<u8>, pos: usize) -> (r: Result<
    ((bool, u64, Identity, String, String, Vec<String>), usize),
    DaoError,
>)
    requires
        pos <= b@.len(),
    ensures
        match r {
            Ok((h, p2)) => pos <= p2 <= b@.len() && dec_proposal_head(b@.skip(pos as int))
                == Some(((h.0, h.1, h.2, h.3@, h.4@, h.5.deep_view()), b@.skip(p2 as int))),
            Err(e) => e == DaoError::MalformedEncoding && dec_proposal_head(
                b@.skip(pos as int),
            ) is None,
        },
{
    let (initialized, p1) = match read_bool(b, pos) {
        Ok(x) => x,
        Err(e) => {
            return Err(e);
        },
    };
    let (id, p2) = match read_u64(b, p1) {
        Ok(x) => x,
        Err(e) => {
            return Err(e);
        },
    };
    let (creator, p3) = match read_identity(b, p2) {
        Ok(x) => x,
        Err(e) => {
            return Err(e);
        },
    };
    let (title, p4) = match read_string(b, p3) {
        Ok(x) => x,
        Err(e) => {
            return Err(e);
        },
    };
    let (description, p5) = match read_string(b, p4) {
        Ok(x) => x,
        Err(e) => {
            return Err(e);
        },
    };
    let (options, p6) = match read_str_list(b, p5) {
        Ok(x) => x,
        Err(e) => {
            return Err(e);
        },
    };
    Ok(((initialized, id, creator, title, description, options), p6))
}

fn read_proposal_tail(b: &Vec<u8>, pos: usize) -> (r: Result<
    ((Vec<u64>, ProposalType, i64, i64, u64, bool), usize),
    DaoError,
>)
    requires
        pos <= b@.len(),
    ensures
        match r {
            Ok((t, p2)) => pos <= p2 <= b@.len() && dec_proposal_tail(b@.skip(pos as int))
                == Some(((t.0@, t.1, t.2, t.3, t.4, t.5), b@.skip(p2 as int))),
            Err(e) => e == DaoError::MalformedEncoding && dec_proposal_tail(
                b@.skip(pos as int),
            ) is None,
        },
{
    let (votes, p1) = match read_u64_list(b, pos) {
        Ok(x) => x,
        Err(e) => {
            return Err(e);
        },
    };
    let (proposal_type, p2) = match read_ptype(b, p1) {
        Ok(x) => x,
        Err(e) => {
            return Err(e);
        },
    };
    let (create_time, p3) = match read_i64(b, p2) {
        Ok(x) => x,
        Err(e) => {
            return Err(e);
        },
    };
    let (end_time, p4) = match read_i64(b, p3) {
        Ok(x) => x,
        Err(e) => {
            return Err(e);
        },
    };
    let (total_votes, p5) = match read_u64(b, p4) {
        Ok(x) => x,
        Err(e) => {
            return Err(e);
        },
    };
    let (is_active, p6) = match read_bool(b, p5) {
        Ok(x) => x,
        Err(e) => {
            return Err(e);
        },
    };
    Ok(((votes, proposal_type, create_time, end_time, total_votes, is_active), p6))
}

/// Deserialize a proposal record; trailing bytes after the record are
/// ignored.
pub fn decode_proposal(b: &Vec<u8>) -> (r: Result<Proposal, DaoError>)
    ensures
        match r {
            Ok(p) => first_of(dec_proposal(b@)) == Some(p@),
            Err(e) => e == DaoError::MalformedEncoding && dec_proposal(b@) is None,
        },
{
    proof {
        assert(b@.skip(0) =~= b@);
    }
    let (h, p1) = match read_proposal_head(b, 0) {
        Ok(x) => x,
        Err(e) => {
            return Err(e);
        },
    };
    let (t, _p2) = match read_proposal_tail(b, p1) {
        Ok(x) => x,
        Err(e) => {
            return Err(e);
        },
    };
    let (initialized, id, creator, title, description, options) = h;
    let (votes, proposal_type, create_time, end_time, total_votes, is_active) = t;
    Ok(
        Proposal {
            initialized,
            id,
            creator,
            title,
            description,
            options,
            votes,
            proposal_type,
            create_time,
            end_time,
            total_votes,
            is_active,
        },
    )
}

/// Deserialize the proposal-counter record; trailing bytes are ignored.
pub fn decode_state(b: &Vec<u8>) -> (r: Result<ProgramState, DaoError>)
    ensures
        match r {
            Ok(s) => first_of(dec_state(b@)) == Some(s),
            Err(e) => e == DaoError::MalformedEncoding && dec_state(b@) is None,
        },
{
    proof {
        assert(b@.skip(0) =~= b@);
    }
    match read_u64(b, 0) {
        Ok((proposal_counter, _p)) => Ok(ProgramState { proposal_counter }),
        Err(e) => Err(e),
    }
}

/// Deserialize an instruction; trailing bytes after the payload are
/// ignored.
#[verifier::rlimit(100)]
#[verifier::spinoff_prover]
pub fn decode_instruction(b: &Vec<u8>) -> (r: Result<SMDAOInstruction, DaoError>)
    ensures
        match r {
            Ok(i) => first_of(dec_instruction(b@)) == Some(i@),
            Err(e) => e == DaoError::MalformedEncoding && dec_instruction(b@) is None,
        },
{
    proof {
        assert(b@.skip(0) =~= b@);
    }
    let (disc, p1) = match read_u8(b, 0) {
        Ok(x) => x,
        Err(e) => {
            return Err(e);
        },
    };
    if disc == 0 {
        let (name, p2) = match read_string(b, p1) {
            Ok(x) => x,
            Err(e) => {
                return Err(e);
            },
        };
        let (platform_links, _p3) = match read_str_list(b, p2) {
            Ok(x) => x,
            Err(e) => {
                return Err(e);
            },
        };
        Ok(SMDAOInstruction::InitializeCreator { name, platform_links })
    } else if disc == 1 {
        let (title, p2) = match read_string(b, p1) {
            Ok(x) => x,
            Err(e) => {
                return Err(e);
            },
        };
        let (description, p3) = match read_string(b, p2) {
            Ok(x) => x,
            Err(e) => {
                return Err(e);
            },
        };
        let (options, p4) = match read_str_list(b, p3) {
            Ok(x) => x,
            Err(e) => {
                return Err(e);
            },
        };
        let (proposal_type, p5) = match read_ptype(b, p4) {
            Ok(x) => x,
            Err(e) => {
                return Err(e);
            },
        };
        let (end_time, _p6) = match read_i64(b, p5) {
            Ok(x) => x,
            Err(e) => {
                return Err(e);
            },
        };
        Ok(
            SMDAOInstruction::CreateProposal {
                title,
                description,
                options,
                proposal_type,
                end_time,
            },
        )
    } else if disc == 2 {
        let (proposal_id, p2) = match read_u64(b, p1) {
            Ok(x) => x,
            Err(e) => {
                return Err(e);
            },
        };
        let (option_index, p3) = match read_u8(b, p2) {
            Ok(x) => x,
            Err(e) => {
                return Err(e);
            },
        };
        let (vote_weight, _p4) = match read_u64(b, p3) {
            Ok(x) => x,
            Err(e) => {
                return Err(e);
            },
        };
        Ok(SMDAOInstruction::Vote { proposal_id, option_index, vote_weight })
    } else if disc == 3 {
        let (amount, _p2) = match read_u64(b, p1) {
            Ok(x) => x,
            Err(e) => {
                return Err(e);
            },
        };
        Ok(SMDAOInstruction::Stake { amount })
    } else if disc == 4 {
        let (amount, _p2) = match read_u64(b, p1) {
            Ok(x) => x,
            Err(e) => {
                return Err(e);
            },
        };
        Ok(SMDAOInstruction::Unstake { amount })
    } else if disc == 5 {
        Ok(SMDAOInstruction::ClaimRewards)
    } else {
        Err(DaoError::MalformedEncoding)
    }
}

} // verus!
