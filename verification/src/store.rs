//! Record store adapter: the in-memory image of one externally stored
//! record, and the byte-level write discipline. A record slot has a fixed
//! capacity; writing a record replaces the front of the slot's bytes and
//! leaves the remainder untouched, and fails when the encoding is larger
//! than the slot.

use vstd::prelude::*;

use crate::records::Identity;

verus! {

/// One record handed to an invocation: the record's address, the program
/// that owns its bytes, whether its holder signed the invocation, and the
/// stored bytes themselves.
pub struct RecordSlot {
    pub key: Identity,
    pub owner_program: Identity,
    pub is_signer: bool,
    pub data: Vec<u8>,
}

/// Mathematical value of a record slot.
#[verifier::ext_equal]
pub struct SlotV {
    pub key: Identity,
    pub owner_program: Identity,
    pub is_signer: bool,
    pub data: Seq<u8>,
}

impl View for RecordSlot {
    type V = SlotV;

    open spec fn view(&self) -> SlotV {
        SlotV {
            key: self.key,
            owner_program: self.owner_program,
            is_signer: self.is_signer,
            data: self.data@,
        }
    }
}

/// The values of a whole slot list.
pub open spec fn slots_v(s: Seq<RecordSlot>) -> Seq<SlotV> {
    s.map_values(|r: RecordSlot| r@)
}

/// Whether a record encoding can be stored in a slot: an empty slot is
/// freshly allocated by the external store and takes the record's exact
/// size; a slot that already holds bytes must be large enough.
pub open spec fn can_store(old_data: Seq<u8>, enc: Seq<u8>) -> bool {
    old_data.len() == 0 || enc.len() <= old_data.len()
}

/// The slot's bytes after a record encoding is written: an empty slot
/// becomes exactly the encoding; otherwise the encoding replaces the
/// front and the spare capacity keeps its old bytes.
pub open spec fn write_bytes(old_data: Seq<u8>, enc: Seq<u8>) -> Seq<u8>
    recommends
        can_store(old_data, enc),
{
    if old_data.len() == 0 {
        enc
    } else {
        enc + old_data.skip(enc.len() as int)
    }
}

/// Decide [`can_store`] for a staged encoding.
pub fn fits_slot(enc: &Vec<u8>, old_data: &Vec<u8>) -> (r: bool)
    ensures
        r == can_store(old_data@, enc@),
{
    old_data.len() == 0 || enc.len() <= old_data.len()
}

/// An empty slot: one that holds no bytes yet.
pub fn data_is_empty(slot: &RecordSlot) -> (r: bool)
    ensures
        r == (slot@.data.len() == 0),
{
    slot.data.len() == 0
}

/// The bytes of `slot` after `enc` is committed; see [`write_bytes`].
pub fn staged_bytes(enc: &Vec<u8>, old_data: &Vec<u8>) -> (r: Vec<u8>)
    requires
        can_store(old_data@, enc@),
    ensures
        r@ == write_bytes(old_data@, enc@),
{
    let mut out: Vec<u8> = Vec::new();
    let n = enc.len();
    let mut i: usize = 0;
    while i < n
        invariant
            i <= n,
            n == enc@.len(),
            out@ == enc@.take(i as int),
        decreases n - i,
    {
        out.push(enc[i]);
        assert(out@ =~= enc@.take(i as int + 1));
        i = i + 1;
    }
    assert(out@ =~= enc@);
    if old_data.len() > 0 {
        let m = old_data.len();
        let mut j: usize = n;
        while j < m
            invariant
                n <= j <= m,
                n == enc@.len(),
                m == old_data@.len(),
                out@ == enc@ + old_data@.subrange(n as int, j as int),
            decreases m - j,
        {
            out.push(old_data[j]);
            assert(out@ =~= enc@ + old_data@.subrange(n as int, j as int + 1));
            j = j + 1;
        }
        proof {
            assert(out@ =~= enc@ + old_data@.skip(n as int));
        }
    }
    out
}

/// Commit staged bytes into slot `i`, keeping the slot's identity fields.
pub fn commit_record(slots: &mut Vec<RecordSlot>, i: usize, staged: Vec<u8>)
    requires
        i < old(slots)@.len(),
    ensures
        final(slots)@.len() == old(slots)@.len(),
        slots_v(final(slots)@) == slots_v(old(slots)@).update(
            i as int,
            (SlotV {
                key: old(slots)@[i as int]@.key,
                owner_program: old(slots)@[i as int]@.owner_program,
                is_signer: old(slots)@[i as int]@.is_signer,
                data: staged@,
            }),
        ),
{
    let key = slots[i].key;
    let owner_program = slots[i].owner_program;
    let is_signer = slots[i].is_signer;
    slots.set(i, RecordSlot { key, owner_program, is_signer, data: staged });
    proof {
        assert(slots_v(slots@) =~= slots_v(old(slots)@).update(
            i as int,
            (SlotV {
                key: old(slots)@[i as int]@.key,
                owner_program: old(slots)@[i as int]@.owner_program,
                is_signer: old(slots)@[i as int]@.is_signer,
                data: staged@,
            }),
        ));
    }
}

} // verus!
