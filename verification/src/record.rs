//! The escrow record: the persistent description of one open swap offer, and
//! its fixed on-ledger byte layout.

use crate::EscrowError;
use vstd::bytes::{spec_u64_from_le_bytes, spec_u64_to_le_bytes, u64_from_le_bytes, u64_to_le_bytes};
use vstd::prelude::*;

verus! {

/// The record-type tag that precedes a serialized escrow record.
pub const RECORD_TAG: u8 = 1;

/// Serialized length: tag, seed, three identities, amount, proof byte.
pub const RECORD_LEN: usize = 114;

/// One open swap offer.  All fields are immutable after creation; the record
/// is destroyed, never rewritten, by whichever terminal operation runs first.
#[derive(Clone, Copy, PartialEq, Eq, Debug)]
pub struct Escrow {
    /// Creator-chosen disambiguator, so one creator can keep several offers
    /// open on the same asset pair.
    pub seed: u64,
    /// Who may cancel, and who receives the requested asset on execute.
    pub maker: [u8; 32],
    /// The asset the creator deposited.
    pub mint_a: [u8; 32],
    /// The asset the creator wants.
    pub mint_b: [u8; 32],
    /// Exact quantity of `mint_b` required to execute.
    pub receive: u64,
    /// Cached proof byte of the record's own address derivation.
    pub bump: u8,
}

/// The persisted layout: tag, then seed, creator, offered asset, requested
/// asset, requested amount, proof byte, little-endian throughout.
pub open spec fn serialized(e: Escrow) -> Seq<u8> {
    seq![RECORD_TAG] + spec_u64_to_le_bytes(e.seed) + e.maker@ + e.mint_a@ + e.mint_b@
        + spec_u64_to_le_bytes(e.receive) + seq![e.bump]
}

impl Escrow {
    pub fn to_bytes(&self) -> (r: Vec<u8>)
        ensures
            r@ == serialized(*self),
            r@.len() == RECORD_LEN,
    {
        proof {
            vstd::bytes::lemma_auto_spec_u64_to_from_le_bytes();
        }
        let mut r: Vec<u8> = Vec::new();
        r.push(RECORD_TAG);
        let mut seed_b = u64_to_le_bytes(self.seed);
        r.append(&mut seed_b);
        let mut maker_b = crate::addr::bytes32_to_vec(&self.maker);
        r.append(&mut maker_b);
        let mut mint_a_b = crate::addr::bytes32_to_vec(&self.mint_a);
        r.append(&mut mint_a_b);
        let mut mint_b_b = crate::addr::bytes32_to_vec(&self.mint_b);
        r.append(&mut mint_b_b);
        let mut recv_b = u64_to_le_bytes(self.receive);
        r.append(&mut recv_b);
        r.push(self.bump);
        proof {
            assert(r@ =~= serialized(*self));
        }
        r
    }
}

/// Copies 32 bytes starting at `off` into a fresh identity.
fn read32(b: &[u8], off: usize) -> (r: [u8; 32])
    requires
        off + 32 <= b@.len(),
    ensures
        r@ == b@.subrange(off as int, off as int + 32),
{
    let mut r: [u8; 32] = [0; 32];
    let n = b.len();
    let mut i: usize = 0;
    while i < 32
        invariant
            i <= 32,
            n == b@.len(),
            off + 32 <= b@.len(),
            forall|j: int| 0 <= j < i ==> r@[j] == b@[off + j],
        decreases 32 - i,
    {
        r[i] = b[off + i];
        i += 1;
    }
    proof {
        assert(r@ =~= b@.subrange(off as int, off as int + 32));
    }
    r
}

/// Reads a record back from its persisted bytes.  Succeeds exactly on byte
/// strings of the right length that carry the escrow record tag, and then
/// returns the one record those bytes serialize.
pub fn from_bytes(b: &[u8]) -> (r: Result<Escrow, EscrowError>)
    ensures
        match r {
            Ok(e) => b@.len() == RECORD_LEN && b@[0] == RECORD_TAG && serialized(e) == b@,
            Err(err) => {
                &&& !(b@.len() == RECORD_LEN && b@[0] == RECORD_TAG)
                &&& err == EscrowError::InvalidAccountData
            },
        },
{
    proof {
        vstd::bytes::lemma_auto_spec_u64_to_from_le_bytes();
    }
    if b.len() != RECORD_LEN {
        return Err(EscrowError::InvalidAccountData);
    }
    if b[0] != RECORD_TAG {
        return Err(EscrowError::InvalidAccountData);
    }
    let seed_slice = vstd::slice::slice_subrange(b, 1, 9);
    let seed = u64_from_le_bytes(seed_slice);
    let maker = read32(b, 9);
    let mint_a = read32(b, 41);
    let mint_b = read32(b, 73);
    let recv_slice = vstd::slice::slice_subrange(b, 105, 113);
    let receive = u64_from_le_bytes(recv_slice);
    let bump = b[113];
    let e = Escrow { seed, maker, mint_a, mint_b, receive, bump };
    proof {
        assert(serialized(e) =~= b@);
    }
    Ok(e)
}

/// The persisted layout is lossless: a serialized record has the fixed
/// length and tag, and no two distinct records serialize to the same bytes,
/// so parsing what `to_bytes` wrote gives the record back.
pub proof fn lemma_record_round_trip(e: Escrow)
    ensures
        serialized(e).len() == RECORD_LEN,
        serialized(e)[0] == RECORD_TAG,
        forall|e2: Escrow| serialized(e2) == serialized(e) ==> e2 == e,
{
    vstd::bytes::lemma_auto_spec_u64_to_from_le_bytes();
    assert forall|e2: Escrow| serialized(e2) == serialized(e) implies e2 == e by {
        lemma_serialized_injective(e, e2);
    }
}

proof fn lemma_serialized_injective(e: Escrow, e2: Escrow)
    requires
        serialized(e) == serialized(e2),
    ensures
        e == e2,
{
    vstd::bytes::lemma_auto_spec_u64_to_from_le_bytes();
    let s = serialized(e);
    let s2 = serialized(e2);
    assert(spec_u64_to_le_bytes(e.seed) =~= s.subrange(1, 9));
    assert(spec_u64_to_le_bytes(e2.seed) =~= s2.subrange(1, 9));
    assert(e.seed == spec_u64_from_le_bytes(spec_u64_to_le_bytes(e.seed)));
    assert(e2.seed == spec_u64_from_le_bytes(spec_u64_to_le_bytes(e2.seed)));
    assert(e.maker@ =~= s.subrange(9, 41));
    assert(e2.maker@ =~= s2.subrange(9, 41));
    assert(e.maker =~= e2.maker);
    assert(e.mint_a@ =~= s.subrange(41, 73));
    assert(e2.mint_a@ =~= s2.subrange(41, 73));
    assert(e.mint_a =~= e2.mint_a);
    assert(e.mint_b@ =~= s.subrange(73, 105));
    assert(e2.mint_b@ =~= s2.subrange(73, 105));
    assert(e.mint_b =~= e2.mint_b);
    assert(spec_u64_to_le_bytes(e.receive) =~= s.subrange(105, 113));
    assert(spec_u64_to_le_bytes(e2.receive) =~= s2.subrange(105, 113));
    assert(e.receive == spec_u64_from_le_bytes(spec_u64_to_le_bytes(e.receive)));
    assert(e2.receive == spec_u64_from_le_bytes(spec_u64_to_le_bytes(e2.receive)));
    assert(s[113] == e.bump);
    assert(s2[113] == e2.bump);
}

} // verus!
