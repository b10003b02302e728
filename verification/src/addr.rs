//! Derived addresses.
//!
//! Every custody account and escrow record lives at an address computed
//! deterministically from a namespace tag, seed bytes and the controlling
//! program's identity.  The derivation itself is a hash search done by the
//! host SDK; its results are named here and the protocol re-derives and
//! compares addresses instead of trusting caller-supplied references.

use vstd::prelude::*;

verus! {

/// What `create_program_address` returns for given seeds and program
/// identity: a hash of both, refused when it lands on the ed25519 curve or a
/// seed is over the length limit.
pub uninterp spec fn pda_create(seeds: Seq<Seq<u8>>, program: Seq<u8>) -> Option<Seq<u8>>;

/// What `try_find_program_address` returns: the first bump byte, counting
/// down from 255, whose derivation succeeds, together with that derivation.
pub uninterp spec fn pda_find(seeds: Seq<Seq<u8>>, program: Seq<u8>) -> Option<(Seq<u8>, u8)>;

/// The byte views of a seed list.
pub open spec fn seeds_view(s: Seq<Vec<u8>>) -> Seq<Seq<u8>> {
    s.map_values(|v: Vec<u8>| v@)
}

/// Relies on solana_address::Address::try_find_program_address: it walks bump
/// bytes from 255 down and returns the first pair accepted by
/// create_program_address, so the pair it returns re-derives through
/// `pda_create` with the bump appended as one extra seed.
#[verifier::external_body]
pub fn find_program_address(seeds: &Vec<Vec<u8>>, program: &[u8; 32]) -> (r: Option<([u8; 32], u8)>)
    ensures
        match r {
            Some(ab) => {
                &&& pda_find(seeds_view(seeds@), program@) == Some((ab.0@, ab.1))
                &&& pda_create(seeds_view(seeds@).push(seq![ab.1]), program@) == Some(ab.0@)
                &&& ab.0@.len() == 32
            },
            None => pda_find(seeds_view(seeds@), program@) is None,
        },
{
    let refs: Vec<&[u8]> = seeds.iter().map(|s| s.as_slice()).collect();
    let id = solana_address::Address::new_from_array(*program);
    solana_address::Address::try_find_program_address(&refs, &id).map(|(a, b)| (a.to_bytes(), b))
}

/// Relies on solana_address::Address::create_program_address: a deterministic
/// hash of the seeds and the program identity; it fails exactly when a seed
/// is over the length limit, there are too many seeds, or the hash lands on
/// the ed25519 curve.
#[verifier::external_body]
pub fn create_program_address(seeds: &Vec<Vec<u8>>, program: &[u8; 32]) -> (r: Option<[u8; 32]>)
    ensures
        match r {
            Some(a) => pda_create(seeds_view(seeds@), program@) == Some(a@) && a@.len() == 32,
            None => pda_create(seeds_view(seeds@), program@) is None,
        },
{
    let refs: Vec<&[u8]> = seeds.iter().map(|s| s.as_slice()).collect();
    let id = solana_address::Address::new_from_array(*program);
    solana_address::Address::create_program_address(&refs, &id).ok().map(|a| a.to_bytes())
}

/// The "escrow" namespace tag.
pub open spec fn escrow_tag() -> Seq<u8> {
    seq![101u8, 115u8, 99u8, 114u8, 111u8, 119u8]
}

/// The "vault" namespace tag.
pub open spec fn vault_tag() -> Seq<u8> {
    seq![118u8, 97u8, 117u8, 108u8, 116u8]
}

/// Seeds of an escrow record: namespace, creator, creator-chosen seed.
pub open spec fn escrow_seeds(maker: Seq<u8>, seed: u64) -> Seq<Seq<u8>> {
    seq![escrow_tag(), maker, vstd::bytes::spec_u64_to_le_bytes(seed)]
}

/// Seeds of a lamport vault: namespace, owner.
pub open spec fn vault_seeds(owner: Seq<u8>) -> Seq<Seq<u8>> {
    seq![vault_tag(), owner]
}

/// Seeds of a per-owner-per-asset token account, also used for the custody
/// account, whose owner is the escrow record's own address.
pub open spec fn token_account_seeds(owner: Seq<u8>, mint: Seq<u8>) -> Seq<Seq<u8>> {
    seq![owner, mint]
}

pub fn bytes32_to_vec(a: &[u8; 32]) -> (r: Vec<u8>)
    ensures
        r@ == a@,
{
    let mut r: Vec<u8> = Vec::new();
    let mut i: usize = 0;
    while i < 32
        invariant
            i <= 32,
            r@ =~= a@.take(i as int),
        decreases 32 - i,
    {
        r.push(a[i]);
        proof {
            assert(r@ =~= a@.take(i + 1));
        }
        i += 1;
    }
    proof {
        assert(a@.take(32) =~= a@);
    }
    r
}

pub fn build_escrow_seeds(maker: &[u8; 32], seed: u64) -> (r: Vec<Vec<u8>>)
    ensures
        seeds_view(r@) == escrow_seeds(maker@, seed),
{
    let mut tag: Vec<u8> = Vec::new();
    tag.push(101);
    tag.push(115);
    tag.push(99);
    tag.push(114);
    tag.push(111);
    tag.push(119);
    proof {
        assert(tag@ =~= escrow_tag());
    }
    let mk = bytes32_to_vec(maker);
    let sb = vstd::bytes::u64_to_le_bytes(seed);
    let mut r: Vec<Vec<u8>> = Vec::new();
    r.push(tag);
    r.push(mk);
    r.push(sb);
    proof {
        assert(seeds_view(r@) =~~= escrow_seeds(maker@, seed));
    }
    r
}

pub fn build_vault_seeds(owner: &[u8; 32]) -> (r: Vec<Vec<u8>>)
    ensures
        seeds_view(r@) == vault_seeds(owner@),
{
    let mut tag: Vec<u8> = Vec::new();
    tag.push(118);
    tag.push(97);
    tag.push(117);
    tag.push(108);
    tag.push(116);
    proof {
        assert(tag@ =~= vault_tag());
    }
    let ow = bytes32_to_vec(owner);
    let mut r: Vec<Vec<u8>> = Vec::new();
    r.push(tag);
    r.push(ow);
    proof {
        assert(seeds_view(r@) =~~= vault_seeds(owner@));
    }
    r
}

pub fn build_token_account_seeds(owner: &[u8; 32], mint: &[u8; 32]) -> (r: Vec<Vec<u8>>)
    ensures
        seeds_view(r@) == token_account_seeds(owner@, mint@),
{
    let ow = bytes32_to_vec(owner);
    let mi = bytes32_to_vec(mint);
    let mut r: Vec<Vec<u8>> = Vec::new();
    r.push(ow);
    r.push(mi);
    proof {
        assert(seeds_view(r@) =~~= token_account_seeds(owner@, mint@));
    }
    r
}

/// Appends a bump byte as one extra single-byte seed, the shape under which a
/// stored bump is re-checked through `create_program_address`.
pub fn push_bump(seeds: &mut Vec<Vec<u8>>, bump: u8)
    ensures
        seeds_view(final(seeds)@) == seeds_view(old(seeds)@).push(seq![bump]),
{
    let mut b: Vec<u8> = Vec::new();
    b.push(bump);
    proof {
        assert(b@ =~= seq![bump]);
    }
    seeds.push(b);
    proof {
        assert(seeds_view(seeds@) =~~= seeds_view(old(seeds)@).push(seq![bump]));
    }
}

} // verus!
