//! Cross-operation laws of the protocol, proved from the operations' own
//! contracts: mutual exclusion of the two terminal operations, independence
//! of distinct offers, occupation of a derived address, and the vault
//! round trip.

use crate::addr::{escrow_seeds, pda_find};
use crate::escrow_ops::{
    cancel_effects, cancel_spec, create_effects, create_spec, execute_effects, execute_spec,
};
use crate::ledger::{lbal, Ledger};
use crate::store::lookup;
use crate::vault_ops::{deposit_post, deposit_spec, withdraw_post};
use crate::EscrowError;
use vstd::prelude::*;

verus! {

/// Once either Execute or Cancel has succeeded for an escrow, its record no
/// longer resolves, so every later Execute or Cancel against the same
/// address — by any caller, with any accounts — fails with the
/// not-found error: the two terminal operations are mutually exclusive, and
/// neither is ever a silent no-op the second time.
pub proof fn lemma_terminal_exclusive(
    pre: Ledger,
    post: Ledger,
    taker: Seq<u8>,
    maker: Seq<u8>,
    eaddr: Seq<u8>,
    mint_a: Seq<u8>,
    mint_b: Seq<u8>,
)
    requires
        execute_effects(pre, post, taker, eaddr, maker, mint_a, mint_b) || cancel_effects(
            pre,
            post,
            maker,
            eaddr,
            mint_a,
        ),
    ensures
        forall|t2: Seq<u8>, mk2: Seq<u8>, ma2: Seq<u8>, mb2: Seq<u8>|
            execute_spec(
                post.program@,
                post.escrows.entries@,
                post.tokens.entries@,
                t2,
                eaddr,
                mk2,
                ma2,
                mb2,
            ) == Err::<(), EscrowError>(EscrowError::AccountNotFound),
        forall|mk2: Seq<u8>, ma2: Seq<u8>|
            cancel_spec(
                post.program@,
                post.escrows.entries@,
                post.tokens.entries@,
                mk2,
                eaddr,
                ma2,
            ) == Err::<(), EscrowError>(EscrowError::AccountNotFound),
{
    assert(lookup(post.escrows.entries@, eaddr) is None);
}

/// A derived address is a function of creator and seed alone, so once a
/// record occupies it, a second Create by the same creator with the same
/// seed finds the address taken and is rejected, whatever other terms it
/// asks for.
pub proof fn lemma_recreate_same_seed_fails(
    pre: Ledger,
    post: Ledger,
    maker: Seq<u8>,
    seed: u64,
    mint_a: Seq<u8>,
    mint_b: Seq<u8>,
    receive: u64,
    amount: u64,
    mint_a2: Seq<u8>,
    mint_b2: Seq<u8>,
    receive2: u64,
    amount2: u64,
)
    requires
        pda_find(escrow_seeds(maker, seed), pre.program@) is Some,
        create_effects(pre, post, maker, seed, mint_a, mint_b, receive, amount),
        receive2 > 0,
        amount2 > 0,
    ensures
        create_spec(
            post.program@,
            post.escrows.entries@,
            post.tokens.entries@,
            maker,
            seed,
            mint_a2,
            mint_b2,
            receive2,
            amount2,
        ) == Err::<(Seq<u8>, u8), EscrowError>(EscrowError::AlreadyExists),
{
    let ep = pda_find(escrow_seeds(maker, seed), pre.program@).unwrap();
    assert(lookup(post.escrows.entries@, ep.0) is Some);
}

/// Offers at distinct derived addresses are independent: destroying one by
/// Cancel, or by Execute, leaves every other record exactly as it was, so
/// each remains cancelable on its own.
pub proof fn lemma_distinct_escrows_independent(
    pre: Ledger,
    post: Ledger,
    taker: Seq<u8>,
    maker: Seq<u8>,
    eaddr: Seq<u8>,
    mint_a: Seq<u8>,
    mint_b: Seq<u8>,
    other: Seq<u8>,
)
    requires
        execute_effects(pre, post, taker, eaddr, maker, mint_a, mint_b) || cancel_effects(
            pre,
            post,
            maker,
            eaddr,
            mint_a,
        ),
        other != eaddr,
    ensures
        lookup(post.escrows.entries@, other) == lookup(pre.escrows.entries@, other),
{
}

/// Vault round trip: a deposit followed by a withdrawal restores the
/// owner's balance exactly and leaves the vault at zero, and no other
/// balance moves at any point.
pub proof fn lemma_vault_round_trip(
    l0: Ledger,
    l1: Ledger,
    l2: Ledger,
    owner: Seq<u8>,
    vault: Seq<u8>,
    data: Seq<u8>,
)
    requires
        owner != vault,
        deposit_post(l0, l1, owner, vault, data, Ok(())),
        withdraw_post(l1, l2, owner, vault, Ok(())),
    ensures
        lbal(l2.lamports.entries@, owner) == lbal(l0.lamports.entries@, owner) + lbal(
            l0.lamports.entries@,
            vault,
        ),
        lbal(l2.lamports.entries@, vault) == 0,
        forall|k: Seq<u8>|
            k != owner && k != vault ==> lbal(l2.lamports.entries@, k) == lbal(
                l0.lamports.entries@,
                k,
            ),
{
    let amt = deposit_spec(l0.program@, l0.lamports.entries@, owner, vault, data).unwrap() as int;
    assert(lbal(l1.lamports.entries@, owner) == lbal(l0.lamports.entries@, owner) - amt);
    assert(lbal(l1.lamports.entries@, vault) == lbal(l0.lamports.entries@, vault) + amt);
    assert(lbal(l2.lamports.entries@, owner) == lbal(l1.lamports.entries@, owner) + lbal(
        l1.lamports.entries@,
        vault,
    ));
    assert forall|k: Seq<u8>|
        k != owner && k != vault implies lbal(l2.lamports.entries@, k) == lbal(
        l0.lamports.entries@,
        k,
    ) by {
        assert(lbal(l1.lamports.entries@, k) == lbal(l0.lamports.entries@, k));
        assert(lbal(l2.lamports.entries@, k) == lbal(l1.lamports.entries@, k));
    }
}

} // verus!
