//! The ledger model: account stores plus the asset-transfer collaborator
//! operations the protocol invokes.  Each operation either fully applies or
//! returns an error and leaves the ledger untouched.

use crate::addr::{find_program_address, pda_find, token_account_seeds, build_token_account_seeds};
use crate::addr_eq;
use crate::record::Escrow;
use crate::store::{lookup, Store};
use crate::EscrowError;
use vstd::prelude::*;

verus! {

/// A fungible-asset account: which asset it holds, who may move it, and how
/// much it holds.  The custody account's authority is an escrow record's own
/// derived address, never an end-user identity.
#[derive(Clone, Copy, PartialEq, Eq, Debug)]
pub struct TokenAccount {
    pub authority: [u8; 32],
    pub mint: [u8; 32],
    pub amount: u64,
}

/// Balance of a token account address; an address that does not resolve
/// holds nothing.
pub open spec fn tbal(s: Seq<([u8; 32], TokenAccount)>, k: Seq<u8>) -> int {
    match lookup(s, k) {
        Some(t) => t.amount as int,
        None => 0,
    }
}

/// Balance in the ledger's native unit; absence means zero.
pub open spec fn lbal(s: Seq<([u8; 32], u64)>, k: Seq<u8>) -> int {
    match lookup(s, k) {
        Some(v) => v as int,
        None => 0,
    }
}

/// The ledger as one protocol instance sees it: the program identity that
/// controls all derived addresses, token accounts, open escrow records, and
/// native-unit balances.
pub struct Ledger {
    pub program: [u8; 32],
    pub tokens: Store<TokenAccount>,
    pub escrows: Store<Escrow>,
    pub lamports: Store<u64>,
}

/// When a token transfer goes through: source and destination exist, the
/// source covers the amount, and the destination balance stays within 64
/// bits (a self-transfer moves nothing and cannot overflow).
pub open spec fn token_transfer_ok(
    s: Seq<([u8; 32], TokenAccount)>,
    from: Seq<u8>,
    to: Seq<u8>,
    amount: u64,
) -> bool {
    &&& lookup(s, from) is Some
    &&& lookup(s, from).unwrap().amount >= amount
    &&& lookup(s, to) is Some
    &&& (from == to || lookup(s, to).unwrap().amount + amount <= u64::MAX)
}

/// The first cause that makes the transfer fail.
pub open spec fn token_transfer_err(
    s: Seq<([u8; 32], TokenAccount)>,
    from: Seq<u8>,
    to: Seq<u8>,
    amount: u64,
) -> EscrowError {
    if lookup(s, from) is None {
        EscrowError::AccountNotFound
    } else if lookup(s, from).unwrap().amount < amount {
        EscrowError::InsufficientFunds
    } else if lookup(s, to) is None {
        EscrowError::AccountNotFound
    } else {
        EscrowError::ArithmeticOverflow
    }
}

/// When an account can be closed: it exists and is fully drained.
pub open spec fn close_ok(s: Seq<([u8; 32], TokenAccount)>, k: Seq<u8>) -> bool {
    lookup(s, k) is Some && lookup(s, k).unwrap().amount == 0
}

/// The derived address of the per-owner-per-asset account.
pub open spec fn owned_token_addr(program: Seq<u8>, owner: Seq<u8>, mint: Seq<u8>) -> Seq<u8> {
    pda_find(token_account_seeds(owner, mint), program).unwrap().0
}

/// When `get_or_create` of the per-owner-per-asset account succeeds: the
/// address derives, and whatever already sits there carries the expected
/// authority and asset.
pub open spec fn goc_ok(
    s: Seq<([u8; 32], TokenAccount)>,
    program: Seq<u8>,
    owner: Seq<u8>,
    mint: Seq<u8>,
) -> bool {
    &&& pda_find(token_account_seeds(owner, mint), program) is Some
    &&& match lookup(s, owned_token_addr(program, owner, mint)) {
        None => true,
        Some(t) => t.authority@ == owner && t.mint@ == mint,
    }
}

/// The first cause that makes `get_or_create` fail.
pub open spec fn goc_err(
    s: Seq<([u8; 32], TokenAccount)>,
    program: Seq<u8>,
    owner: Seq<u8>,
    mint: Seq<u8>,
) -> EscrowError {
    if pda_find(token_account_seeds(owner, mint), program) is None {
        EscrowError::DerivationFailed
    } else {
        EscrowError::InvalidAccountData
    }
}

/// When a native-unit transfer goes through.
pub open spec fn lamport_transfer_ok(
    s: Seq<([u8; 32], u64)>,
    from: Seq<u8>,
    to: Seq<u8>,
    amount: u64,
) -> bool {
    &&& lbal(s, from) >= amount
    &&& (from == to || lbal(s, to) + amount <= u64::MAX)
}

impl Ledger {
    pub open spec fn wf(&self) -> bool {
        &&& self.tokens.wf()
        &&& self.escrows.wf()
        &&& self.lamports.wf()
    }

    pub fn new(program: [u8; 32]) -> (r: Ledger)
        ensures
            r.wf(),
            r.program == program,
            r.tokens.entries@.len() == 0,
            r.escrows.entries@.len() == 0,
            r.lamports.entries@.len() == 0,
    {
        Ledger {
            program,
            tokens: Store::new(),
            escrows: Store::new(),
            lamports: Store::new(),
        }
    }

    /// `transfer(from, to, authority, amount)` of the asset service: moves
    /// `amount` between two existing token accounts, all or nothing.
    pub fn token_transfer(&mut self, from: &[u8; 32], to: &[u8; 32], amount: u64) -> (r: Result<
        (),
        EscrowError,
    >)
        requires
            old(self).wf(),
        ensures
            final(self).wf(),
            final(self).program == old(self).program,
            final(self).escrows.entries@ == old(self).escrows.entries@,
            final(self).lamports.entries@ == old(self).lamports.entries@,
            match r {
                Ok(_) => {
                    &&& token_transfer_ok(old(self).tokens.entries@, from@, to@, amount)
                    &&& forall|k: Seq<u8>|
                        tbal(final(self).tokens.entries@, k) == tbal(old(self).tokens.entries@, k)
                            + (if k == to@ { amount as int } else { 0 }) - (if k == from@ { amount as int } else { 0 })
                    &&& forall|k: Seq<u8>|
                        lookup(final(self).tokens.entries@, k) is Some <==> lookup(
                            old(self).tokens.entries@,
                            k,
                        ) is Some
                    &&& forall|k: Seq<u8>|
                        lookup(old(self).tokens.entries@, k) is Some ==> {
                            &&& lookup(final(self).tokens.entries@, k).unwrap().authority == lookup(
                                old(self).tokens.entries@,
                                k,
                            ).unwrap().authority
                            &&& lookup(final(self).tokens.entries@, k).unwrap().mint == lookup(
                                old(self).tokens.entries@,
                                k,
                            ).unwrap().mint
                        }
                },
                Err(e) => {
                    &&& *final(self) == *old(self)
                    &&& !token_transfer_ok(old(self).tokens.entries@, from@, to@, amount)
                    &&& e == token_transfer_err(old(self).tokens.entries@, from@, to@, amount)
                },
            },
    {
        let fa = match self.tokens.get(from) {
            Some(fa) => fa,
            None => {
                return Err(EscrowError::AccountNotFound);
            },
        };
        if fa.amount < amount {
            return Err(EscrowError::InsufficientFunds);
        }
        let ta = match self.tokens.get(to) {
            Some(ta) => ta,
            None => {
                return Err(EscrowError::AccountNotFound);
            },
        };
        if addr_eq(from, to) {
            return Ok(());
        }
        if ta.amount > u64::MAX - amount {
            return Err(EscrowError::ArithmeticOverflow);
        }
        self.tokens.put(
            *from,
            TokenAccount { authority: fa.authority, mint: fa.mint, amount: fa.amount - amount },
        );
        self.tokens.put(
            *to,
            TokenAccount { authority: ta.authority, mint: ta.mint, amount: ta.amount + amount },
        );
        Ok(())
    }

    /// `close(account, authority, destination)` of the asset service: removes
    /// a fully drained token account from the ledger.
    pub fn close_token(&mut self, k: &[u8; 32]) -> (r: Result<(), EscrowError>)
        requires
            old(self).wf(),
        ensures
            final(self).wf(),
            final(self).program == old(self).program,
            final(self).escrows.entries@ == old(self).escrows.entries@,
            final(self).lamports.entries@ == old(self).lamports.entries@,
            match r {
                Ok(_) => {
                    &&& close_ok(old(self).tokens.entries@, k@)
                    &&& lookup(final(self).tokens.entries@, k@) is None
                    &&& forall|k2: Seq<u8>|
                        k2 != k@ ==> lookup(final(self).tokens.entries@, k2) == lookup(
                            old(self).tokens.entries@,
                            k2,
                        )
                    &&& forall|k2: Seq<u8>|
                        tbal(final(self).tokens.entries@, k2) == tbal(old(self).tokens.entries@, k2)
                },
                Err(e) => {
                    &&& *final(self) == *old(self)
                    &&& !close_ok(old(self).tokens.entries@, k@)
                    &&& e == (if lookup(old(self).tokens.entries@, k@) is None {
                        EscrowError::AccountNotFound
                    } else {
                        EscrowError::InvalidAccountData
                    })
                },
            },
    {
        let acc = match self.tokens.get(k) {
            Some(acc) => acc,
            None => {
                return Err(EscrowError::AccountNotFound);
            },
        };
        if acc.amount != 0 {
            return Err(EscrowError::InvalidAccountData);
        }
        self.tokens.remove(k);
        Ok(())
    }

    /// `get_or_create(owner, asset)` of the associated-account service:
    /// derives the per-owner-per-asset address, allocates an empty account
    /// there if none exists, and refuses an account whose recorded authority
    /// or asset disagrees with the derivation.  Never changes any balance.
    pub fn get_or_create_token(&mut self, owner: &[u8; 32], mint: &[u8; 32]) -> (r: Result<
        [u8; 32],
        EscrowError,
    >)
        requires
            old(self).wf(),
        ensures
            final(self).wf(),
            final(self).program == old(self).program,
            final(self).escrows.entries@ == old(self).escrows.entries@,
            final(self).lamports.entries@ == old(self).lamports.entries@,
            match r {
                Ok(a) => {
                    &&& goc_ok(old(self).tokens.entries@, old(self).program@, owner@, mint@)
                    &&& a@ == owned_token_addr(old(self).program@, owner@, mint@)
                    &&& lookup(final(self).tokens.entries@, a@) is Some
                    &&& lookup(final(self).tokens.entries@, a@).unwrap().authority@ == owner@
                    &&& lookup(final(self).tokens.entries@, a@).unwrap().mint@ == mint@
                    &&& lookup(final(self).tokens.entries@, a@).unwrap().amount as int == tbal(
                        old(self).tokens.entries@,
                        a@,
                    )
                    &&& forall|k2: Seq<u8>|
                        k2 != a@ ==> lookup(final(self).tokens.entries@, k2) == lookup(
                            old(self).tokens.entries@,
                            k2,
                        )
                    &&& forall|k2: Seq<u8>|
                        tbal(final(self).tokens.entries@, k2) == tbal(old(self).tokens.entries@, k2)
                },
                Err(e) => {
                    &&& *final(self) == *old(self)
                    &&& !goc_ok(old(self).tokens.entries@, old(self).program@, owner@, mint@)
                    &&& e == goc_err(old(self).tokens.entries@, old(self).program@, owner@, mint@)
                },
            },
    {
        let seeds = build_token_account_seeds(owner, mint);
        let found = find_program_address(&seeds, &self.program);
        let a = match found {
            Some(ab) => ab.0,
            None => {
                return Err(EscrowError::DerivationFailed);
            },
        };
        match self.tokens.get(&a) {
            None => {
                self.tokens.put(a, TokenAccount { authority: *owner, mint: *mint, amount: 0 });
                Ok(a)
            },
            Some(t) => {
                if addr_eq(&t.authority, owner) && addr_eq(&t.mint, mint) {
                    Ok(a)
                } else {
                    Err(EscrowError::InvalidAccountData)
                }
            },
        }
    }

    /// The base ledger's native-unit transfer: all or nothing, and a missing
    /// account simply holds zero.
    pub fn lamport_transfer(&mut self, from: &[u8; 32], to: &[u8; 32], amount: u64) -> (r: Result<
        (),
        EscrowError,
    >)
        requires
            old(self).wf(),
        ensures
            final(self).wf(),
            final(self).program == old(self).program,
            final(self).escrows.entries@ == old(self).escrows.entries@,
            final(self).tokens.entries@ == old(self).tokens.entries@,
            match r {
                Ok(_) => {
                    &&& lamport_transfer_ok(old(self).lamports.entries@, from@, to@, amount)
                    &&& forall|k: Seq<u8>|
                        lbal(final(self).lamports.entries@, k) == lbal(
                            old(self).lamports.entries@,
                            k,
                        ) + (if k == to@ { amount as int } else { 0 }) - (if k == from@ { amount as int } else { 0 })
                },
                Err(e) => {
                    &&& *final(self) == *old(self)
                    &&& !lamport_transfer_ok(old(self).lamports.entries@, from@, to@, amount)
                    &&& e == (if lbal(old(self).lamports.entries@, from@) < amount {
                        EscrowError::InsufficientFunds
                    } else {
                        EscrowError::ArithmeticOverflow
                    })
                },
            },
    {
        let fb: u64 = match self.lamports.get(from) {
            Some(v) => v,
            None => 0,
        };
        if fb < amount {
            return Err(EscrowError::InsufficientFunds);
        }
        if addr_eq(from, to) {
            return Ok(());
        }
        let tb: u64 = match self.lamports.get(to) {
            Some(v) => v,
            None => 0,
        };
        if tb > u64::MAX - amount {
            return Err(EscrowError::ArithmeticOverflow);
        }
        self.lamports.put(*from, fb - amount);
        self.lamports.put(*to, tb + amount);
        Ok(())
    }
}

} // verus!
