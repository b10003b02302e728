//! The escrow state machine: Create, Execute, Cancel.
//!
//! Every operation re-derives each address it touches and compares it with
//! what the caller or the stored record supplies, checks every precondition
//! before the first mutation, and then either fully applies or leaves the
//! ledger exactly as it was.

use crate::addr::{
    build_escrow_seeds, build_token_account_seeds, create_program_address, escrow_seeds,
    find_program_address, pda_create, pda_find, push_bump, token_account_seeds,
};
use crate::addr_eq;
use crate::ledger::{
    close_ok, goc_err, goc_ok, owned_token_addr, tbal, token_transfer_ok, Ledger, TokenAccount,
};
use crate::record::Escrow;
use crate::store::lookup;
use crate::EscrowError;
use vstd::prelude::*;

verus! {

/// What Create decides, checked in order on the untouched ledger: positive
/// amounts, a fresh escrow address, a fresh custody address, and a funded
/// per-owner account of the creator holding the offered asset.
pub open spec fn create_spec(
    program: Seq<u8>,
    escrows: Seq<([u8; 32], Escrow)>,
    tokens: Seq<([u8; 32], TokenAccount)>,
    maker: Seq<u8>,
    seed: u64,
    mint_a: Seq<u8>,
    mint_b: Seq<u8>,
    receive: u64,
    amount: u64,
) -> Result<(Seq<u8>, u8), EscrowError> {
    if receive == 0 || amount == 0 {
        Err(EscrowError::InvalidAmount)
    } else {
        match pda_find(escrow_seeds(maker, seed), program) {
            None => Err(EscrowError::DerivationFailed),
            Some(ep) => {
                if lookup(escrows, ep.0) is Some {
                    Err(EscrowError::AlreadyExists)
                } else {
                    match pda_find(token_account_seeds(ep.0, mint_a), program) {
                        None => Err(EscrowError::DerivationFailed),
                        Some(cp) => {
                            if lookup(tokens, cp.0) is Some {
                                Err(EscrowError::AlreadyExists)
                            } else {
                                match pda_find(token_account_seeds(maker, mint_a), program) {
                                    None => Err(EscrowError::DerivationFailed),
                                    Some(mp) => {
                                        match lookup(tokens, mp.0) {
                                            None => Err(EscrowError::AccountNotFound),
                                            Some(acc) => {
                                                if acc.authority@ != maker || acc.mint@ != mint_a {
                                                    Err(EscrowError::InvalidAccountData)
                                                } else if acc.amount < amount {
                                                    Err(EscrowError::InsufficientFunds)
                                                } else {
                                                    Ok((ep.0, ep.1))
                                                }
                                            },
                                        }
                                    },
                                }
                            }
                        },
                    }
                }
            },
        }
    }
}

/// What a successful Create leaves behind: the populated record at its
/// derived address, the custody account holding exactly the deposit under
/// the record's own authority, the deposit debited from the creator's
/// account, and nothing else moved.
pub open spec fn create_effects(
    pre: Ledger,
    post: Ledger,
    maker: Seq<u8>,
    seed: u64,
    mint_a: Seq<u8>,
    mint_b: Seq<u8>,
    receive: u64,
    amount: u64,
) -> bool {
    let ep = pda_find(escrow_seeds(maker, seed), pre.program@).unwrap();
    let ea = ep.0;
    let ca = owned_token_addr(pre.program@, ea, mint_a);
    let mata = owned_token_addr(pre.program@, maker, mint_a);
    &&& post.program == pre.program
    &&& lookup(post.escrows.entries@, ea) is Some
    &&& lookup(post.escrows.entries@, ea).unwrap().seed == seed
    &&& lookup(post.escrows.entries@, ea).unwrap().maker@ == maker
    &&& lookup(post.escrows.entries@, ea).unwrap().mint_a@ == mint_a
    &&& lookup(post.escrows.entries@, ea).unwrap().mint_b@ == mint_b
    &&& lookup(post.escrows.entries@, ea).unwrap().receive == receive
    &&& lookup(post.escrows.entries@, ea).unwrap().bump == ep.1
    &&& forall|k: Seq<u8>|
        k != ea ==> lookup(post.escrows.entries@, k) == lookup(pre.escrows.entries@, k)
    &&& lookup(post.tokens.entries@, ca) is Some
    &&& lookup(post.tokens.entries@, ca).unwrap().authority@ == ea
    &&& lookup(post.tokens.entries@, ca).unwrap().mint@ == mint_a
    &&& lookup(post.tokens.entries@, ca).unwrap().amount == amount
    &&& forall|k: Seq<u8>|
        tbal(post.tokens.entries@, k) == tbal(pre.tokens.entries@, k) + (if k == ca {
            amount as int
        } else {
            0
        }) - (if k == mata {
            amount as int
        } else {
            0
        })
    &&& post.lamports.entries@ == pre.lamports.entries@
}

impl Ledger {
    /// Create: open a swap offer.  Derives the record and custody addresses,
    /// refuses zero amounts and occupied addresses, then allocates the
    /// record and the custody account and deposits the offered asset —
    /// all or, on any failure, nothing.
    #[verifier::rlimit(100)]
    pub fn create(
        &mut self,
        maker: &[u8; 32],
        seed: u64,
        mint_a: &[u8; 32],
        mint_b: &[u8; 32],
        receive: u64,
        amount: u64,
    ) -> (r: Result<[u8; 32], EscrowError>)
        requires
            old(self).wf(),
        ensures
            final(self).wf(),
            match r {
                Ok(a) => {
                    &&& create_spec(
                        old(self).program@,
                        old(self).escrows.entries@,
                        old(self).tokens.entries@,
                        maker@,
                        seed,
                        mint_a@,
                        mint_b@,
                        receive,
                        amount,
                    ) == Ok::<_, EscrowError>((a@, lookup(final(self).escrows.entries@, a@).unwrap().bump))
                    &&& create_effects(
                        *old(self),
                        *final(self),
                        maker@,
                        seed,
                        mint_a@,
                        mint_b@,
                        receive,
                        amount,
                    )
                },
                Err(e) => {
                    &&& *final(self) == *old(self)
                    &&& create_spec(
                        old(self).program@,
                        old(self).escrows.entries@,
                        old(self).tokens.entries@,
                        maker@,
                        seed,
                        mint_a@,
                        mint_b@,
                        receive,
                        amount,
                    ) == Err::<(Seq<u8>, u8), EscrowError>(e)
                },
            },
    {
        if receive == 0 || amount == 0 {
            return Err(EscrowError::InvalidAmount);
        }
        let eseeds = build_escrow_seeds(maker, seed);
        let (eaddr, bump) = match find_program_address(&eseeds, &self.program) {
            Some(p) => p,
            None => {
                return Err(EscrowError::DerivationFailed);
            },
        };
        if self.escrows.contains(&eaddr) {
            return Err(EscrowError::AlreadyExists);
        }
        let cseeds = build_token_account_seeds(&eaddr, mint_a);
        let caddr = match find_program_address(&cseeds, &self.program) {
            Some(p) => p.0,
            None => {
                return Err(EscrowError::DerivationFailed);
            },
        };
        if self.tokens.contains(&caddr) {
            return Err(EscrowError::AlreadyExists);
        }
        let mseeds = build_token_account_seeds(maker, mint_a);
        let mata = match find_program_address(&mseeds, &self.program) {
            Some(p) => p.0,
            None => {
                return Err(EscrowError::DerivationFailed);
            },
        };
        let acc = match self.tokens.get(&mata) {
            Some(acc) => acc,
            None => {
                return Err(EscrowError::AccountNotFound);
            },
        };
        if !addr_eq(&acc.authority, maker) || !addr_eq(&acc.mint, mint_a) {
            return Err(EscrowError::InvalidAccountData);
        }
        if acc.amount < amount {
            return Err(EscrowError::InsufficientFunds);
        }
        self.escrows.put(
            eaddr,
            Escrow {
                seed,
                maker: *maker,
                mint_a: *mint_a,
                mint_b: *mint_b,
                receive,
                bump,
            },
        );
        self.tokens.put(caddr, TokenAccount { authority: eaddr, mint: *mint_a, amount: 0 });
        let ghost mid = *self;
        let tr = self.token_transfer(&mata, &caddr, amount);
        proof {
            assert(mata@ != caddr@);
            assert(tbal(mid.tokens.entries@, mata@) == acc.amount as int);
            assert(token_transfer_ok(mid.tokens.entries@, mata@, caddr@, amount));
        }
        match tr {
            Ok(_) => {
                proof {
                    assert forall|k: Seq<u8>|
                        tbal(self.tokens.entries@, k) == tbal(old(self).tokens.entries@, k) + (
                        if k == caddr@ {
                            amount as int
                        } else {
                            0
                        }) - (if k == mata@ {
                            amount as int
                        } else {
                            0
                        }) by {
                        if k == caddr@ {
                            assert(tbal(mid.tokens.entries@, k) == 0);
                        } else {
                            assert(lookup(mid.tokens.entries@, k) == lookup(
                                old(self).tokens.entries@,
                                k,
                            ));
                        }
                    }
                    assert(tbal(self.tokens.entries@, caddr@) == amount as int);
                    assert(lookup(self.tokens.entries@, caddr@).unwrap().amount == amount);
                }
                Ok(eaddr)
            },
            Err(e) => Err(e),
        }
    }
}

/// What Cancel decides, in order: the record must exist, its stored creator
/// and offered asset must match the supplied ones, the record must re-derive
/// to the supplied address under its cached proof byte, and the custody
/// account must be the one derived from the record with the record as its
/// authority.
pub open spec fn cancel_spec(
    program: Seq<u8>,
    escrows: Seq<([u8; 32], Escrow)>,
    tokens: Seq<([u8; 32], TokenAccount)>,
    maker: Seq<u8>,
    eaddr: Seq<u8>,
    mint_a: Seq<u8>,
) -> Result<(), EscrowError> {
    match lookup(escrows, eaddr) {
        None => Err(EscrowError::AccountNotFound),
        Some(rec) => {
            if rec.maker@ != maker {
                Err(EscrowError::InvalidMaker)
            } else if rec.mint_a@ != mint_a {
                Err(EscrowError::InvalidMintA)
            } else if pda_create(escrow_seeds(maker, rec.seed).push(seq![rec.bump]), program)
                != Some(eaddr) {
                Err(EscrowError::InvalidDerivation)
            } else {
                match pda_find(token_account_seeds(eaddr, mint_a), program) {
                    None => Err(EscrowError::DerivationFailed),
                    Some(cp) => {
                        match lookup(tokens, cp.0) {
                            None => Err(EscrowError::AccountNotFound),
                            Some(cust) => {
                                if cust.authority@ != eaddr || cust.mint@ != mint_a {
                                    Err(EscrowError::InvalidAccountData)
                                } else if !goc_ok(tokens, program, maker, mint_a) {
                                    Err(goc_err(tokens, program, maker, mint_a))
                                } else if owned_token_addr(program, maker, mint_a) == cp.0 {
                                    Err(EscrowError::InvalidAccountData)
                                } else if tbal(tokens, owned_token_addr(program, maker, mint_a))
                                    + cust.amount > u64::MAX {
                                    Err(EscrowError::ArithmeticOverflow)
                                } else {
                                    Ok(())
                                }
                            },
                        }
                    },
                }
            }
        },
    }
}

/// What a successful Cancel leaves behind: record and custody account gone,
/// and the custody account's entire balance moved back to the creator's
/// per-owner account, nothing else touched.
pub open spec fn cancel_effects(
    pre: Ledger,
    post: Ledger,
    maker: Seq<u8>,
    eaddr: Seq<u8>,
    mint_a: Seq<u8>,
) -> bool {
    let ca = owned_token_addr(pre.program@, eaddr, mint_a);
    let mata = owned_token_addr(pre.program@, maker, mint_a);
    let cust = tbal(pre.tokens.entries@, ca);
    &&& post.program == pre.program
    &&& lookup(post.escrows.entries@, eaddr) is None
    &&& forall|k: Seq<u8>|
        k != eaddr ==> lookup(post.escrows.entries@, k) == lookup(pre.escrows.entries@, k)
    &&& lookup(post.tokens.entries@, ca) is None
    &&& lookup(post.tokens.entries@, mata) is Some
    &&& lookup(post.tokens.entries@, mata).unwrap().authority@ == maker
    &&& lookup(post.tokens.entries@, mata).unwrap().mint@ == mint_a
    &&& forall|k: Seq<u8>|
        tbal(post.tokens.entries@, k) == tbal(pre.tokens.entries@, k) + (if k == mata {
            cust
        } else {
            0
        }) - (if k == ca {
            cust
        } else {
            0
        })
    &&& post.lamports.entries@ == pre.lamports.entries@
}

impl Ledger {
    /// Cancel: the creator reclaims the whole current custody balance and
    /// the record is destroyed.  Any caller other than the stored creator is
    /// rejected with the ledger untouched.
    #[verifier::rlimit(100)]
    pub fn cancel(&mut self, maker: &[u8; 32], escrow_addr: &[u8; 32], mint_a: &[u8; 32]) -> (r:
        Result<(), EscrowError>)
        requires
            old(self).wf(),
        ensures
            final(self).wf(),
            match r {
                Ok(_) => {
                    &&& cancel_spec(
                        old(self).program@,
                        old(self).escrows.entries@,
                        old(self).tokens.entries@,
                        maker@,
                        escrow_addr@,
                        mint_a@,
                    ) == Ok::<(), EscrowError>(())
                    &&& cancel_effects(*old(self), *final(self), maker@, escrow_addr@, mint_a@)
                },
                Err(e) => {
                    &&& *final(self) == *old(self)
                    &&& cancel_spec(
                        old(self).program@,
                        old(self).escrows.entries@,
                        old(self).tokens.entries@,
                        maker@,
                        escrow_addr@,
                        mint_a@,
                    ) == Err::<(), EscrowError>(e)
                },
            },
    {
        let rec = match self.escrows.get(escrow_addr) {
            Some(rec) => rec,
            None => {
                return Err(EscrowError::AccountNotFound);
            },
        };
        if !addr_eq(&rec.maker, maker) {
            return Err(EscrowError::InvalidMaker);
        }
        if !addr_eq(&rec.mint_a, mint_a) {
            return Err(EscrowError::InvalidMintA);
        }
        let mut eseeds = build_escrow_seeds(maker, rec.seed);
        push_bump(&mut eseeds, rec.bump);
        let derived = create_program_address(&eseeds, &self.program);
        let der_ok = match &derived {
            Some(a) => addr_eq(a, escrow_addr),
            None => false,
        };
        if !der_ok {
            return Err(EscrowError::InvalidDerivation);
        }
        let cseeds = build_token_account_seeds(escrow_addr, mint_a);
        let caddr = match find_program_address(&cseeds, &self.program) {
            Some(p) => p.0,
            None => {
                return Err(EscrowError::DerivationFailed);
            },
        };
        let cust = match self.tokens.get(&caddr) {
            Some(c) => c,
            None => {
                return Err(EscrowError::AccountNotFound);
            },
        };
        if !addr_eq(&cust.authority, escrow_addr) || !addr_eq(&cust.mint, mint_a) {
            return Err(EscrowError::InvalidAccountData);
        }
        let mseeds = build_token_account_seeds(maker, mint_a);
        let mata = match find_program_address(&mseeds, &self.program) {
            Some(p) => p.0,
            None => {
                return Err(EscrowError::DerivationFailed);
            },
        };
        match self.tokens.get(&mata) {
            Some(t) => {
                if !addr_eq(&t.authority, maker) || !addr_eq(&t.mint, mint_a) {
                    return Err(EscrowError::InvalidAccountData);
                }
            },
            None => {},
        }
        if addr_eq(&mata, &caddr) {
            return Err(EscrowError::InvalidAccountData);
        }
        let mb: u64 = match self.tokens.get(&mata) {
            Some(t) => t.amount,
            None => 0,
        };
        if mb > u64::MAX - cust.amount {
            return Err(EscrowError::ArithmeticOverflow);
        }
        let g = self.get_or_create_token(maker, mint_a);
        match g {
            Ok(_) => {},
            Err(e) => {
                return Err(e);
            },
        }
        let ghost s1 = *self;
        let t = self.token_transfer(&caddr, &mata, cust.amount);
        proof {
            assert(lookup(s1.tokens.entries@, caddr@) == lookup(
                old(self).tokens.entries@,
                caddr@,
            ));
            assert(tbal(s1.tokens.entries@, mata@) == mb as int);
        }
        match t {
            Ok(_) => {},
            Err(e) => {
                return Err(e);
            },
        }
        let ghost s2 = *self;
        let c = self.close_token(&caddr);
        proof {
            assert(tbal(s2.tokens.entries@, caddr@) == 0);
            assert(close_ok(s2.tokens.entries@, caddr@));
        }
        match c {
            Ok(_) => {},
            Err(e) => {
                return Err(e);
            },
        }
        self.escrows.remove(escrow_addr);
        proof {
            assert forall|k: Seq<u8>|
                tbal(self.tokens.entries@, k) == tbal(old(self).tokens.entries@, k) + (if k
                    == mata@ {
                    cust.amount as int
                } else {
                    0
                }) - (if k == caddr@ {
                    cust.amount as int
                } else {
                    0
                }) by {
                assert(tbal(s1.tokens.entries@, k) == tbal(old(self).tokens.entries@, k));
                assert(tbal(self.tokens.entries@, k) == tbal(s2.tokens.entries@, k));
            }
            assert(lookup(self.tokens.entries@, mata@) is Some);
        }
        Ok(())
    }
}

/// The balance change transfer 1 of Execute (counterparty pays the creator
/// the requested amount) causes at address `k`.
pub open spec fn pay_delta(k: Seq<u8>, mab: Seq<u8>, tab: Seq<u8>, rcv: int) -> int {
    (if k == mab {
        rcv
    } else {
        0
    }) - (if k == tab {
        rcv
    } else {
        0
    })
}

/// What Execute decides, in order, all on the untouched ledger: the record
/// exists and matches the supplied creator and assets, re-derives to the
/// supplied address, the custody account is the one derived from the record,
/// the counterparty's account of the requested asset exists and covers the
/// requested amount, the two payout accounts can be had, and the transfers
/// neither overflow nor leave the custody account undrained.
pub open spec fn execute_spec(
    program: Seq<u8>,
    escrows: Seq<([u8; 32], Escrow)>,
    tokens: Seq<([u8; 32], TokenAccount)>,
    taker: Seq<u8>,
    eaddr: Seq<u8>,
    maker: Seq<u8>,
    mint_a: Seq<u8>,
    mint_b: Seq<u8>,
) -> Result<(), EscrowError> {
    match lookup(escrows, eaddr) {
        None => Err(EscrowError::AccountNotFound),
        Some(rec) => {
            if rec.maker@ != maker {
                Err(EscrowError::InvalidMaker)
            } else if rec.mint_a@ != mint_a {
                Err(EscrowError::InvalidMintA)
            } else if rec.mint_b@ != mint_b {
                Err(EscrowError::InvalidMintB)
            } else if pda_create(escrow_seeds(maker, rec.seed).push(seq![rec.bump]), program)
                != Some(eaddr) {
                Err(EscrowError::InvalidDerivation)
            } else {
                match pda_find(token_account_seeds(eaddr, mint_a), program) {
                    None => Err(EscrowError::DerivationFailed),
                    Some(cp) => {
                        match lookup(tokens, cp.0) {
                            None => Err(EscrowError::AccountNotFound),
                            Some(cust) => {
                                if cust.authority@ != eaddr || cust.mint@ != mint_a {
                                    Err(EscrowError::InvalidAccountData)
                                } else {
                                    execute_spec_funding(
                                        program,
                                        tokens,
                                        taker,
                                        maker,
                                        mint_a,
                                        mint_b,
                                        cp.0,
                                        cust.amount,
                                        rec.receive,
                                    )
                                }
                            },
                        }
                    },
                }
            }
        },
    }
}

/// The funding half of Execute's decision, after the record and custody
/// checks have passed.
pub open spec fn execute_spec_funding(
    program: Seq<u8>,
    tokens: Seq<([u8; 32], TokenAccount)>,
    taker: Seq<u8>,
    maker: Seq<u8>,
    mint_a: Seq<u8>,
    mint_b: Seq<u8>,
    ca: Seq<u8>,
    cust_amount: u64,
    rcv: u64,
) -> Result<(), EscrowError> {
    match pda_find(token_account_seeds(taker, mint_b), program) {
        None => Err(EscrowError::DerivationFailed),
        Some(tp) => {
            match lookup(tokens, tp.0) {
                None => Err(EscrowError::AccountNotFound),
                Some(tacc) => {
                    if tacc.authority@ != taker || tacc.mint@ != mint_b {
                        Err(EscrowError::InvalidAccountData)
                    } else if tacc.amount < rcv {
                        Err(EscrowError::InsufficientFunds)
                    } else if !goc_ok(tokens, program, taker, mint_a) {
                        Err(goc_err(tokens, program, taker, mint_a))
                    } else if !goc_ok(tokens, program, maker, mint_b) {
                        Err(goc_err(tokens, program, maker, mint_b))
                    } else {
                        let tab = tp.0;
                        let ataa = owned_token_addr(program, taker, mint_a);
                        let mab = owned_token_addr(program, maker, mint_b);
                        if mab == ataa && !(taker == maker && mint_a == mint_b) {
                            Err(EscrowError::InvalidAccountData)
                        } else if tab != mab && tbal(tokens, mab) + rcv > u64::MAX {
                            Err(EscrowError::ArithmeticOverflow)
                        } else if pay_delta(ca, mab, tab, rcv as int) != 0 {
                            Err(EscrowError::InvalidAccountData)
                        } else if ca == ataa {
                            Err(EscrowError::InvalidAccountData)
                        } else if tbal(tokens, ataa) + pay_delta(ataa, mab, tab, rcv as int)
                            + cust_amount > u64::MAX {
                            Err(EscrowError::ArithmeticOverflow)
                        } else {
                            Ok(())
                        }
                    }
                },
            }
        },
    }
}

/// What a successful Execute leaves behind: the counterparty has paid the
/// creator exactly the requested amount of the requested asset, the custody
/// account's entire balance has gone to the counterparty, and both the
/// custody account and the record are destroyed.
pub open spec fn execute_effects(
    pre: Ledger,
    post: Ledger,
    taker: Seq<u8>,
    eaddr: Seq<u8>,
    maker: Seq<u8>,
    mint_a: Seq<u8>,
    mint_b: Seq<u8>,
) -> bool {
    let rec = lookup(pre.escrows.entries@, eaddr).unwrap();
    let ca = owned_token_addr(pre.program@, eaddr, mint_a);
    let tab = owned_token_addr(pre.program@, taker, mint_b);
    let ataa = owned_token_addr(pre.program@, taker, mint_a);
    let mab = owned_token_addr(pre.program@, maker, mint_b);
    let cust = tbal(pre.tokens.entries@, ca);
    let rcv = rec.receive as int;
    &&& post.program == pre.program
    &&& lookup(post.escrows.entries@, eaddr) is None
    &&& forall|k: Seq<u8>|
        k != eaddr ==> lookup(post.escrows.entries@, k) == lookup(pre.escrows.entries@, k)
    &&& lookup(post.tokens.entries@, ca) is None
    &&& lookup(post.tokens.entries@, ataa) is Some
    &&& lookup(post.tokens.entries@, ataa).unwrap().authority@ == taker
    &&& lookup(post.tokens.entries@, ataa).unwrap().mint@ == mint_a
    &&& (mab != ca ==> lookup(post.tokens.entries@, mab) is Some
        && lookup(post.tokens.entries@, mab).unwrap().authority@ == maker
        && lookup(post.tokens.entries@, mab).unwrap().mint@ == mint_b)
    &&& forall|k: Seq<u8>|
        tbal(post.tokens.entries@, k) == tbal(pre.tokens.entries@, k) + pay_delta(
            k,
            mab,
            tab,
            rcv,
        ) + (if k == ataa {
            cust
        } else {
            0
        }) - (if k == ca {
            cust
        } else {
            0
        })
    &&& post.lamports.entries@ == pre.lamports.entries@
}

impl Ledger {
    /// Execute ("take"): a counterparty fulfills the offer.  It pays the
    /// creator exactly the requested amount of the requested asset, receives
    /// the custody account's entire live balance of the offered asset, and
    /// the custody account and the record are destroyed — or nothing at all
    /// happens.
    #[verifier::rlimit(100)]
    pub fn execute(
        &mut self,
        taker: &[u8; 32],
        escrow_addr: &[u8; 32],
        maker: &[u8; 32],
        mint_a: &[u8; 32],
        mint_b: &[u8; 32],
    ) -> (r: Result<(), EscrowError>)
        requires
            old(self).wf(),
        ensures
            final(self).wf(),
            match r {
                Ok(_) => {
                    &&& execute_spec(
                        old(self).program@,
                        old(self).escrows.entries@,
                        old(self).tokens.entries@,
                        taker@,
                        escrow_addr@,
                        maker@,
                        mint_a@,
                        mint_b@,
                    ) == Ok::<(), EscrowError>(())
                    &&& execute_effects(
                        *old(self),
                        *final(self),
                        taker@,
                        escrow_addr@,
                        maker@,
                        mint_a@,
                        mint_b@,
                    )
                },
                Err(e) => {
                    &&& *final(self) == *old(self)
                    &&& execute_spec(
                        old(self).program@,
                        old(self).escrows.entries@,
                        old(self).tokens.entries@,
                        taker@,
                        escrow_addr@,
                        maker@,
                        mint_a@,
                        mint_b@,
                    ) == Err::<(), EscrowError>(e)
                },
            },
    {
        let rec = match self.escrows.get(escrow_addr) {
            Some(rec) => rec,
            None => {
                return Err(EscrowError::AccountNotFound);
            },
        };
        if !addr_eq(&rec.maker, maker) {
            return Err(EscrowError::InvalidMaker);
        }
        if !addr_eq(&rec.mint_a, mint_a) {
            return Err(EscrowError::InvalidMintA);
        }
        if !addr_eq(&rec.mint_b, mint_b) {
            return Err(EscrowError::InvalidMintB);
        }
        let mut eseeds = build_escrow_seeds(maker, rec.seed);
        push_bump(&mut eseeds, rec.bump);
        let derived = create_program_address(&eseeds, &self.program);
        let der_ok = match &derived {
            Some(a) => addr_eq(a, escrow_addr),
            None => false,
        };
        if !der_ok {
            return Err(EscrowError::InvalidDerivation);
        }
        let cseeds = build_token_account_seeds(escrow_addr, mint_a);
        let caddr = match find_program_address(&cseeds, &self.program) {
            Some(p) => p.0,
            None => {
                return Err(EscrowError::DerivationFailed);
            },
        };
        let cust = match self.tokens.get(&caddr) {
            Some(c) => c,
            None => {
                return Err(EscrowError::AccountNotFound);
            },
        };
        if !addr_eq(&cust.authority, escrow_addr) || !addr_eq(&cust.mint, mint_a) {
            return Err(EscrowError::InvalidAccountData);
        }
        let tseeds = build_token_account_seeds(taker, mint_b);
        let tab = match find_program_address(&tseeds, &self.program) {
            Some(p) => p.0,
            None => {
                return Err(EscrowError::DerivationFailed);
            },
        };
        let tacc = match self.tokens.get(&tab) {
            Some(t) => t,
            None => {
                return Err(EscrowError::AccountNotFound);
            },
        };
        if !addr_eq(&tacc.authority, taker) || !addr_eq(&tacc.mint, mint_b) {
            return Err(EscrowError::InvalidAccountData);
        }
        if tacc.amount < rec.receive {
            return Err(EscrowError::InsufficientFunds);
        }
        let aseeds = build_token_account_seeds(taker, mint_a);
        let ataa = match find_program_address(&aseeds, &self.program) {
            Some(p) => p.0,
            None => {
                return Err(EscrowError::DerivationFailed);
            },
        };
        match self.tokens.get(&ataa) {
            Some(t) => {
                if !addr_eq(&t.authority, taker) || !addr_eq(&t.mint, mint_a) {
                    return Err(EscrowError::InvalidAccountData);
                }
            },
            None => {},
        }
        let bseeds = build_token_account_seeds(maker, mint_b);
        let mab = match find_program_address(&bseeds, &self.program) {
            Some(p) => p.0,
            None => {
                return Err(EscrowError::DerivationFailed);
            },
        };
        match self.tokens.get(&mab) {
            Some(t) => {
                if !addr_eq(&t.authority, maker) || !addr_eq(&t.mint, mint_b) {
                    return Err(EscrowError::InvalidAccountData);
                }
            },
            None => {},
        }
        if addr_eq(&mab, &ataa) && !(addr_eq(taker, maker) && addr_eq(mint_a, mint_b)) {
            return Err(EscrowError::InvalidAccountData);
        }
        let mb_bal: u64 = match self.tokens.get(&mab) {
            Some(t) => t.amount,
            None => 0,
        };
        if !addr_eq(&tab, &mab) && mb_bal > u64::MAX - rec.receive {
            return Err(EscrowError::ArithmeticOverflow);
        }
        let cpos = addr_eq(&caddr, &mab);
        let cneg = addr_eq(&caddr, &tab);
        if rec.receive != 0 && cpos != cneg {
            return Err(EscrowError::InvalidAccountData);
        }
        if addr_eq(&caddr, &ataa) {
            return Err(EscrowError::InvalidAccountData);
        }
        let aa_bal: u64 = match self.tokens.get(&ataa) {
            Some(t) => t.amount,
            None => 0,
        };
        let mut aa128: u128 = aa_bal as u128;
        if addr_eq(&ataa, &mab) {
            aa128 = aa128 + rec.receive as u128;
        }
        if addr_eq(&ataa, &tab) {
            proof {
                assert(aa_bal == tacc.amount);
            }
            aa128 = aa128 - rec.receive as u128;
        }
        proof {
            assert(aa128 == tbal(old(self).tokens.entries@, ataa@) + pay_delta(
                ataa@,
                mab@,
                tab@,
                rec.receive as int,
            ));
        }
        if aa128 + cust.amount as u128 > u64::MAX as u128 {
            return Err(EscrowError::ArithmeticOverflow);
        }
        let g1 = self.get_or_create_token(taker, mint_a);
        match g1 {
            Ok(_) => {},
            Err(e) => {
                return Err(e);
            },
        }
        let ghost s1 = *self;
        let g2 = self.get_or_create_token(maker, mint_b);
        proof {
            if mab@ == ataa@ {
                assert(taker@ == maker@ && mint_a@ == mint_b@);
                assert(goc_ok(s1.tokens.entries@, s1.program@, maker@, mint_b@));
            } else {
                assert(lookup(s1.tokens.entries@, mab@) == lookup(
                    old(self).tokens.entries@,
                    mab@,
                ));
                assert(goc_ok(s1.tokens.entries@, s1.program@, maker@, mint_b@));
            }
        }
        match g2 {
            Ok(_) => {},
            Err(e) => {
                return Err(e);
            },
        }
        let ghost s2 = *self;
        proof {
            assert(tbal(s2.tokens.entries@, tab@) == tacc.amount as int);
            assert(lookup(s2.tokens.entries@, tab@) is Some);
            assert(lookup(s2.tokens.entries@, mab@) is Some);
            assert(tbal(s2.tokens.entries@, mab@) == mb_bal as int);
            assert(token_transfer_ok(s2.tokens.entries@, tab@, mab@, rec.receive));
        }
        let t1 = self.token_transfer(&tab, &mab, rec.receive);
        match t1 {
            Ok(_) => {},
            Err(e) => {
                return Err(e);
            },
        }
        let ghost s3 = *self;
        proof {
            assert(lookup(s2.tokens.entries@, caddr@) is Some);
            assert(tbal(s2.tokens.entries@, caddr@) == cust.amount as int);
            assert(tbal(s3.tokens.entries@, caddr@) == cust.amount as int + pay_delta(
                caddr@,
                mab@,
                tab@,
                rec.receive as int,
            ));
            assert(pay_delta(caddr@, mab@, tab@, rec.receive as int) == 0);
            assert(lookup(s3.tokens.entries@, caddr@) is Some);
            assert(lookup(s3.tokens.entries@, ataa@) is Some);
            assert(tbal(s3.tokens.entries@, ataa@) + cust.amount <= u64::MAX);
            assert(token_transfer_ok(s3.tokens.entries@, caddr@, ataa@, cust.amount));
        }
        let t2 = self.token_transfer(&caddr, &ataa, cust.amount);
        match t2 {
            Ok(_) => {},
            Err(e) => {
                return Err(e);
            },
        }
        let ghost s4 = *self;
        proof {
            assert(tbal(s4.tokens.entries@, caddr@) == 0);
            assert(close_ok(s4.tokens.entries@, caddr@));
        }
        let c = self.close_token(&caddr);
        match c {
            Ok(_) => {},
            Err(e) => {
                return Err(e);
            },
        }
        self.escrows.remove(escrow_addr);
        proof {
            assert forall|k: Seq<u8>|
                tbal(self.tokens.entries@, k) == tbal(old(self).tokens.entries@, k) + pay_delta(
                    k,
                    mab@,
                    tab@,
                    rec.receive as int,
                ) + (if k == ataa@ {
                    cust.amount as int
                } else {
                    0
                }) - (if k == caddr@ {
                    cust.amount as int
                } else {
                    0
                }) by {
                assert(tbal(s2.tokens.entries@, k) == tbal(old(self).tokens.entries@, k));
                assert(tbal(s3.tokens.entries@, k) == tbal(s2.tokens.entries@, k) + pay_delta(
                    k,
                    mab@,
                    tab@,
                    rec.receive as int,
                ));
                assert(tbal(self.tokens.entries@, k) == tbal(s4.tokens.entries@, k));
            }
            assert(lookup(self.tokens.entries@, ataa@) is Some);
            if mab@ != caddr@ {
                assert(lookup(self.tokens.entries@, mab@) is Some);
            }
        }
        Ok(())
    }
}

} // verus!
