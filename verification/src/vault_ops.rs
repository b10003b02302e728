//! The custody vault: a single-owner deposit/withdraw primitive over the
//! ledger's native unit, using the same derived-address mechanism as the
//! escrow, plus the one-byte operation dispatch in front of it.

use crate::addr::{build_vault_seeds, find_program_address, pda_find, vault_seeds};
use crate::addr_eq;
use crate::ledger::{lbal, Ledger};
use crate::EscrowError;
use vstd::bytes::{spec_u64_from_le_bytes, u64_from_le_bytes};
use vstd::prelude::*;

verus! {

/// What Deposit decides, in order: the supplied vault must be the address
/// derived from the owner, the argument record must be exactly one 64-bit
/// field, and the owner must cover the amount it encodes.
pub open spec fn deposit_spec(
    program: Seq<u8>,
    lamports: Seq<([u8; 32], u64)>,
    owner: Seq<u8>,
    vault: Seq<u8>,
    data: Seq<u8>,
) -> Result<u64, EscrowError> {
    match pda_find(vault_seeds(owner), program) {
        None => Err(EscrowError::DerivationFailed),
        Some(vp) => {
            if vp.0 != vault {
                Err(EscrowError::InvalidDerivation)
            } else if data.len() != 8 {
                Err(EscrowError::InvalidInstructionData)
            } else {
                let amt = spec_u64_from_le_bytes(data);
                if lbal(lamports, owner) < amt {
                    Err(EscrowError::InsufficientFunds)
                } else if owner != vault && lbal(lamports, vault) + amt > u64::MAX {
                    Err(EscrowError::ArithmeticOverflow)
                } else {
                    Ok(amt)
                }
            }
        },
    }
}

/// Everything Deposit promises, success or failure: on success the encoded
/// amount has moved from owner to vault and nothing else changed; on failure
/// the ledger is untouched and the error names the first failing check.
pub open spec fn deposit_post(
    pre: Ledger,
    post: Ledger,
    owner: Seq<u8>,
    vault: Seq<u8>,
    data: Seq<u8>,
    r: Result<(), EscrowError>,
) -> bool {
    &&& post.program == pre.program
    &&& post.tokens.entries@ == pre.tokens.entries@
    &&& post.escrows.entries@ == pre.escrows.entries@
    &&& match r {
        Ok(_) => {
            &&& deposit_spec(pre.program@, pre.lamports.entries@, owner, vault, data) is Ok
            &&& forall|k: Seq<u8>|
                lbal(post.lamports.entries@, k) == lbal(pre.lamports.entries@, k) + (if k == vault {
                    deposit_spec(
                        pre.program@,
                        pre.lamports.entries@,
                        owner,
                        vault,
                        data,
                    ).unwrap() as int
                } else {
                    0
                }) - (if k == owner {
                    deposit_spec(
                        pre.program@,
                        pre.lamports.entries@,
                        owner,
                        vault,
                        data,
                    ).unwrap() as int
                } else {
                    0
                })
        },
        Err(e) => {
            &&& post == pre
            &&& deposit_spec(pre.program@, pre.lamports.entries@, owner, vault, data)
                == Err::<u64, EscrowError>(e)
        },
    }
}

/// What Withdraw decides: the supplied vault must re-derive from the owner,
/// and returning the vault's entire balance must not overflow the owner.
pub open spec fn withdraw_spec(
    program: Seq<u8>,
    lamports: Seq<([u8; 32], u64)>,
    owner: Seq<u8>,
    vault: Seq<u8>,
) -> Result<(), EscrowError> {
    match pda_find(vault_seeds(owner), program) {
        None => Err(EscrowError::DerivationFailed),
        Some(vp) => {
            if vp.0 != vault {
                Err(EscrowError::InvalidDerivation)
            } else if owner != vault && lbal(lamports, owner) + lbal(lamports, vault)
                > u64::MAX {
                Err(EscrowError::ArithmeticOverflow)
            } else {
                Ok(())
            }
        },
    }
}

/// Everything Withdraw promises: on success the vault's entire balance — of
/// which a never-funded vault holds zero — has moved to the owner and the
/// vault is left drained but allocated; on failure the ledger is untouched.
pub open spec fn withdraw_post(
    pre: Ledger,
    post: Ledger,
    owner: Seq<u8>,
    vault: Seq<u8>,
    r: Result<(), EscrowError>,
) -> bool {
    let cust = lbal(pre.lamports.entries@, vault);
    &&& post.program == pre.program
    &&& post.tokens.entries@ == pre.tokens.entries@
    &&& post.escrows.entries@ == pre.escrows.entries@
    &&& match r {
        Ok(_) => {
            &&& withdraw_spec(pre.program@, pre.lamports.entries@, owner, vault) is Ok
            &&& forall|k: Seq<u8>|
                lbal(post.lamports.entries@, k) == lbal(pre.lamports.entries@, k) + (if k == owner {
                    cust
                } else {
                    0
                }) - (if k == vault {
                    cust
                } else {
                    0
                })
            &&& (owner != vault ==> lbal(post.lamports.entries@, vault) == 0)
        },
        Err(e) => {
            &&& post == pre
            &&& withdraw_spec(pre.program@, pre.lamports.entries@, owner, vault)
                == Err::<(), EscrowError>(e)
        },
    }
}

impl Ledger {
    /// Deposit: after re-deriving the vault address and checking the
    /// argument record is exactly one 64-bit little-endian field, moves that
    /// amount of the native unit from the owner to the vault.
    pub fn deposit(&mut self, owner: &[u8; 32], vault: &[u8; 32], data: &[u8]) -> (r: Result<
        (),
        EscrowError,
    >)
        requires
            old(self).wf(),
        ensures
            final(self).wf(),
            deposit_post(*old(self), *final(self), owner@, vault@, data@, r),
    {
        let vseeds = build_vault_seeds(owner);
        let va = match find_program_address(&vseeds, &self.program) {
            Some(p) => p.0,
            None => {
                return Err(EscrowError::DerivationFailed);
            },
        };
        if !addr_eq(&va, vault) {
            return Err(EscrowError::InvalidDerivation);
        }
        if data.len() != 8 {
            return Err(EscrowError::InvalidInstructionData);
        }
        let amt = u64_from_le_bytes(data);
        let r = self.lamport_transfer(owner, vault, amt);
        match r {
            Ok(_) => Ok(()),
            Err(e) => Err(e),
        }
    }

    /// Withdraw: re-derives the vault address and moves the vault's entire
    /// current balance back to the owner.  A vault that was never funded
    /// holds zero, so the transfer moves zero and still succeeds.
    pub fn withdraw(&mut self, owner: &[u8; 32], vault: &[u8; 32]) -> (r: Result<(), EscrowError>)
        requires
            old(self).wf(),
        ensures
            final(self).wf(),
            withdraw_post(*old(self), *final(self), owner@, vault@, r),
    {
        let vseeds = build_vault_seeds(owner);
        let va = match find_program_address(&vseeds, &self.program) {
            Some(p) => p.0,
            None => {
                return Err(EscrowError::DerivationFailed);
            },
        };
        if !addr_eq(&va, vault) {
            return Err(EscrowError::InvalidDerivation);
        }
        let bal: u64 = match self.lamports.get(vault) {
            Some(v) => v,
            None => 0,
        };
        if !addr_eq(owner, vault) {
            let ob: u64 = match self.lamports.get(owner) {
                Some(v) => v,
                None => 0,
            };
            if ob > u64::MAX - bal {
                return Err(EscrowError::ArithmeticOverflow);
            }
        }
        let r = self.lamport_transfer(vault, owner, bal);
        match r {
            Ok(_) => Ok(()),
            Err(e) => Err(e),
        }
    }

    /// The vault program's dispatch: one leading tag byte selects the
    /// operation, the remaining bytes are its argument record.
    pub fn vault_dispatch(&mut self, owner: &[u8; 32], vault: &[u8; 32], data: &[u8]) -> (r: Result<
        (),
        EscrowError,
    >)
        requires
            old(self).wf(),
        ensures
            final(self).wf(),
            (data@.len() == 0 || (data@[0] != 0u8 && data@[0] != 1u8)) ==> r == Err::<
                (),
                EscrowError,
            >(EscrowError::InvalidInstructionData) && *final(self) == *old(self),
            data@.len() > 0 && data@[0] == 0u8 ==> deposit_post(
                *old(self),
                *final(self),
                owner@,
                vault@,
                data@.skip(1),
                r,
            ),
            data@.len() > 0 && data@[0] == 1u8 ==> withdraw_post(
                *old(self),
                *final(self),
                owner@,
                vault@,
                r,
            ),
    {
        if data.len() == 0 {
            return Err(EscrowError::InvalidInstructionData);
        }
        let tag = data[0];
        if tag == 0 {
            let rest = vstd::slice::slice_subrange(data, 1, data.len());
            self.deposit(owner, vault, rest)
        } else if tag == 1 {
            self.withdraw(owner, vault)
        } else {
            Err(EscrowError::InvalidInstructionData)
        }
    }
}

} // verus!
