//! An on-ledger atomic swap and custody protocol.
//!
//! A creator deposits an asset into a custody account controlled only by a
//! derived address; a counterparty may execute the swap by supplying the
//! requested asset, or the creator may cancel and reclaim the deposit.
//! The two terminal operations are mutually exclusive: whichever runs first
//! destroys the escrow record, and the other then fails to find it.

use vstd::prelude::*;

pub mod addr;
pub mod escrow_ops;
pub mod laws;
pub mod ledger;
pub mod record;
pub mod store;
pub mod vault_ops;

verus! {

/// One error code per failure cause, so a caller can tell bad input from
/// a missing signature from a stale or substituted account reference.
#[derive(Clone, Copy, PartialEq, Eq, Structural, Debug)]
pub enum EscrowError {
    /// A required amount was zero.
    InvalidAmount,
    /// No bump byte yields a valid derived address for the given seeds.
    DerivationFailed,
    /// A record or account already exists at the derived address.
    AlreadyExists,
    /// A record or account was not found at the given address.
    AccountNotFound,
    /// A supplied account does not re-derive to the protocol's own address.
    InvalidDerivation,
    /// The stored creator disagrees with the supplied identity.
    InvalidMaker,
    /// The stored offered asset disagrees with the supplied one.
    InvalidMintA,
    /// The stored requested asset disagrees with the supplied one.
    InvalidMintB,
    /// An account's recorded authority or asset disagrees with its derivation.
    InvalidAccountData,
    /// A transfer asks for more than the source balance holds.
    InsufficientFunds,
    /// A transfer would push the destination balance past the 64-bit limit.
    ArithmeticOverflow,
    /// The operation byte or its argument record is malformed.
    InvalidInstructionData,
}

/// Compares two 32-byte addresses.
pub fn addr_eq(a: &[u8; 32], b: &[u8; 32]) -> (r: bool)
    ensures
        r <==> a@ == b@,
{
    let mut i: usize = 0;
    while i < 32
        invariant
            i <= 32,
            forall|j: int| 0 <= j < i ==> a@[j] == b@[j],
        decreases 32 - i,
    {
        if a[i] != b[i] {
            assert(a@ != b@);
            return false;
        }
        i += 1;
    }
    assert(a@ =~= b@);
    true
}

} // verus!
