use blueshift_escrow::addr::{build_vault_seeds, find_program_address};
use blueshift_escrow::ledger::Ledger;
use blueshift_escrow::EscrowError;

const PROGRAM: [u8; 32] = [7; 32];
const OWNER: [u8; 32] = [21; 32];

fn vault_addr(owner: &[u8; 32]) -> [u8; 32] {
    let seeds = build_vault_seeds(owner);
    find_program_address(&seeds, &PROGRAM).unwrap().0
}

#[test]
fn vault_round_trip_restores_owner_balance() {
    let mut l = Ledger::new(PROGRAM);
    l.lamports.put(OWNER, 5000);
    let v = vault_addr(&OWNER);
    l.deposit(&OWNER, &v, &1000u64.to_le_bytes()).unwrap();
    assert_eq!(l.lamports.get(&OWNER), Some(4000));
    assert_eq!(l.lamports.get(&v), Some(1000));
    l.withdraw(&OWNER, &v).unwrap();
    assert_eq!(l.lamports.get(&OWNER), Some(5000));
    assert_eq!(l.lamports.get(&v), Some(0));
}

#[test]
fn withdraw_without_deposit_succeeds_with_zero() {
    let mut l = Ledger::new(PROGRAM);
    l.lamports.put(OWNER, 5000);
    let v = vault_addr(&OWNER);
    l.withdraw(&OWNER, &v).unwrap();
    assert_eq!(l.lamports.get(&OWNER), Some(5000));
}

#[test]
fn deposit_checks_vault_derivation() {
    let mut l = Ledger::new(PROGRAM);
    l.lamports.put(OWNER, 5000);
    let wrong = [8u8; 32];
    assert_eq!(
        l.deposit(&OWNER, &wrong, &1000u64.to_le_bytes()),
        Err(EscrowError::InvalidDerivation)
    );
    assert_eq!(l.lamports.get(&OWNER), Some(5000));
}

#[test]
fn deposit_checks_argument_encoding() {
    let mut l = Ledger::new(PROGRAM);
    l.lamports.put(OWNER, 5000);
    let v = vault_addr(&OWNER);
    assert_eq!(
        l.deposit(&OWNER, &v, &[1, 2, 3]),
        Err(EscrowError::InvalidInstructionData)
    );
    assert_eq!(
        l.deposit(&OWNER, &v, &[0; 9]),
        Err(EscrowError::InvalidInstructionData)
    );
    assert_eq!(l.lamports.get(&OWNER), Some(5000));
}

#[test]
fn deposit_more_than_owner_holds_fails() {
    let mut l = Ledger::new(PROGRAM);
    l.lamports.put(OWNER, 500);
    let v = vault_addr(&OWNER);
    assert_eq!(
        l.deposit(&OWNER, &v, &1000u64.to_le_bytes()),
        Err(EscrowError::InsufficientFunds)
    );
    assert_eq!(l.lamports.get(&OWNER), Some(500));
}

#[test]
fn deposit_overflowing_vault_fails() {
    let mut l = Ledger::new(PROGRAM);
    l.lamports.put(OWNER, 500);
    let v = vault_addr(&OWNER);
    l.lamports.put(v, u64::MAX);
    assert_eq!(
        l.deposit(&OWNER, &v, &1u64.to_le_bytes()),
        Err(EscrowError::ArithmeticOverflow)
    );
    assert_eq!(l.lamports.get(&OWNER), Some(500));
    assert_eq!(l.lamports.get(&v), Some(u64::MAX));
}

#[test]
fn dispatch_selects_operation_by_tag_byte() {
    let mut l = Ledger::new(PROGRAM);
    l.lamports.put(OWNER, 5000);
    let v = vault_addr(&OWNER);
    let mut deposit_ix = vec![0u8];
    deposit_ix.extend_from_slice(&700u64.to_le_bytes());
    l.vault_dispatch(&OWNER, &v, &deposit_ix).unwrap();
    assert_eq!(l.lamports.get(&v), Some(700));
    l.vault_dispatch(&OWNER, &v, &[1]).unwrap();
    assert_eq!(l.lamports.get(&v), Some(0));
    assert_eq!(l.lamports.get(&OWNER), Some(5000));
    assert_eq!(
        l.vault_dispatch(&OWNER, &v, &[]),
        Err(EscrowError::InvalidInstructionData)
    );
    assert_eq!(
        l.vault_dispatch(&OWNER, &v, &[9, 0, 0]),
        Err(EscrowError::InvalidInstructionData)
    );
    let short = [0u8, 1, 2];
    assert_eq!(
        l.vault_dispatch(&OWNER, &v, &short),
        Err(EscrowError::InvalidInstructionData)
    );
}

#[test]
fn derivation_is_deterministic_and_owner_specific() {
    // The derived vault is a real hash of the seeds: stable across calls,
    // different for different owners, and never the owner itself.
    let v1 = vault_addr(&OWNER);
    let v2 = vault_addr(&OWNER);
    assert_eq!(v1, v2);
    let other = [22u8; 32];
    assert_ne!(vault_addr(&other), v1);
    assert_ne!(v1, OWNER);
}
