use blueshift_escrow::addr::{
    build_escrow_seeds, build_token_account_seeds, find_program_address,
};
use blueshift_escrow::ledger::{Ledger, TokenAccount};
use blueshift_escrow::EscrowError;

const PROGRAM: [u8; 32] = [7; 32];
const MAKER: [u8; 32] = [1; 32];
const TAKER: [u8; 32] = [2; 32];
const MINT_A: [u8; 32] = [3; 32];
const MINT_B: [u8; 32] = [4; 32];

fn token_addr(owner: &[u8; 32], mint: &[u8; 32]) -> [u8; 32] {
    let seeds = build_token_account_seeds(owner, mint);
    find_program_address(&seeds, &PROGRAM).unwrap().0
}

fn fund(ledger: &mut Ledger, owner: &[u8; 32], mint: &[u8; 32], amount: u64) -> [u8; 32] {
    let addr = token_addr(owner, mint);
    ledger.tokens.put(
        addr,
        TokenAccount { authority: *owner, mint: *mint, amount },
    );
    addr
}

fn escrow_addr(maker: &[u8; 32], seed: u64) -> [u8; 32] {
    let seeds = build_escrow_seeds(maker, seed);
    find_program_address(&seeds, &PROGRAM).unwrap().0
}

#[test]
fn create_populates_record_and_custody() {
    let mut l = Ledger::new(PROGRAM);
    let mata = fund(&mut l, &MAKER, &MINT_A, 1000);
    let ea = l.create(&MAKER, 42, &MINT_A, &MINT_B, 500, 250).unwrap();
    assert_eq!(ea, escrow_addr(&MAKER, 42));
    let rec = l.escrows.get(&ea).unwrap();
    assert_eq!(rec.seed, 42);
    assert_eq!(rec.maker, MAKER);
    assert_eq!(rec.mint_a, MINT_A);
    assert_eq!(rec.mint_b, MINT_B);
    assert_eq!(rec.receive, 500);
    let ca = token_addr(&ea, &MINT_A);
    let cust = l.tokens.get(&ca).unwrap();
    assert_eq!(cust.amount, 250);
    assert_eq!(cust.authority, ea);
    assert_eq!(cust.mint, MINT_A);
    assert_eq!(l.tokens.get(&mata).unwrap().amount, 750);
}

#[test]
fn create_zero_amounts_rejected() {
    let mut l = Ledger::new(PROGRAM);
    let mata = fund(&mut l, &MAKER, &MINT_A, 1000);
    assert_eq!(
        l.create(&MAKER, 1, &MINT_A, &MINT_B, 0, 250),
        Err(EscrowError::InvalidAmount)
    );
    assert_eq!(
        l.create(&MAKER, 1, &MINT_A, &MINT_B, 500, 0),
        Err(EscrowError::InvalidAmount)
    );
    assert_eq!(l.escrows.entries.len(), 0);
    assert_eq!(l.tokens.entries.len(), 1);
    assert_eq!(l.tokens.get(&mata).unwrap().amount, 1000);
}

#[test]
fn create_without_funded_account_rejected() {
    let mut l = Ledger::new(PROGRAM);
    assert_eq!(
        l.create(&MAKER, 1, &MINT_A, &MINT_B, 500, 250),
        Err(EscrowError::AccountNotFound)
    );
    fund(&mut l, &MAKER, &MINT_A, 100);
    assert_eq!(
        l.create(&MAKER, 1, &MINT_A, &MINT_B, 500, 250),
        Err(EscrowError::InsufficientFunds)
    );
    assert_eq!(l.escrows.entries.len(), 0);
}

#[test]
fn execute_swaps_and_destroys() {
    let mut l = Ledger::new(PROGRAM);
    fund(&mut l, &MAKER, &MINT_A, 1000);
    let tab = fund(&mut l, &TAKER, &MINT_B, 800);
    let ea = l.create(&MAKER, 9, &MINT_A, &MINT_B, 500, 250).unwrap();
    l.execute(&TAKER, &ea, &MAKER, &MINT_A, &MINT_B).unwrap();
    assert_eq!(l.tokens.get(&tab).unwrap().amount, 300);
    let mab = token_addr(&MAKER, &MINT_B);
    assert_eq!(l.tokens.get(&mab).unwrap().amount, 500);
    let ataa = token_addr(&TAKER, &MINT_A);
    assert_eq!(l.tokens.get(&ataa).unwrap().amount, 250);
    let ca = token_addr(&ea, &MINT_A);
    assert!(l.tokens.get(&ca).is_none());
    assert!(l.escrows.get(&ea).is_none());
    assert_eq!(
        l.execute(&TAKER, &ea, &MAKER, &MINT_A, &MINT_B),
        Err(EscrowError::AccountNotFound)
    );
}

#[test]
fn execute_underfunded_counterparty_leaves_offer_open() {
    let mut l = Ledger::new(PROGRAM);
    fund(&mut l, &MAKER, &MINT_A, 1000);
    let tab = fund(&mut l, &TAKER, &MINT_B, 100);
    let ea = l.create(&MAKER, 9, &MINT_A, &MINT_B, 500, 250).unwrap();
    assert_eq!(
        l.execute(&TAKER, &ea, &MAKER, &MINT_A, &MINT_B),
        Err(EscrowError::InsufficientFunds)
    );
    assert!(l.escrows.get(&ea).is_some());
    l.tokens.put(
        tab,
        TokenAccount { authority: TAKER, mint: MINT_B, amount: 800 },
    );
    assert!(l.execute(&TAKER, &ea, &MAKER, &MINT_A, &MINT_B).is_ok());
}

#[test]
fn execute_checks_record_against_accounts() {
    let mut l = Ledger::new(PROGRAM);
    fund(&mut l, &MAKER, &MINT_A, 1000);
    fund(&mut l, &TAKER, &MINT_B, 800);
    let ea = l.create(&MAKER, 9, &MINT_A, &MINT_B, 500, 250).unwrap();
    assert_eq!(
        l.execute(&TAKER, &ea, &TAKER, &MINT_A, &MINT_B),
        Err(EscrowError::InvalidMaker)
    );
    assert_eq!(
        l.execute(&TAKER, &ea, &MAKER, &MINT_B, &MINT_B),
        Err(EscrowError::InvalidMintA)
    );
    assert_eq!(
        l.execute(&TAKER, &ea, &MAKER, &MINT_A, &MINT_A),
        Err(EscrowError::InvalidMintB)
    );
    assert!(l.escrows.get(&ea).is_some());
}

#[test]
fn execute_pays_out_live_custody_balance() {
    // A late out-of-band deposit into the custody account goes to the
    // counterparty, not back to the creator: the payout is the live balance.
    let mut l = Ledger::new(PROGRAM);
    fund(&mut l, &MAKER, &MINT_A, 1000);
    fund(&mut l, &TAKER, &MINT_B, 800);
    let ea = l.create(&MAKER, 9, &MINT_A, &MINT_B, 500, 250).unwrap();
    let ca = token_addr(&ea, &MINT_A);
    l.tokens.put(
        ca,
        TokenAccount { authority: ea, mint: MINT_A, amount: 349 },
    );
    l.execute(&TAKER, &ea, &MAKER, &MINT_A, &MINT_B).unwrap();
    let ataa = token_addr(&TAKER, &MINT_A);
    assert_eq!(l.tokens.get(&ataa).unwrap().amount, 349);
}

#[test]
fn cancel_refunds_creator_and_rejects_others() {
    let mut l = Ledger::new(PROGRAM);
    let mata = fund(&mut l, &MAKER, &MINT_A, 1000);
    let ea = l.create(&MAKER, 5, &MINT_A, &MINT_B, 500, 250).unwrap();
    assert_eq!(
        l.cancel(&TAKER, &ea, &MINT_A),
        Err(EscrowError::InvalidMaker)
    );
    assert_eq!(
        l.cancel(&MAKER, &ea, &MINT_B),
        Err(EscrowError::InvalidMintA)
    );
    assert!(l.escrows.get(&ea).is_some());
    l.cancel(&MAKER, &ea, &MINT_A).unwrap();
    assert_eq!(l.tokens.get(&mata).unwrap().amount, 1000);
    assert!(l.escrows.get(&ea).is_none());
    let ca = token_addr(&ea, &MINT_A);
    assert!(l.tokens.get(&ca).is_none());
}

#[test]
fn cancel_rejects_substituted_record_address() {
    let mut l = Ledger::new(PROGRAM);
    fund(&mut l, &MAKER, &MINT_A, 1000);
    let ea = l.create(&MAKER, 5, &MINT_A, &MINT_B, 500, 250).unwrap();
    // Copy the record to an address it does not derive to.
    let fake = [9u8; 32];
    let rec = l.escrows.get(&ea).unwrap();
    l.escrows.put(fake, rec);
    assert_eq!(
        l.cancel(&MAKER, &fake, &MINT_A),
        Err(EscrowError::InvalidDerivation)
    );
}

#[test]
fn terminal_operations_exclude_each_other() {
    // Execute first: Cancel must then fail, and not silently.
    let mut l = Ledger::new(PROGRAM);
    fund(&mut l, &MAKER, &MINT_A, 1000);
    fund(&mut l, &TAKER, &MINT_B, 800);
    let ea = l.create(&MAKER, 11, &MINT_A, &MINT_B, 500, 250).unwrap();
    l.execute(&TAKER, &ea, &MAKER, &MINT_A, &MINT_B).unwrap();
    assert_eq!(
        l.cancel(&MAKER, &ea, &MINT_A),
        Err(EscrowError::AccountNotFound)
    );
    // Cancel first: Execute must then fail.
    let mut l2 = Ledger::new(PROGRAM);
    fund(&mut l2, &MAKER, &MINT_A, 1000);
    fund(&mut l2, &TAKER, &MINT_B, 800);
    let ea2 = l2.create(&MAKER, 11, &MINT_A, &MINT_B, 500, 250).unwrap();
    l2.cancel(&MAKER, &ea2, &MINT_A).unwrap();
    assert_eq!(
        l2.execute(&TAKER, &ea2, &MAKER, &MINT_A, &MINT_B),
        Err(EscrowError::AccountNotFound)
    );
}

#[test]
fn execute_rejects_account_with_wrong_recorded_asset() {
    let mut l = Ledger::new(PROGRAM);
    fund(&mut l, &MAKER, &MINT_A, 1000);
    let ea = l.create(&MAKER, 9, &MINT_A, &MINT_B, 500, 250).unwrap();
    // An account sits at the taker's derived address for mint B but records
    // a different asset: ownership/state mismatch.
    let tab = token_addr(&TAKER, &MINT_B);
    l.tokens.put(
        tab,
        TokenAccount { authority: TAKER, mint: MINT_A, amount: 800 },
    );
    assert_eq!(
        l.execute(&TAKER, &ea, &MAKER, &MINT_A, &MINT_B),
        Err(EscrowError::InvalidAccountData)
    );
    assert!(l.escrows.get(&ea).is_some());
}

#[test]
fn execute_rejects_overflowing_payout() {
    let mut l = Ledger::new(PROGRAM);
    fund(&mut l, &MAKER, &MINT_A, 1000);
    fund(&mut l, &TAKER, &MINT_B, 800);
    fund(&mut l, &MAKER, &MINT_B, u64::MAX - 10);
    let ea = l.create(&MAKER, 9, &MINT_A, &MINT_B, 500, 250).unwrap();
    assert_eq!(
        l.execute(&TAKER, &ea, &MAKER, &MINT_A, &MINT_B),
        Err(EscrowError::ArithmeticOverflow)
    );
    assert!(l.escrows.get(&ea).is_some());
}

#[test]
fn same_seed_collides_distinct_seeds_coexist() {
    let mut l = Ledger::new(PROGRAM);
    fund(&mut l, &MAKER, &MINT_A, 1000);
    let ea1 = l.create(&MAKER, 1, &MINT_A, &MINT_B, 500, 250).unwrap();
    assert_eq!(
        l.create(&MAKER, 1, &MINT_A, &MINT_B, 600, 100),
        Err(EscrowError::AlreadyExists)
    );
    let ea2 = l.create(&MAKER, 2, &MINT_A, &MINT_B, 600, 100).unwrap();
    assert_ne!(ea1, ea2);
    l.cancel(&MAKER, &ea1, &MINT_A).unwrap();
    assert!(l.escrows.get(&ea2).is_some());
    l.cancel(&MAKER, &ea2, &MINT_A).unwrap();
    assert_eq!(l.tokens.get(&token_addr(&MAKER, &MINT_A)).unwrap().amount, 1000);
}
