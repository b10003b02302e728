use blueshift_escrow::record::{from_bytes, Escrow, RECORD_LEN, RECORD_TAG};

fn sample() -> Escrow {
    Escrow {
        seed: 0x0102030405060708,
        maker: [1; 32],
        mint_a: [3; 32],
        mint_b: [4; 32],
        receive: 500,
        bump: 254,
    }
}

#[test]
fn serialized_layout_is_fixed() {
    let e = sample();
    let b = e.to_bytes();
    assert_eq!(b.len(), RECORD_LEN);
    assert_eq!(b[0], RECORD_TAG);
    assert_eq!(&b[1..9], &[8, 7, 6, 5, 4, 3, 2, 1]);
    assert_eq!(&b[9..41], &[1; 32]);
    assert_eq!(&b[41..73], &[3; 32]);
    assert_eq!(&b[73..105], &[4; 32]);
    assert_eq!(&b[105..113], &500u64.to_le_bytes());
    assert_eq!(b[113], 254);
}

#[test]
fn record_round_trips_through_bytes() {
    let e = sample();
    let b = e.to_bytes();
    let e2 = from_bytes(&b).unwrap();
    assert_eq!(e, e2);
    let b2 = e2.to_bytes();
    assert_eq!(b, b2);
}

#[test]
fn malformed_records_are_rejected() {
    let e = sample();
    let mut b = e.to_bytes();
    assert!(from_bytes(&b[..RECORD_LEN - 1]).is_err());
    b.push(0);
    assert!(from_bytes(&b).is_err());
    let mut wrong_tag = e.to_bytes();
    wrong_tag[0] = 2;
    assert!(from_bytes(&wrong_tag).is_err());
}
