use anchor_escrow::authority::{escrow_address, holding_address};
use anchor_escrow::state::{deserialize_escrow, serialize_escrow};
use anchor_escrow::{make, refund, take, AccountId, Escrow, EscrowError, Ledger};

fn id(x: u8) -> AccountId {
    let mut b = [0u8; 32];
    b[0] = x;
    AccountId::from_bytes(b)
}

struct Setup {
    l: Ledger,
    maker: AccountId,
    taker: AccountId,
    mint_a: AccountId,
    mint_b: AccountId,
}

/// A maker holding 100 of mintA and a taker holding 50 of mintB.
fn setup() -> Setup {
    let maker = id(1);
    let taker = id(2);
    let mint_a = id(3);
    let mint_b = id(4);
    let mut l = Ledger::new(id(9));
    l.create_token_account(&maker, &mint_a, 100).unwrap();
    l.create_token_account(&taker, &mint_b, 50).unwrap();
    Setup { l, maker, taker, mint_a, mint_b }
}

#[test]
fn make_funds_vault() {
    let Setup { mut l, maker, mint_a, mint_b, .. } = setup();
    make(&mut l, maker, mint_a, mint_b, 1, 100, 50).unwrap();
    let (ea, bump) = escrow_address(&maker, 1, &l.program_id).unwrap();
    let vault = holding_address(&ea, &mint_a);
    assert_eq!(l.balance(&vault), 100);
    assert_eq!(l.balance(&holding_address(&maker, &mint_a)), 0);
    let rec = l.get_record(&ea).unwrap();
    assert_eq!(rec.maker, maker);
    assert_eq!(rec.record.seed, 1);
    assert_eq!(rec.record.mint_a, mint_a);
    assert_eq!(rec.record.mint_b, mint_b);
    assert_eq!(rec.record.receive, 50);
    assert_eq!(rec.record.bump, bump);
    // the derivations produced fresh addresses, not their inputs
    assert_ne!(ea, maker);
    assert_ne!(vault, ea);
    assert_ne!(vault, maker);
}

#[test]
fn duplicate_seed_rejected() {
    let Setup { mut l, maker, taker, mint_a, mint_b } = setup();
    make(&mut l, maker, mint_a, mint_b, 7, 40, 50).unwrap();
    let tokens_before: Vec<u64> = vec![
        l.balance(&holding_address(&maker, &mint_a)),
        l.balance(&holding_address(&taker, &mint_b)),
    ];
    let err = make(&mut l, maker, mint_a, mint_b, 7, 10, 20).unwrap_err();
    assert_eq!(err, EscrowError::DuplicateSeed);
    assert_eq!(tokens_before[0], l.balance(&holding_address(&maker, &mint_a)));
    assert_eq!(tokens_before[1], l.balance(&holding_address(&taker, &mint_b)));
    // a different seed still works
    make(&mut l, maker, mint_a, mint_b, 8, 10, 20).unwrap();
}

#[test]
fn make_without_funds_rejected() {
    let Setup { mut l, maker, mint_a, mint_b, .. } = setup();
    let err = make(&mut l, maker, mint_a, mint_b, 1, 101, 50).unwrap_err();
    assert_eq!(err, EscrowError::InsufficientFunds);
    assert_eq!(l.balance(&holding_address(&maker, &mint_a)), 100);
}

#[test]
fn make_without_account_rejected() {
    let mut l = Ledger::new(id(9));
    let err = make(&mut l, id(1), id(3), id(4), 1, 100, 50).unwrap_err();
    assert_eq!(err, EscrowError::ConstraintViolation);
}

#[test]
fn scenario_take() {
    let Setup { mut l, maker, taker, mint_a, mint_b } = setup();
    make(&mut l, maker, mint_a, mint_b, 1, 100, 50).unwrap();
    let (ea, _) = escrow_address(&maker, 1, &l.program_id).unwrap();
    let vault = holding_address(&ea, &mint_a);
    take(&mut l, taker, maker, ea).unwrap();
    assert_eq!(l.balance(&holding_address(&maker, &mint_b)), 50);
    assert_eq!(l.balance(&holding_address(&taker, &mint_a)), 100);
    assert_eq!(l.balance(&holding_address(&taker, &mint_b)), 0);
    assert!(l.get_token(&vault).is_none());
    assert!(l.get_record(&ea).is_none());
}

#[test]
fn scenario_refund() {
    let Setup { mut l, maker, taker, mint_a, mint_b } = setup();
    make(&mut l, maker, mint_a, mint_b, 1, 100, 50).unwrap();
    let (ea, _) = escrow_address(&maker, 1, &l.program_id).unwrap();
    let vault = holding_address(&ea, &mint_a);
    refund(&mut l, maker, ea).unwrap();
    assert_eq!(l.balance(&holding_address(&maker, &mint_a)), 100);
    assert!(l.get_token(&vault).is_none());
    assert!(l.get_record(&ea).is_none());
    // the taker's balances are untouched
    assert_eq!(l.balance(&holding_address(&taker, &mint_b)), 50);
    assert_eq!(l.balance(&holding_address(&taker, &mint_a)), 0);
}

#[test]
fn take_underfunded_rejected() {
    let maker = id(1);
    let taker = id(2);
    let mint_a = id(3);
    let mint_b = id(4);
    let mut l = Ledger::new(id(9));
    l.create_token_account(&maker, &mint_a, 100).unwrap();
    l.create_token_account(&taker, &mint_b, 49).unwrap();
    make(&mut l, maker, mint_a, mint_b, 1, 100, 50).unwrap();
    let (ea, _) = escrow_address(&maker, 1, &l.program_id).unwrap();
    let vault = holding_address(&ea, &mint_a);
    let err = take(&mut l, taker, maker, ea).unwrap_err();
    assert_eq!(err, EscrowError::InsufficientFunds);
    // nothing moved: vault, taker and maker balances unchanged
    assert_eq!(l.balance(&vault), 100);
    assert_eq!(l.balance(&holding_address(&taker, &mint_b)), 49);
    assert_eq!(l.balance(&holding_address(&maker, &mint_b)), 0);
    assert!(l.get_record(&ea).is_some());
}

#[test]
fn refund_wrong_signer_rejected() {
    let Setup { mut l, maker, taker, mint_a, mint_b } = setup();
    l.create_token_account(&taker, &mint_a, 0).unwrap();
    make(&mut l, maker, mint_a, mint_b, 1, 100, 50).unwrap();
    let (ea, _) = escrow_address(&maker, 1, &l.program_id).unwrap();
    let vault = holding_address(&ea, &mint_a);
    let err = refund(&mut l, taker, ea).unwrap_err();
    assert_eq!(err, EscrowError::AuthorizationError);
    assert_eq!(l.balance(&vault), 100);
    assert_eq!(l.balance(&holding_address(&maker, &mint_a)), 0);
    assert!(l.get_record(&ea).is_some());
}

#[test]
fn settled_escrow_is_terminal() {
    let Setup { mut l, maker, taker, mint_a, mint_b } = setup();
    make(&mut l, maker, mint_a, mint_b, 1, 100, 50).unwrap();
    let (ea, _) = escrow_address(&maker, 1, &l.program_id).unwrap();
    take(&mut l, taker, maker, ea).unwrap();
    let maker_b = l.balance(&holding_address(&maker, &mint_b));
    let taker_a = l.balance(&holding_address(&taker, &mint_a));
    assert_eq!(take(&mut l, taker, maker, ea).unwrap_err(), EscrowError::ConstraintViolation);
    assert_eq!(refund(&mut l, maker, ea).unwrap_err(), EscrowError::ConstraintViolation);
    assert_eq!(maker_b, l.balance(&holding_address(&maker, &mint_b)));
    assert_eq!(taker_a, l.balance(&holding_address(&taker, &mint_a)));
}

#[test]
fn refunded_escrow_is_terminal() {
    let Setup { mut l, maker, taker, mint_a, mint_b } = setup();
    make(&mut l, maker, mint_a, mint_b, 1, 100, 50).unwrap();
    let (ea, _) = escrow_address(&maker, 1, &l.program_id).unwrap();
    refund(&mut l, maker, ea).unwrap();
    assert_eq!(refund(&mut l, maker, ea).unwrap_err(), EscrowError::ConstraintViolation);
    assert_eq!(take(&mut l, taker, maker, ea).unwrap_err(), EscrowError::ConstraintViolation);
    assert_eq!(l.balance(&holding_address(&maker, &mint_a)), 100);
}

#[test]
fn concurrent_escrows_one_maker() {
    let Setup { mut l, maker, taker, mint_a, mint_b } = setup();
    make(&mut l, maker, mint_a, mint_b, 1, 60, 30).unwrap();
    make(&mut l, maker, mint_a, mint_b, 2, 40, 20).unwrap();
    let (ea1, _) = escrow_address(&maker, 1, &l.program_id).unwrap();
    let (ea2, _) = escrow_address(&maker, 2, &l.program_id).unwrap();
    assert_ne!(ea1, ea2);
    take(&mut l, taker, maker, ea1).unwrap();
    refund(&mut l, maker, ea2).unwrap();
    assert_eq!(l.balance(&holding_address(&maker, &mint_a)), 40);
    assert_eq!(l.balance(&holding_address(&maker, &mint_b)), 30);
    assert_eq!(l.balance(&holding_address(&taker, &mint_a)), 60);
    assert_eq!(l.balance(&holding_address(&taker, &mint_b)), 20);
}

#[test]
fn transfer_errors() {
    let maker = id(1);
    let taker = id(2);
    let mint_a = id(3);
    let mut l = Ledger::new(id(9));
    let a1 = l.create_token_account(&maker, &mint_a, 10).unwrap();
    let a2 = l.create_token_account(&taker, &mint_a, 0).unwrap();
    assert_eq!(
        l.transfer(&a1, &a2, &maker, 11).unwrap_err(),
        EscrowError::InsufficientFunds
    );
    assert_eq!(
        l.transfer(&a1, &a2, &taker, 5).unwrap_err(),
        EscrowError::AuthorizationError
    );
    assert_eq!(
        l.transfer(&a1, &id(8), &maker, 5).unwrap_err(),
        EscrowError::ConstraintViolation
    );
    l.transfer(&a1, &a2, &maker, 10).unwrap();
    assert_eq!(l.balance(&a1), 0);
    assert_eq!(l.balance(&a2), 10);
}

#[test]
fn transfer_checked_validates_asset() {
    let maker = id(1);
    let taker = id(2);
    let mint_a = id(3);
    let mint_b = id(4);
    let mut l = Ledger::new(id(9));
    let a1 = l.create_token_account(&maker, &mint_a, 10).unwrap();
    let a2 = l.create_token_account(&taker, &mint_a, 0).unwrap();
    assert_eq!(
        l.transfer_checked(&a1, &a2, &maker, 5, &mint_b).unwrap_err(),
        EscrowError::ConstraintViolation
    );
    assert_eq!(l.balance(&a1), 10);
    l.transfer_checked(&a1, &a2, &maker, 5, &mint_a).unwrap();
    assert_eq!(l.balance(&a2), 5);
}

#[test]
fn close_account_errors() {
    let maker = id(1);
    let mint_a = id(3);
    let mut l = Ledger::new(id(9));
    let a1 = l.create_token_account(&maker, &mint_a, 10).unwrap();
    assert_eq!(
        l.close_account(&a1, &maker, &maker).unwrap_err(),
        EscrowError::ConstraintViolation
    );
    assert_eq!(
        l.close_account(&a1, &maker, &id(2)).unwrap_err(),
        EscrowError::AuthorizationError
    );
    let a2 = l.create_token_account(&maker, &id(4), 0).unwrap();
    l.close_account(&a2, &maker, &maker).unwrap();
    assert!(l.get_token(&a2).is_none());
    assert_eq!(
        l.create_token_account(&maker, &mint_a, 0).unwrap_err(),
        EscrowError::ConstraintViolation
    );
}

#[test]
fn record_round_trip() {
    let e = Escrow { seed: 1, mint_a: id(3), mint_b: id(4), receive: 2, bump: 254 };
    let bytes = serialize_escrow(&e);
    assert_eq!(bytes.len(), 89);
    let back = deserialize_escrow(&bytes).unwrap();
    assert_eq!(back, e);
}

#[test]
fn record_exact_bytes() {
    let e = Escrow { seed: 1, mint_a: id(3), mint_b: id(4), receive: 2, bump: 3 };
    let bytes = serialize_escrow(&e);
    let mut expected: Vec<u8> = vec![31, 213, 123, 187, 186, 22, 218, 155];
    expected.extend_from_slice(&[1, 0, 0, 0, 0, 0, 0, 0]);
    expected.extend_from_slice(&id(3).bytes);
    expected.extend_from_slice(&id(4).bytes);
    expected.extend_from_slice(&[2, 0, 0, 0, 0, 0, 0, 0]);
    expected.push(3);
    assert_eq!(bytes, expected);
}

#[test]
fn record_malformed_rejected() {
    let e = Escrow { seed: 1, mint_a: id(3), mint_b: id(4), receive: 2, bump: 3 };
    let mut bytes = serialize_escrow(&e);
    bytes[0] = 0;
    assert!(deserialize_escrow(&bytes).is_none());
    let short: Vec<u8> = vec![31, 213];
    assert!(deserialize_escrow(&short).is_none());
}

#[test]
fn different_makers_share_seed() {
    let maker1 = id(1);
    let maker2 = id(5);
    let taker = id(2);
    let mint_a = id(3);
    let mint_b = id(4);
    let mut l = Ledger::new(id(9));
    l.create_token_account(&maker1, &mint_a, 10).unwrap();
    l.create_token_account(&maker2, &mint_a, 20).unwrap();
    l.create_token_account(&taker, &mint_b, 50).unwrap();
    // the same seed under different makers derives different records
    make(&mut l, maker1, mint_a, mint_b, 1, 10, 5).unwrap();
    make(&mut l, maker2, mint_a, mint_b, 1, 20, 7).unwrap();
    let (ea1, _) = escrow_address(&maker1, 1, &l.program_id).unwrap();
    let (ea2, _) = escrow_address(&maker2, 1, &l.program_id).unwrap();
    assert_ne!(ea1, ea2);
    take(&mut l, taker, maker2, ea2).unwrap();
    assert_eq!(l.balance(&holding_address(&taker, &mint_a)), 20);
    refund(&mut l, maker1, ea1).unwrap();
    assert_eq!(l.balance(&holding_address(&maker1, &mint_a)), 10);
}

#[test]
fn zero_amount_escrow_allowed() {
    // neither depositAmount > 0 nor receiveAmount > 0 is enforced
    let Setup { mut l, maker, taker, mint_a, mint_b } = setup();
    make(&mut l, maker, mint_a, mint_b, 1, 0, 0).unwrap();
    let (ea, _) = escrow_address(&maker, 1, &l.program_id).unwrap();
    take(&mut l, taker, maker, ea).unwrap();
    assert_eq!(l.balance(&holding_address(&maker, &mint_a)), 100);
    assert_eq!(l.balance(&holding_address(&taker, &mint_b)), 50);
    assert!(l.get_record(&ea).is_none());
}

#[test]
fn error_descriptions() {
    assert_eq!(EscrowError::AuthorizationError.describe(), "authorization error");
    assert_eq!(EscrowError::ConstraintViolation.describe(), "constraint violation");
    assert_eq!(EscrowError::InsufficientFunds.describe(), "insufficient funds");
    assert_eq!(EscrowError::DuplicateSeed.describe(), "duplicate seed");
}

#[test]
fn derivation_is_deterministic() {
    let maker = id(1);
    let program = id(9);
    let a = escrow_address(&maker, 5, &program).unwrap();
    let b = escrow_address(&maker, 5, &program).unwrap();
    assert_eq!(a, b);
    let c = escrow_address(&maker, 6, &program).unwrap();
    assert_ne!(a.0, c.0);
    assert_eq!(holding_address(&maker, &id(3)), holding_address(&maker, &id(3)));
}
