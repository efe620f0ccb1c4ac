use escrow::error::EscrowError;
use escrow::program::{cancel_offer, make_offer, take_offer, CancelOffer, Escrow, MakeOffer, TakeOffer};
use escrow::state::Offer;

const MAKER: u64 = 10;
const TAKER: u64 = 20;
const MINT_A: u64 = 1;
const MINT_B: u64 = 2;

fn funded() -> Escrow {
    let mut e = Escrow::new();
    e.deposit(MAKER, MINT_A, 100).unwrap();
    e.deposit(TAKER, MINT_B, 80).unwrap();
    e
}

fn ctx() -> MakeOffer {
    MakeOffer { maker: MAKER, token_mint_a: MINT_A, token_mint_b: MINT_B }
}

#[test]
fn offer_taken_then_gone() {
    let mut e = funded();
    make_offer(&mut e, ctx(), 1, 100, 50).unwrap();
    assert_eq!(e.vault_balance(MAKER, 1), Some(100));
    assert_eq!(e.balance(MAKER, MINT_A), 0);
    take_offer(&mut e, TakeOffer { taker: TAKER, maker: MAKER, id: 1 }).unwrap();
    assert_eq!(e.balance(MAKER, MINT_B), 50);
    assert_eq!(e.balance(TAKER, MINT_B), 30);
    assert_eq!(e.balance(TAKER, MINT_A), 100);
    assert_eq!(e.offer(MAKER, 1), None);
    assert_eq!(e.vault_balance(MAKER, 1), None);
    let again = take_offer(&mut e, TakeOffer { taker: 30, maker: MAKER, id: 1 });
    assert_eq!(again, Err(EscrowError::OfferNotFound));
}

#[test]
fn make_offer_record_matches_inputs() {
    let mut e = funded();
    let r = make_offer(&mut e, ctx(), 7, 40, 15).unwrap();
    let expected = Offer { id: 7, maker: MAKER, token_mint_a: MINT_A, token_mint_b: MINT_B, token_b_wanted_amount: 15 };
    assert_eq!(r, expected);
    assert_eq!(e.offer(MAKER, 7), Some(expected));
    assert_eq!(e.vault_balance(MAKER, 7), Some(40));
    assert_eq!(e.balance(MAKER, MINT_A), 60);
}

#[test]
fn take_offer_moves_exact_amounts() {
    let mut e = funded();
    e.deposit(MAKER, MINT_B, 5).unwrap();
    e.deposit(TAKER, MINT_A, 3).unwrap();
    make_offer(&mut e, ctx(), 2, 60, 25).unwrap();
    take_offer(&mut e, TakeOffer { taker: TAKER, maker: MAKER, id: 2 }).unwrap();
    assert_eq!(e.balance(MAKER, MINT_B), 30);
    assert_eq!(e.balance(TAKER, MINT_B), 55);
    assert_eq!(e.balance(TAKER, MINT_A), 63);
    assert_eq!(e.balance(MAKER, MINT_A), 40);
    assert_eq!(e.offer(MAKER, 2), None);
}

#[test]
fn take_offer_twice_fails_and_keeps_balances() {
    let mut e = funded();
    make_offer(&mut e, ctx(), 1, 100, 50).unwrap();
    take_offer(&mut e, TakeOffer { taker: TAKER, maker: MAKER, id: 1 }).unwrap();
    let r = take_offer(&mut e, TakeOffer { taker: TAKER, maker: MAKER, id: 1 });
    assert_eq!(r, Err(EscrowError::OfferNotFound));
    assert_eq!(e.balance(MAKER, MINT_B), 50);
    assert_eq!(e.balance(TAKER, MINT_B), 30);
    assert_eq!(e.balance(TAKER, MINT_A), 100);
}

#[test]
fn underfunded_taker_changes_nothing() {
    let mut e = funded();
    make_offer(&mut e, ctx(), 1, 100, 90).unwrap();
    let r = take_offer(&mut e, TakeOffer { taker: TAKER, maker: MAKER, id: 1 });
    assert_eq!(r, Err(EscrowError::InsufficientFunds));
    assert_eq!(e.vault_balance(MAKER, 1), Some(100));
    assert!(e.offer(MAKER, 1).is_some());
    assert_eq!(e.balance(TAKER, MINT_B), 80);
    assert_eq!(e.balance(TAKER, MINT_A), 0);
    assert_eq!(e.balance(MAKER, MINT_B), 0);
}

#[test]
fn duplicate_id_is_rejected() {
    let mut e = funded();
    make_offer(&mut e, ctx(), 1, 30, 10).unwrap();
    let r = make_offer(&mut e, MakeOffer { maker: MAKER, token_mint_a: MINT_A, token_mint_b: 9 }, 1, 20, 99);
    assert_eq!(r, Err(EscrowError::OfferAlreadyExists));
    let kept = e.offer(MAKER, 1).unwrap();
    assert_eq!(kept.token_mint_b, MINT_B);
    assert_eq!(kept.token_b_wanted_amount, 10);
    assert_eq!(e.vault_balance(MAKER, 1), Some(30));
    assert_eq!(e.balance(MAKER, MINT_A), 70);
}

#[test]
fn same_id_for_different_makers() {
    let mut e = funded();
    e.deposit(TAKER, MINT_A, 10).unwrap();
    make_offer(&mut e, ctx(), 1, 30, 10).unwrap();
    make_offer(&mut e, MakeOffer { maker: TAKER, token_mint_a: MINT_A, token_mint_b: MINT_B }, 1, 10, 4).unwrap();
    assert_eq!(e.vault_balance(MAKER, 1), Some(30));
    assert_eq!(e.vault_balance(TAKER, 1), Some(10));
}

#[test]
fn zero_amounts_are_invalid() {
    let mut e = funded();
    assert_eq!(make_offer(&mut e, ctx(), 1, 0, 5), Err(EscrowError::InvalidAmount));
    assert_eq!(make_offer(&mut e, ctx(), 1, 5, 0), Err(EscrowError::InvalidAmount));
    assert_eq!(e.offer(MAKER, 1), None);
    assert_eq!(e.balance(MAKER, MINT_A), 100);
}

#[test]
fn maker_short_of_asset_a() {
    let mut e = funded();
    assert_eq!(make_offer(&mut e, ctx(), 1, 101, 5), Err(EscrowError::InsufficientFunds));
    assert_eq!(e.offer(MAKER, 1), None);
    assert_eq!(e.balance(MAKER, MINT_A), 100);
}

#[test]
fn take_unknown_offer() {
    let mut e = funded();
    let r = take_offer(&mut e, TakeOffer { taker: TAKER, maker: MAKER, id: 3 });
    assert_eq!(r, Err(EscrowError::OfferNotFound));
}

#[test]
fn maker_overflow_on_payment() {
    let mut e = funded();
    e.deposit(MAKER, MINT_B, u64::MAX - 10).unwrap();
    make_offer(&mut e, ctx(), 1, 100, 50).unwrap();
    let r = take_offer(&mut e, TakeOffer { taker: TAKER, maker: MAKER, id: 1 });
    assert_eq!(r, Err(EscrowError::Overflow));
    assert_eq!(e.vault_balance(MAKER, 1), Some(100));
    assert_eq!(e.balance(TAKER, MINT_B), 80);
}

#[test]
fn taker_overflow_on_release() {
    let mut e = funded();
    e.deposit(TAKER, MINT_A, u64::MAX - 50).unwrap();
    make_offer(&mut e, ctx(), 1, 100, 50).unwrap();
    let r = take_offer(&mut e, TakeOffer { taker: TAKER, maker: MAKER, id: 1 });
    assert_eq!(r, Err(EscrowError::Overflow));
    assert_eq!(e.balance(MAKER, MINT_B), 0);
    assert_eq!(e.balance(TAKER, MINT_B), 80);
}

#[test]
fn maker_takes_own_offer() {
    let mut e = funded();
    e.deposit(MAKER, MINT_B, 50).unwrap();
    make_offer(&mut e, ctx(), 1, 100, 50).unwrap();
    take_offer(&mut e, TakeOffer { taker: MAKER, maker: MAKER, id: 1 }).unwrap();
    assert_eq!(e.balance(MAKER, MINT_A), 100);
    assert_eq!(e.balance(MAKER, MINT_B), 50);
    assert_eq!(e.offer(MAKER, 1), None);
}

#[test]
fn cancel_returns_vault_to_maker() {
    let mut e = funded();
    make_offer(&mut e, ctx(), 1, 100, 50).unwrap();
    cancel_offer(&mut e, CancelOffer { caller: MAKER, maker: MAKER, id: 1 }).unwrap();
    assert_eq!(e.balance(MAKER, MINT_A), 100);
    assert_eq!(e.offer(MAKER, 1), None);
    assert_eq!(e.vault_balance(MAKER, 1), None);
    let r = take_offer(&mut e, TakeOffer { taker: TAKER, maker: MAKER, id: 1 });
    assert_eq!(r, Err(EscrowError::OfferNotFound));
}

#[test]
fn cancel_by_stranger_is_unauthorized() {
    let mut e = funded();
    make_offer(&mut e, ctx(), 1, 100, 50).unwrap();
    let r = cancel_offer(&mut e, CancelOffer { caller: TAKER, maker: MAKER, id: 1 });
    assert_eq!(r, Err(EscrowError::Unauthorized));
    assert_eq!(e.vault_balance(MAKER, 1), Some(100));
    assert_eq!(e.balance(MAKER, MINT_A), 0);
}

#[test]
fn cancel_unknown_offer() {
    let mut e = funded();
    let r = cancel_offer(&mut e, CancelOffer { caller: MAKER, maker: MAKER, id: 1 });
    assert_eq!(r, Err(EscrowError::OfferNotFound));
}

#[test]
fn cancel_overflow_keeps_offer() {
    let mut e = funded();
    make_offer(&mut e, ctx(), 1, 100, 50).unwrap();
    e.deposit(MAKER, MINT_A, u64::MAX - 10).unwrap();
    let r = cancel_offer(&mut e, CancelOffer { caller: MAKER, maker: MAKER, id: 1 });
    assert_eq!(r, Err(EscrowError::Overflow));
    assert_eq!(e.vault_balance(MAKER, 1), Some(100));
}

#[test]
fn deposit_overflow() {
    let mut e = Escrow::new();
    e.deposit(MAKER, MINT_A, u64::MAX).unwrap();
    assert_eq!(e.deposit(MAKER, MINT_A, 1), Err(EscrowError::Overflow));
    assert_eq!(e.balance(MAKER, MINT_A), u64::MAX);
    assert_eq!(e.balance(MAKER, MINT_B), 0);
}
