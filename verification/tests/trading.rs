use moonbeam::pool::Module;
use moonbeam::swap::get_price;
use moonbeam::types::{Error, Event, Origin};

const ALICE: u64 = 1;
const BOB: u64 = 2;

fn pool_1000_1000() -> Module {
    let mut m = Module::new();
    m.set_base_balance(Origin::Root, ALICE, 1000).unwrap();
    m.set_token_balance(Origin::Root, ALICE, 1000).unwrap();
    m.set_base_balance(Origin::Root, BOB, 1000).unwrap();
    m.set_token_balance(Origin::Root, BOB, 1000).unwrap();
    m.deposit_liquidity(Origin::Signed(ALICE), 1000, 1000).unwrap();
    m
}

#[test]
fn quote_charges_the_fee() {
    // floor(100 * 997 * 1000 / (1000 * 1000 + 100 * 997)) = 90
    assert_eq!(get_price(100, 1000, 1000), Some(90));
}

#[test]
fn quote_rejects_degenerate_inputs() {
    assert_eq!(get_price(0, 1000, 1000), None);
    assert_eq!(get_price(100, 0, 1000), None);
    assert_eq!(get_price(100, 1000, 0), None);
}

#[test]
fn quote_rejects_an_overflowing_numerator() {
    assert_eq!(get_price(u64::MAX, 1, u64::MAX), None);
}

#[test]
fn quote_approaches_the_fee_discounted_ratio_on_deep_reserves() {
    // with reserves a billion times the trade, the quote reaches the linear
    // ratio scaled by the 997/1000 fee, less rounding: 996 of 1000
    let deep = 1_000_000_000_000;
    assert_eq!(get_price(1000, deep, deep), Some(996));
}

#[test]
fn base_trade_moves_the_quoted_amount() {
    let mut m = pool_1000_1000();
    let ev = m.trade_base_to_token(Origin::Signed(BOB), 100).unwrap();
    assert_eq!(ev, Event::TokenPurchase(BOB, 90));
    assert_eq!(m.base_balance_of(BOB), 900);
    assert_eq!(m.token_balance_of(BOB), 1090);
    assert_eq!(m.base_pool_balance(), 1100);
    assert_eq!(m.token_pool_balance(), 910);
    // the retained fee strictly grows the product of the reserves
    assert!(1100 * 910 > 1000 * 1000);
}

#[test]
fn token_trade_moves_the_quoted_amount() {
    let mut m = pool_1000_1000();
    let ev = m.trade_token_to_base(Origin::Signed(BOB), 100).unwrap();
    assert_eq!(ev, Event::BasePurchase(BOB, 90));
    assert_eq!(m.token_balance_of(BOB), 900);
    assert_eq!(m.base_balance_of(BOB), 1090);
    assert_eq!(m.token_pool_balance(), 1100);
    assert_eq!(m.base_pool_balance(), 910);
}

#[test]
fn trade_on_an_empty_pool_finds_no_price() {
    let mut m = Module::new();
    m.set_base_balance(Origin::Root, BOB, 1000).unwrap();
    assert_eq!(m.trade_base_to_token(Origin::Signed(BOB), 100), Err(Error::NoPrice));
}

#[test]
fn trade_of_zero_finds_no_price() {
    let mut m = pool_1000_1000();
    assert_eq!(m.trade_base_to_token(Origin::Signed(BOB), 0), Err(Error::NoPrice));
}

#[test]
fn trade_needs_a_funded_sender() {
    let mut m = pool_1000_1000();
    let r = m.trade_base_to_token(Origin::Signed(BOB), 1001);
    assert_eq!(r, Err(Error::InsufficientBalance));
    // nothing moved
    assert_eq!(m.base_balance_of(BOB), 1000);
    assert_eq!(m.base_pool_balance(), 1000);
    assert_eq!(m.token_pool_balance(), 1000);
}

#[test]
fn trade_needs_a_signed_origin() {
    let mut m = pool_1000_1000();
    assert_eq!(m.trade_base_to_token(Origin::Root, 100), Err(Error::Unauthorized));
    assert_eq!(m.trade_token_to_base(Origin::Root, 100), Err(Error::Unauthorized));
}

#[test]
fn prices_snapshot_after_liquidity_changes() {
    let mut m = pool_1000_1000();
    // quoting one canonical unit against reserves (1000, 1000):
    // floor(10^12 * 997 * 1000 / (1000 * 1000 + 10^12 * 997)) = 999
    assert_eq!(m.base_price(), 999);
    assert_eq!(m.token_price(), 999);
}

#[test]
fn prices_keep_their_last_value_when_the_pool_empties() {
    let mut m = pool_1000_1000();
    m.withdraw_liquidity(Origin::Signed(ALICE), 1000).unwrap();
    assert_eq!(m.base_pool_balance(), 0);
    assert_eq!(m.token_pool_balance(), 0);
    // no quote exists against empty reserves: the snapshot stays
    assert_eq!(m.base_price(), 999);
    assert_eq!(m.token_price(), 999);
}

#[test]
fn recomputing_prices_is_idempotent() {
    let mut m = Module::new();
    // against an empty pool no quote exists, so the snapshot stays zero
    m.update_prices();
    assert_eq!(m.base_price(), 0);
    assert_eq!(m.token_price(), 0);
    let mut m = pool_1000_1000();
    m.update_prices();
    assert_eq!(m.base_price(), 999);
    assert_eq!(m.token_price(), 999);
}

#[test]
fn a_round_trip_trade_loses_to_the_fee() {
    let mut m = pool_1000_1000();
    m.trade_base_to_token(Origin::Signed(BOB), 100).unwrap();
    let got = m.token_balance_of(BOB) - 1000;
    m.trade_token_to_base(Origin::Signed(BOB), got).unwrap();
    // after selling the bought tokens straight back, the fee has cost BOB
    // base units and the pool keeps them
    assert!(m.base_balance_of(BOB) < 1000);
    assert!(m.base_pool_balance() > 1000);
}
