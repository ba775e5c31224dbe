use moonbeam::pool::Module;
use moonbeam::types::{Error, Event, Origin};

const ALICE: u64 = 1;
const BOB: u64 = 2;

fn funded(base: u64, token: u64) -> Module {
    let mut m = Module::new();
    m.set_base_balance(Origin::Root, ALICE, base).unwrap();
    m.set_token_balance(Origin::Root, ALICE, token).unwrap();
    m
}

#[test]
fn new_market_is_empty() {
    let m = Module::new();
    assert_eq!(m.base_balance_of(ALICE), 0);
    assert_eq!(m.token_balance_of(ALICE), 0);
    assert_eq!(m.liquid_balance_of(ALICE), 0);
    assert_eq!(m.base_pool_balance(), 0);
    assert_eq!(m.token_pool_balance(), 0);
    assert_eq!(m.total_liquid_supply(), 0);
    assert_eq!(m.base_price(), 0);
    assert_eq!(m.token_price(), 0);
}

#[test]
fn bootstrap_deposit_sets_reserves_and_shares() {
    let mut m = funded(1000, 500);
    let ev = m.deposit_liquidity(Origin::Signed(ALICE), 100, 50).unwrap();
    assert_eq!(ev, Event::DepositLiquidity(ALICE, 100));
    assert_eq!(m.base_pool_balance(), 100);
    assert_eq!(m.token_pool_balance(), 50);
    assert_eq!(m.total_liquid_supply(), 100);
    assert_eq!(m.liquid_balance_of(ALICE), 100);
    assert_eq!(m.base_balance_of(ALICE), 900);
    assert_eq!(m.token_balance_of(ALICE), 450);
}

#[test]
fn proportional_deposit_doubling_charges_one_extra_token() {
    let mut m = funded(2000, 1000);
    m.deposit_liquidity(Origin::Signed(ALICE), 1000, 400).unwrap();
    // doubling the base side: the token charge is the reserve plus one, and
    // the minted shares equal the whole previous supply
    let ev = m.deposit_liquidity(Origin::Signed(ALICE), 1000, 0).unwrap();
    assert_eq!(ev, Event::DepositLiquidity(ALICE, 1000));
    assert_eq!(m.base_pool_balance(), 2000);
    assert_eq!(m.token_pool_balance(), 801);
    assert_eq!(m.total_liquid_supply(), 2000);
    assert_eq!(m.liquid_balance_of(ALICE), 2000);
    assert_eq!(m.base_balance_of(ALICE), 0);
    assert_eq!(m.token_balance_of(ALICE), 199);
}

#[test]
fn deposit_rejects_zero_base_value() {
    let mut m = funded(1000, 500);
    assert_eq!(m.deposit_liquidity(Origin::Signed(ALICE), 0, 50), Err(Error::NoPrice));
    assert_eq!(m.total_liquid_supply(), 0);
}

#[test]
fn bootstrap_rejects_zero_token_value() {
    let mut m = funded(1000, 500);
    assert_eq!(m.deposit_liquidity(Origin::Signed(ALICE), 100, 0), Err(Error::NoPrice));
    assert_eq!(m.total_liquid_supply(), 0);
}

#[test]
fn deposit_rejects_unfunded_sender() {
    let mut m = funded(1000, 500);
    assert_eq!(
        m.deposit_liquidity(Origin::Signed(BOB), 100, 50),
        Err(Error::InsufficientBalance)
    );
}

#[test]
fn deposit_needs_signed_origin() {
    let mut m = funded(1000, 500);
    assert_eq!(m.deposit_liquidity(Origin::Root, 100, 50), Err(Error::Unauthorized));
}

#[test]
fn proportional_deposit_fails_without_enough_tokens() {
    let mut m = funded(2000, 400);
    m.deposit_liquidity(Origin::Signed(ALICE), 1000, 400).unwrap();
    // a doubling deposit needs 401 tokens and the sender has none left
    let r = m.deposit_liquidity(Origin::Signed(ALICE), 1000, 0);
    assert_eq!(r, Err(Error::InsufficientBalance));
    // nothing moved
    assert_eq!(m.base_pool_balance(), 1000);
    assert_eq!(m.token_pool_balance(), 400);
    assert_eq!(m.total_liquid_supply(), 1000);
    assert_eq!(m.base_balance_of(ALICE), 1000);
    assert_eq!(m.token_balance_of(ALICE), 0);
}

#[test]
fn withdraw_round_trip_returns_the_deposit() {
    let mut m = funded(500, 300);
    m.deposit_liquidity(Origin::Signed(ALICE), 100, 50).unwrap();
    let ev = m.withdraw_liquidity(Origin::Signed(ALICE), 100).unwrap();
    assert_eq!(ev, Event::WithdrawLiquidity(ALICE, 100));
    assert_eq!(m.base_balance_of(ALICE), 500);
    assert_eq!(m.token_balance_of(ALICE), 300);
    assert_eq!(m.liquid_balance_of(ALICE), 0);
    assert_eq!(m.total_liquid_supply(), 0);
    assert_eq!(m.base_pool_balance(), 0);
    assert_eq!(m.token_pool_balance(), 0);
}

#[test]
fn partial_withdrawal_rounds_down() {
    let mut m = funded(10, 7);
    m.deposit_liquidity(Origin::Signed(ALICE), 10, 7).unwrap();
    // 3 of 10 shares: floor(3 * 10 / 10) = 3 base, floor(3 * 7 / 10) = 2 tokens
    m.withdraw_liquidity(Origin::Signed(ALICE), 3).unwrap();
    assert_eq!(m.base_balance_of(ALICE), 3);
    assert_eq!(m.token_balance_of(ALICE), 2);
    assert_eq!(m.base_pool_balance(), 7);
    assert_eq!(m.token_pool_balance(), 5);
    assert_eq!(m.total_liquid_supply(), 7);
    assert_eq!(m.liquid_balance_of(ALICE), 7);
}

#[test]
fn withdraw_from_empty_pool_is_rejected() {
    let mut m = funded(500, 300);
    assert_eq!(
        m.withdraw_liquidity(Origin::Signed(ALICE), 1),
        Err(Error::PoolUninitialized)
    );
}

#[test]
fn withdraw_of_zero_is_rejected() {
    let mut m = funded(500, 300);
    m.deposit_liquidity(Origin::Signed(ALICE), 100, 50).unwrap();
    assert_eq!(m.withdraw_liquidity(Origin::Signed(ALICE), 0), Err(Error::NoPrice));
}

#[test]
fn withdraw_beyond_supply_is_rejected() {
    let mut m = funded(500, 300);
    m.deposit_liquidity(Origin::Signed(ALICE), 100, 50).unwrap();
    assert_eq!(
        m.withdraw_liquidity(Origin::Signed(ALICE), 101),
        Err(Error::InsufficientBalance)
    );
}

#[test]
fn failed_withdrawal_changes_nothing() {
    let mut m = funded(500, 300);
    m.deposit_liquidity(Origin::Signed(ALICE), 100, 50).unwrap();
    let base_price = m.base_price();
    let token_price = m.token_price();
    // the pool holds 100 shares but this caller owns none of them
    assert_eq!(
        m.withdraw_liquidity(Origin::Signed(BOB), 10),
        Err(Error::InsufficientBalance)
    );
    assert_eq!(m.base_balance_of(ALICE), 400);
    assert_eq!(m.token_balance_of(ALICE), 250);
    assert_eq!(m.liquid_balance_of(ALICE), 100);
    assert_eq!(m.base_balance_of(BOB), 0);
    assert_eq!(m.token_balance_of(BOB), 0);
    assert_eq!(m.liquid_balance_of(BOB), 0);
    assert_eq!(m.base_pool_balance(), 100);
    assert_eq!(m.token_pool_balance(), 50);
    assert_eq!(m.total_liquid_supply(), 100);
    assert_eq!(m.base_price(), base_price);
    assert_eq!(m.token_price(), token_price);
}

#[test]
fn deposit_reports_a_reserve_overflow() {
    let mut m = funded(u64::MAX, u64::MAX);
    m.deposit_liquidity(Origin::Signed(ALICE), 1, 1).unwrap();
    // replenish the sender so only the token reserve can overflow
    m.set_token_balance(Origin::Root, ALICE, u64::MAX).unwrap();
    let r = m.deposit_liquidity(Origin::Signed(ALICE), u64::MAX - 1, 0);
    assert_eq!(r, Err(Error::ArithmeticOverflow));
    assert_eq!(m.base_pool_balance(), 1);
    assert_eq!(m.token_pool_balance(), 1);
    assert_eq!(m.total_liquid_supply(), 1);
}

#[test]
fn deposit_reports_an_overflowing_token_charge() {
    let mut m = funded(u64::MAX, u64::MAX);
    m.deposit_liquidity(Origin::Signed(ALICE), 1, u64::MAX).unwrap();
    // the required token contribution (u64::MAX - 1) * u64::MAX / 1 + 1 has
    // no representation
    let r = m.deposit_liquidity(Origin::Signed(ALICE), u64::MAX - 1, 0);
    assert_eq!(r, Err(Error::ArithmeticOverflow));
    assert_eq!(m.base_pool_balance(), 1);
    assert_eq!(m.token_pool_balance(), u64::MAX);
}

#[test]
fn conservation_across_a_session() {
    let mut m = Module::new();
    m.set_base_balance(Origin::Root, ALICE, 5000).unwrap();
    m.set_token_balance(Origin::Root, ALICE, 3000).unwrap();
    m.set_base_balance(Origin::Root, BOB, 800).unwrap();
    m.set_token_balance(Origin::Root, BOB, 600).unwrap();
    let base_total = 5800;
    let token_total = 3600;

    m.deposit_liquidity(Origin::Signed(ALICE), 1000, 1000).unwrap();
    m.trade_base_to_token(Origin::Signed(BOB), 100).unwrap();
    m.trade_token_to_base(Origin::Signed(BOB), 50).unwrap();
    m.deposit_liquidity(Origin::Signed(ALICE), 500, 0).unwrap();
    m.withdraw_liquidity(Origin::Signed(ALICE), 700).unwrap();
    // a failed operation must not move anything either
    let _ = m.withdraw_liquidity(Origin::Signed(BOB), 1);
    let _ = m.deposit_liquidity(Origin::Signed(BOB), 0, 0);

    let base_sum =
        m.base_balance_of(ALICE) + m.base_balance_of(BOB) + m.base_pool_balance();
    let token_sum =
        m.token_balance_of(ALICE) + m.token_balance_of(BOB) + m.token_pool_balance();
    let liquid_sum = m.liquid_balance_of(ALICE) + m.liquid_balance_of(BOB);
    assert_eq!(base_sum, base_total);
    assert_eq!(token_sum, token_total);
    assert_eq!(liquid_sum, m.total_liquid_supply());
}
