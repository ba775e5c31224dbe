use moonbeam::arith::{checked_add, checked_sub, mul_div};
use moonbeam::ledger::AssetLedger;
use moonbeam::pool::Module;
use moonbeam::types::{Error, Origin};

const ALICE: u64 = 1;
const BOB: u64 = 2;

#[test]
fn checked_add_reports_overflow() {
    assert_eq!(checked_add(2, 3), Ok(5));
    assert_eq!(checked_add(u64::MAX, 0), Ok(u64::MAX));
    assert_eq!(checked_add(u64::MAX, 1), Err(Error::ArithmeticOverflow));
}

#[test]
fn checked_sub_reports_underflow() {
    assert_eq!(checked_sub(5, 3), Ok(2));
    assert_eq!(checked_sub(3, 3), Ok(0));
    assert_eq!(checked_sub(3, 5), Err(Error::ArithmeticUnderflow));
}

#[test]
fn mul_div_widens_the_product() {
    assert_eq!(mul_div(6, 7, 2), Ok(21));
    // the product overflows the native width but not the intermediate
    assert_eq!(mul_div(u64::MAX, 1000, 2000), Ok(u64::MAX / 2));
    assert_eq!(mul_div(1, 1, 0), Err(Error::DivisionByZero));
    assert_eq!(mul_div(u64::MAX, u64::MAX, 1), Err(Error::ArithmeticOverflow));
}

#[test]
fn an_unwritten_account_reads_as_zero() {
    let mut l = AssetLedger::new();
    assert_eq!(l.balance_of(ALICE), 0);
    l.set_balance(ALICE, 42);
    assert_eq!(l.balance_of(ALICE), 42);
    assert_eq!(l.balance_of(BOB), 0);
}

#[test]
fn credit_and_debit_are_checked() {
    let mut l = AssetLedger::new();
    assert_eq!(l.credit(ALICE, 10), Ok(()));
    assert_eq!(l.credit(ALICE, u64::MAX), Err(Error::ArithmeticOverflow));
    assert_eq!(l.balance_of(ALICE), 10);
    assert_eq!(l.debit(ALICE, 4), Ok(()));
    assert_eq!(l.debit(ALICE, 7), Err(Error::InsufficientBalance));
    assert_eq!(l.balance_of(ALICE), 6);
}

#[test]
fn set_balance_needs_root() {
    let mut m = Module::new();
    assert_eq!(
        m.set_base_balance(Origin::Signed(ALICE), ALICE, 10),
        Err(Error::Unauthorized)
    );
    assert_eq!(
        m.set_token_balance(Origin::Signed(ALICE), ALICE, 10),
        Err(Error::Unauthorized)
    );
    assert_eq!(m.base_balance_of(ALICE), 0);
    assert_eq!(m.token_balance_of(ALICE), 0);
}

#[test]
fn transfers_need_root() {
    let mut m = Module::new();
    m.set_base_balance(Origin::Root, ALICE, 10).unwrap();
    assert_eq!(
        m.transfer_base(Origin::Signed(ALICE), ALICE, BOB, 5),
        Err(Error::Unauthorized)
    );
    assert_eq!(m.base_balance_of(ALICE), 10);
}

#[test]
fn a_whole_balance_can_be_transferred() {
    let mut m = Module::new();
    m.set_base_balance(Origin::Root, ALICE, 10).unwrap();
    assert_eq!(m.transfer_base(Origin::Root, ALICE, BOB, 10), Ok(()));
    assert_eq!(m.base_balance_of(ALICE), 0);
    assert_eq!(m.base_balance_of(BOB), 10);
}

#[test]
fn transfer_beyond_the_balance_is_rejected() {
    let mut m = Module::new();
    m.set_token_balance(Origin::Root, ALICE, 10).unwrap();
    assert_eq!(
        m.transfer_token(Origin::Root, ALICE, BOB, 11),
        Err(Error::InsufficientBalance)
    );
    assert_eq!(m.token_balance_of(ALICE), 10);
    assert_eq!(m.token_balance_of(BOB), 0);
}

#[test]
fn transfer_into_a_full_account_overflows() {
    let mut m = Module::new();
    m.set_base_balance(Origin::Root, ALICE, 10).unwrap();
    m.set_base_balance(Origin::Root, BOB, u64::MAX).unwrap();
    assert_eq!(
        m.transfer_base(Origin::Root, ALICE, BOB, 1),
        Err(Error::ArithmeticOverflow)
    );
    assert_eq!(m.base_balance_of(ALICE), 10);
    assert_eq!(m.base_balance_of(BOB), u64::MAX);
}

#[test]
fn transfer_to_oneself_conserves_the_balance() {
    let mut m = Module::new();
    m.set_base_balance(Origin::Root, ALICE, 10).unwrap();
    assert_eq!(m.transfer_base(Origin::Root, ALICE, ALICE, 7), Ok(()));
    assert_eq!(m.base_balance_of(ALICE), 10);
}

#[test]
fn liquidity_shares_can_be_reassigned_by_root() {
    let mut m = Module::new();
    m.set_base_balance(Origin::Root, ALICE, 100).unwrap();
    m.set_token_balance(Origin::Root, ALICE, 100).unwrap();
    m.deposit_liquidity(Origin::Signed(ALICE), 100, 100).unwrap();
    assert_eq!(m.transfer_liquid(Origin::Root, ALICE, BOB, 40), Ok(()));
    assert_eq!(m.liquid_balance_of(ALICE), 60);
    assert_eq!(m.liquid_balance_of(BOB), 40);
    assert_eq!(m.total_liquid_supply(), 100);
    // the new holder can redeem the shares
    m.withdraw_liquidity(Origin::Signed(BOB), 40).unwrap();
    assert_eq!(m.base_balance_of(BOB), 40);
    assert_eq!(m.token_balance_of(BOB), 40);
}
