//! Checked balance arithmetic.
//!
//! Every pool and swap computation routes through these helpers: additions
//! and subtractions are checked, and the multiply-then-divide shape of the
//! pricing formulas is carried out in a double-width intermediate, because
//! a product of two balances can overflow the native width even for
//! economically reasonable inputs.

use vstd::arithmetic::mul::lemma_mul_upper_bound;
use vstd::prelude::*;

use crate::types::{Balance, Error};

verus! {

/// Adds two balances, or reports that the sum is not representable.
pub fn checked_add(a: Balance, b: Balance) -> (r: Result<Balance, Error>)
    ensures
        a + b <= Balance::MAX ==> r == Ok::<Balance, Error>((a + b) as Balance),
        a + b > Balance::MAX ==> r == Err::<Balance, Error>(Error::ArithmeticOverflow),
{
    if a <= Balance::MAX - b {
        Ok(a + b)
    } else {
        Err(Error::ArithmeticOverflow)
    }
}

/// Subtracts `b` from `a`, or reports that the difference would be negative.
pub fn checked_sub(a: Balance, b: Balance) -> (r: Result<Balance, Error>)
    ensures
        a >= b ==> r == Ok::<Balance, Error>((a - b) as Balance),
        a < b ==> r == Err::<Balance, Error>(Error::ArithmeticUnderflow),
{
    if a >= b {
        Ok(a - b)
    } else {
        Err(Error::ArithmeticUnderflow)
    }
}

/// Computes `a * b / d` exactly, widening the product to twice the native
/// width so the multiplication itself cannot overflow. Fails when `d` is
/// zero or when the quotient does not fit in a balance.
pub fn mul_div(a: Balance, b: Balance, d: Balance) -> (r: Result<Balance, Error>)
    ensures
        d == 0 ==> r == Err::<Balance, Error>(Error::DivisionByZero),
        d > 0 && a * b / (d as int) > Balance::MAX ==> r == Err::<Balance, Error>(
            Error::ArithmeticOverflow,
        ),
        d > 0 && a * b / (d as int) <= Balance::MAX ==> r == Ok::<Balance, Error>(
            (a * b / (d as int)) as Balance,
        ),
{
    if d == 0 {
        return Err(Error::DivisionByZero);
    }
    proof {
        lemma_mul_upper_bound(a as int, u64::MAX as int, b as int, u64::MAX as int);
    }
    let wide: u128 = (a as u128) * (b as u128);
    let q: u128 = wide / (d as u128);
    if q > Balance::MAX as u128 {
        Err(Error::ArithmeticOverflow)
    } else {
        Ok(q as u64)
    }
}

} // verus!
