//! The constant-product pricing formula with a 0.3% trading fee.
//!
//! For an input of `amount` against reserves `(input_reserve, output_reserve)`
//! the quoted output is `(amount * 997 * output_reserve) /
//! (input_reserve * 1000 + amount * 997)`, rounded down. The fee and the
//! rounding remainder both stay in the pool, so a trade never decreases the
//! product of the two reserves.

use vstd::arithmetic::div_mod::{
    lemma_div_pos_is_pos, lemma_fundamental_div_mod, lemma_mod_division_less_than_divisor,
    lemma_multiply_divide_lt,
};
use vstd::arithmetic::mul::{lemma_mul_inequality, lemma_mul_is_commutative};
use vstd::prelude::*;

use crate::types::Balance;

verus! {

/// The fee-scaled input: a 0.3% fee leaves 997 of every 1000 input units.
pub open spec fn net_in(amount: int) -> int {
    amount * 997
}

/// The numerator of the pricing formula: net input times output reserve.
pub open spec fn quote_num(amount: int, output_reserve: int) -> int {
    net_in(amount) * output_reserve
}

/// The denominator of the pricing formula.
pub open spec fn quote_den(amount: int, input_reserve: int) -> int {
    input_reserve * 1000 + net_in(amount)
}

/// Whether the formula yields a price: a positive amount, two positive
/// reserves, and a numerator that fits the double-width intermediate.
pub open spec fn quote_defined(
    amount: Balance,
    input_reserve: Balance,
    output_reserve: Balance,
) -> bool {
    &&& amount > 0
    &&& input_reserve > 0
    &&& output_reserve > 0
    &&& quote_num(amount as int, output_reserve as int) <= u128::MAX
}

/// The quoted output amount, rounded down.
pub open spec fn quote_value(amount: int, input_reserve: int, output_reserve: int) -> int {
    quote_num(amount, output_reserve) / quote_den(amount, input_reserve)
}

/// A quoted output is non-negative and strictly below the output reserve, so
/// paying it out can neither underflow the reserve nor exhaust it.
pub proof fn lemma_quote_fits(amount: int, input_reserve: int, output_reserve: int)
    requires
        amount > 0,
        input_reserve > 0,
        output_reserve > 0,
    ensures
        0 <= quote_value(amount, input_reserve, output_reserve) < output_reserve,
{
    let num = quote_num(amount, output_reserve);
    let den = quote_den(amount, input_reserve);
    assert(net_in(amount) >= 997 && den >= 1000 + net_in(amount) && num >= 0) by (nonlinear_arith)
        requires
            amount > 0,
            input_reserve > 0,
            output_reserve > 0,
            num == net_in(amount) * output_reserve,
            den == quote_den(amount, input_reserve),
            net_in(amount) == amount * 997,
    ;
    lemma_div_pos_is_pos(num, den);
    assert(num < den * output_reserve) by (nonlinear_arith)
        requires
            input_reserve > 0,
            output_reserve > 0,
            net_in(amount) > 0,
            num == net_in(amount) * output_reserve,
            den == input_reserve * 1000 + net_in(amount),
    ;
    lemma_multiply_divide_lt(num, den, output_reserve);
}

/// A trade strictly grows the product of the reserves: the input side gains
/// the whole input while the output side loses no more than the fee-reduced
/// proportional share.
pub proof fn lemma_swap_grows_product(amount: int, input_reserve: int, output_reserve: int)
    requires
        amount > 0,
        input_reserve > 0,
        output_reserve > 0,
    ensures
        (input_reserve + amount) * (output_reserve - quote_value(
            amount,
            input_reserve,
            output_reserve,
        )) > input_reserve * output_reserve,
{
    let num = quote_num(amount, output_reserve);
    let den = quote_den(amount, input_reserve);
    let q = quote_value(amount, input_reserve, output_reserve);
    lemma_quote_fits(amount, input_reserve, output_reserve);
    lemma_fundamental_div_mod(num, den);
    lemma_mod_division_less_than_divisor(num, den);
    // num == den * q + num % den and the remainder is non-negative
    assert(den * q <= num);
    if q > 0 {
        // 997 * (input_reserve + amount) < den, so multiplying by q > 0:
        assert((997 * (input_reserve + amount)) * q < den * q) by (nonlinear_arith)
            requires
                q > 0,
                997 * (input_reserve + amount) < den,
        ;
        // den * q <= num == 997 * (amount * output_reserve)
        assert(num == 997 * (amount * output_reserve)) by (nonlinear_arith)
            requires
                num == (amount * 997) * output_reserve,
        ;
        assert((997 * (input_reserve + amount)) * q == 997 * ((input_reserve + amount) * q))
            by (nonlinear_arith);
        // cancel the common literal factor
        assert((input_reserve + amount) * q < amount * output_reserve);
    } else {
        assert((input_reserve + amount) * q < amount * output_reserve) by (nonlinear_arith)
            requires
                q == 0,
                amount > 0,
                output_reserve > 0,
        ;
    }
    assert((input_reserve + amount) * (output_reserve - q) > input_reserve * output_reserve)
        by (nonlinear_arith)
        requires
            (input_reserve + amount) * q < amount * output_reserve,
    ;
}

/// How close the quote is to the linear price: it never exceeds the plain
/// ratio `amount * output_reserve / input_reserve`, and it falls short of
/// the fee-discounted ratio `quote_num / quote_den` by less than one unit.
/// As the reserves grow large against the trade size, the quote therefore
/// approaches the linear ratio from below, bounded by the 997/1000 fee.
pub proof fn lemma_quote_bounds(amount: int, input_reserve: int, output_reserve: int)
    requires
        amount > 0,
        input_reserve > 0,
        output_reserve > 0,
    ensures
        quote_value(amount, input_reserve, output_reserve) * input_reserve <= amount
            * output_reserve,
        (quote_value(amount, input_reserve, output_reserve) + 1) * quote_den(amount, input_reserve)
            > quote_num(amount, output_reserve),
{
    let num = quote_num(amount, output_reserve);
    let den = quote_den(amount, input_reserve);
    let q = quote_value(amount, input_reserve, output_reserve);
    lemma_quote_fits(amount, input_reserve, output_reserve);
    lemma_fundamental_div_mod(num, den);
    lemma_mod_division_less_than_divisor(num, den);
    // within one unit of the fee-discounted ratio:
    assert((q + 1) * den > num) by (nonlinear_arith)
        requires
            num == den * q + num % den,
            num % den < den,
    ;
    // never above the linear ratio:
    assert(1000 * (q * input_reserve) <= q * den) by (nonlinear_arith)
        requires
            q >= 0,
            den >= input_reserve * 1000,
    ;
    assert(q * den <= num) by (nonlinear_arith)
        requires
            num == den * q + num % den,
            num % den >= 0,
    ;
    assert(num <= 1000 * (amount * output_reserve)) by (nonlinear_arith)
        requires
            num == (amount * 997) * output_reserve,
            amount > 0,
            output_reserve > 0,
    ;
    assert(q * input_reserve <= amount * output_reserve);
}

/// Quotes how much of the output asset a trade of `amount` input units
/// receives against the given reserves, or `None` when the formula yields no
/// price: a zero amount, a zero reserve, or a numerator beyond the widened
/// intermediate's range.
pub fn get_price(amount: Balance, input_reserve: Balance, output_reserve: Balance) -> (r: Option<
    Balance,
>)
    ensures
        r is Some <==> quote_defined(amount, input_reserve, output_reserve),
        r is Some ==> r->0 == quote_value(amount as int, input_reserve as int, output_reserve as int),
{
    if amount == 0 || input_reserve == 0 || output_reserve == 0 {
        return None;
    }
    proof {
        lemma_mul_inequality(amount as int, u64::MAX as int, 997);
    }
    let net_amount: u128 = (amount as u128) * 997;
    proof {
        lemma_mul_is_commutative(output_reserve as int, net_in(amount as int));
    }
    let numerator: u128 = match (output_reserve as u128).checked_mul(net_amount) {
        Some(v) => v,
        None => {
            return None;
        },
    };
    proof {
        lemma_mul_inequality(input_reserve as int, u64::MAX as int, 1000);
    }
    let denominator: u128 = (input_reserve as u128) * 1000 + net_amount;
    let result: u128 = numerator / denominator;
    proof {
        lemma_quote_fits(amount as int, input_reserve as int, output_reserve as int);
    }
    Some(result as u64)
}

} // verus!
