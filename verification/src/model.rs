//! The abstract state of the market and the exact transition of every
//! operation.
//!
//! Each operation of the pool is described twice: a spec function giving the
//! first failing check, if any, and a spec function giving the state after a
//! successful commit. The executable operations promise to realize exactly
//! these transitions, and the laws about sequences of operations are proved
//! over them.

use vstd::arithmetic::div_mod::{
    lemma_div_is_ordered, lemma_div_multiples_vanish, lemma_div_pos_is_pos,
    lemma_multiply_divide_lt,
};
use vstd::arithmetic::mul::{
    lemma_mul_inequality, lemma_mul_nonnegative, lemma_mul_strict_inequality,
};
use vstd::prelude::*;

use crate::ledger::{bal, map_sum};
use crate::swap::{quote_defined, quote_value};
use crate::types::{AccountId, Balance, Error};

verus! {

/// The canonical input amount whose quotes are cached as the price snapshot.
pub const PRICE_UNIT: Balance = 1000000000000;

/// The whole market state, abstractly: the three ledgers as maps from
/// account to balance, the pool's two reserves and share supply, and the
/// cached price snapshot.
#[verifier::ext_equal]
pub struct AmmView {
    /// Per-account balances of the base asset.
    pub base: Map<AccountId, Balance>,
    /// Per-account balances of the paired token.
    pub token: Map<AccountId, Balance>,
    /// Per-account balances of liquidity shares.
    pub liquid: Map<AccountId, Balance>,
    /// The pool's holding of the base asset.
    pub base_reserve: Balance,
    /// The pool's holding of the token.
    pub token_reserve: Balance,
    /// All liquidity shares outstanding.
    pub total_liquid_supply: Balance,
    /// Cached quote of `PRICE_UNIT` tokens in base units.
    pub base_price: Balance,
    /// Cached quote of `PRICE_UNIT` base units in tokens.
    pub token_price: Balance,
}

/// The state of a freshly created market: everything zero and empty.
pub open spec fn initial_view() -> AmmView {
    AmmView {
        base: Map::empty(),
        token: Map::empty(),
        liquid: Map::empty(),
        base_reserve: 0,
        token_reserve: 0,
        total_liquid_supply: 0,
        base_price: 0,
        token_price: 0,
    }
}

/// All three ledgers have finitely many entries. True of every state the
/// executable market can hold; stated where the sums over ledgers need it.
pub open spec fn maps_finite(v: AmmView) -> bool {
    &&& v.base.dom().finite()
    &&& v.token.dom().finite()
    &&& v.liquid.dom().finite()
}

/// The pool either does not exist yet, with both reserves empty, or it
/// exists and both reserves are strictly positive.
pub open spec fn pool_consistent(v: AmmView) -> bool {
    if v.total_liquid_supply == 0 {
        v.base_reserve == 0 && v.token_reserve == 0
    } else {
        v.base_reserve > 0 && v.token_reserve > 0
    }
}

/// Everything of the base asset in existence: account balances plus reserve.
pub open spec fn total_base(v: AmmView) -> int {
    map_sum(v.base) + v.base_reserve
}

/// Everything of the token in existence: account balances plus reserve.
pub open spec fn total_token(v: AmmView) -> int {
    map_sum(v.token) + v.token_reserve
}

/// Every liquidity share outstanding is held by some account.
pub open spec fn liquidity_backed(v: AmmView) -> bool {
    map_sum(v.liquid) == v.total_liquid_supply
}

/// The state with the price snapshot recomputed from the reserves: the
/// quotes of one canonical unit in both directions. When either quote is
/// undefined the previous snapshot is kept unchanged.
pub open spec fn with_prices(v: AmmView) -> AmmView {
    if quote_defined(PRICE_UNIT, v.token_reserve, v.base_reserve) && quote_defined(
        PRICE_UNIT,
        v.base_reserve,
        v.token_reserve,
    ) {
        AmmView {
            base_price: quote_value(
                PRICE_UNIT as int,
                v.token_reserve as int,
                v.base_reserve as int,
            ) as Balance,
            token_price: quote_value(
                PRICE_UNIT as int,
                v.base_reserve as int,
                v.token_reserve as int,
            ) as Balance,
            ..v
        }
    } else {
        v
    }
}

/// The token contribution a proportional deposit of `base_value` requires:
/// the proportional share of the token reserve, rounded up by one so that
/// truncation can never under-contribute. Meaningful only when the base
/// reserve is non-zero.
pub open spec fn deposit_token_amount(v: AmmView, base_value: Balance) -> int {
    base_value * v.token_reserve / (v.base_reserve as int) + 1
}

/// The liquidity shares a deposit mints: the deposited base value itself at
/// bootstrap, else the proportional share of the supply, rounded down.
pub open spec fn deposit_minted(v: AmmView, base_value: Balance) -> int {
    if v.total_liquid_supply == 0 {
        base_value as int
    } else {
        base_value * v.total_liquid_supply / (v.base_reserve as int)
    }
}

/// The first check a liquidity deposit fails, if any. The checks run in
/// this order and the first failure aborts the operation with its error.
pub open spec fn deposit_err(
    v: AmmView,
    sender: AccountId,
    base_value: Balance,
    token_value: Balance,
) -> Option<Error> {
    if base_value == 0 {
        Some(Error::NoPrice)
    } else if bal(v.base, sender) < base_value {
        Some(Error::InsufficientBalance)
    } else if bal(v.token, sender) < token_value {
        Some(Error::InsufficientBalance)
    } else if v.total_liquid_supply > 0 {
        if v.base_reserve == 0 {
            Some(Error::PoolInconsistent)
        } else if deposit_token_amount(v, base_value) > Balance::MAX {
            Some(Error::ArithmeticOverflow)
        } else if deposit_token_amount(v, base_value) > bal(v.token, sender) {
            Some(Error::InsufficientBalance)
        } else if deposit_minted(v, base_value) > Balance::MAX {
            Some(Error::ArithmeticOverflow)
        } else if v.base_reserve + base_value > Balance::MAX {
            Some(Error::ArithmeticOverflow)
        } else if v.token_reserve + deposit_token_amount(v, base_value) > Balance::MAX {
            Some(Error::ArithmeticOverflow)
        } else if bal(v.liquid, sender) + deposit_minted(v, base_value) > Balance::MAX {
            Some(Error::ArithmeticOverflow)
        } else if v.total_liquid_supply + deposit_minted(v, base_value) > Balance::MAX {
            Some(Error::ArithmeticOverflow)
        } else {
            None
        }
    } else if token_value == 0 {
        Some(Error::NoPrice)
    } else {
        None
    }
}

/// The committed ledger and pool fields after a successful liquidity
/// deposit, before the price snapshot is recomputed. At bootstrap the stated
/// base and token values become the initial reserves and the sender receives
/// one share per base unit; afterwards the required token contribution and
/// the minted shares are the proportional amounts.
pub open spec fn deposit_commit(
    v: AmmView,
    sender: AccountId,
    base_value: Balance,
    token_value: Balance,
) -> AmmView {
    if v.total_liquid_supply > 0 {
        let ta = deposit_token_amount(v, base_value);
        let lm = deposit_minted(v, base_value);
        AmmView {
            base: v.base.insert(sender, (bal(v.base, sender) - base_value) as Balance),
            token: v.token.insert(sender, (bal(v.token, sender) - ta) as Balance),
            liquid: v.liquid.insert(sender, (bal(v.liquid, sender) + lm) as Balance),
            base_reserve: (v.base_reserve + base_value) as Balance,
            token_reserve: (v.token_reserve + ta) as Balance,
            total_liquid_supply: (v.total_liquid_supply + lm) as Balance,
            ..v
        }
    } else {
        AmmView {
            base: v.base.insert(sender, (bal(v.base, sender) - base_value) as Balance),
            token: v.token.insert(sender, (bal(v.token, sender) - token_value) as Balance),
            liquid: v.liquid.insert(sender, base_value),
            base_reserve: base_value,
            token_reserve: token_value,
            total_liquid_supply: base_value,
            ..v
        }
    }
}

/// The state after a successful liquidity deposit, price snapshot included.
pub open spec fn deposit_view(
    v: AmmView,
    sender: AccountId,
    base_value: Balance,
    token_value: Balance,
) -> AmmView {
    with_prices(deposit_commit(v, sender, base_value, token_value))
}

/// The base payout of a withdrawal: the proportional share of the base
/// reserve, rounded down.
pub open spec fn withdraw_base_amount(v: AmmView, liquid_value: Balance) -> int {
    liquid_value * v.base_reserve / (v.total_liquid_supply as int)
}

/// The token payout of a withdrawal: the proportional share of the token
/// reserve, rounded down.
pub open spec fn withdraw_token_amount(v: AmmView, liquid_value: Balance) -> int {
    liquid_value * v.token_reserve / (v.total_liquid_supply as int)
}

/// The first check a withdrawal fails, if any.
pub open spec fn withdraw_err(v: AmmView, sender: AccountId, liquid_value: Balance) -> Option<
    Error,
> {
    if v.total_liquid_supply == 0 {
        Some(Error::PoolUninitialized)
    } else if liquid_value == 0 {
        Some(Error::NoPrice)
    } else if liquid_value > v.total_liquid_supply {
        Some(Error::InsufficientBalance)
    } else if liquid_value > bal(v.liquid, sender) {
        Some(Error::InsufficientBalance)
    } else if withdraw_base_amount(v, liquid_value) > v.base_reserve {
        Some(Error::ExceedsReserve)
    } else if withdraw_token_amount(v, liquid_value) > v.token_reserve {
        Some(Error::ExceedsReserve)
    } else if bal(v.base, sender) + withdraw_base_amount(v, liquid_value) > Balance::MAX {
        Some(Error::ArithmeticOverflow)
    } else if bal(v.token, sender) + withdraw_token_amount(v, liquid_value) > Balance::MAX {
        Some(Error::ArithmeticOverflow)
    } else {
        None
    }
}

/// The committed state after a successful withdrawal, before the price
/// snapshot: the shares are burned and the proportional payouts move from
/// the reserves to the sender.
pub open spec fn withdraw_commit(v: AmmView, sender: AccountId, liquid_value: Balance) -> AmmView {
    let ba = withdraw_base_amount(v, liquid_value);
    let ta = withdraw_token_amount(v, liquid_value);
    AmmView {
        liquid: v.liquid.insert(sender, (bal(v.liquid, sender) - liquid_value) as Balance),
        total_liquid_supply: (v.total_liquid_supply - liquid_value) as Balance,
        base: v.base.insert(sender, (bal(v.base, sender) + ba) as Balance),
        base_reserve: (v.base_reserve - ba) as Balance,
        token: v.token.insert(sender, (bal(v.token, sender) + ta) as Balance),
        token_reserve: (v.token_reserve - ta) as Balance,
        ..v
    }
}

/// The state after a successful withdrawal, price snapshot included.
pub open spec fn withdraw_view(v: AmmView, sender: AccountId, liquid_value: Balance) -> AmmView {
    with_prices(withdraw_commit(v, sender, liquid_value))
}

/// What a base-to-token trade pays out.
pub open spec fn trade_base_out(v: AmmView, base_value: Balance) -> int {
    quote_value(base_value as int, v.base_reserve as int, v.token_reserve as int)
}

/// The first check a base-to-token trade fails, if any.
pub open spec fn trade_base_err(v: AmmView, sender: AccountId, base_value: Balance) -> Option<
    Error,
> {
    if !quote_defined(base_value, v.base_reserve, v.token_reserve) {
        Some(Error::NoPrice)
    } else if bal(v.base, sender) < base_value {
        Some(Error::InsufficientBalance)
    } else if v.token_reserve < trade_base_out(v, base_value) {
        Some(Error::ExceedsReserve)
    } else if v.base_reserve + base_value > Balance::MAX {
        Some(Error::ArithmeticOverflow)
    } else if bal(v.token, sender) + trade_base_out(v, base_value) > Balance::MAX {
        Some(Error::ArithmeticOverflow)
    } else {
        None
    }
}

/// The committed state after a successful base-to-token trade, before the
/// price snapshot: the whole input joins the base reserve and the quoted
/// output leaves the token reserve.
pub open spec fn trade_base_commit(v: AmmView, sender: AccountId, base_value: Balance) -> AmmView {
    let out = trade_base_out(v, base_value);
    AmmView {
        base: v.base.insert(sender, (bal(v.base, sender) - base_value) as Balance),
        base_reserve: (v.base_reserve + base_value) as Balance,
        token: v.token.insert(sender, (bal(v.token, sender) + out) as Balance),
        token_reserve: (v.token_reserve - out) as Balance,
        ..v
    }
}

/// The state after a successful base-to-token trade, price snapshot included.
pub open spec fn trade_base_view(v: AmmView, sender: AccountId, base_value: Balance) -> AmmView {
    with_prices(trade_base_commit(v, sender, base_value))
}

/// What a token-to-base trade pays out.
pub open spec fn trade_token_out(v: AmmView, token_value: Balance) -> int {
    quote_value(token_value as int, v.token_reserve as int, v.base_reserve as int)
}

/// The first check a token-to-base trade fails, if any.
pub open spec fn trade_token_err(v: AmmView, sender: AccountId, token_value: Balance) -> Option<
    Error,
> {
    if !quote_defined(token_value, v.token_reserve, v.base_reserve) {
        Some(Error::NoPrice)
    } else if bal(v.token, sender) < token_value {
        Some(Error::InsufficientBalance)
    } else if v.base_reserve < trade_token_out(v, token_value) {
        Some(Error::ExceedsReserve)
    } else if v.token_reserve + token_value > Balance::MAX {
        Some(Error::ArithmeticOverflow)
    } else if bal(v.base, sender) + trade_token_out(v, token_value) > Balance::MAX {
        Some(Error::ArithmeticOverflow)
    } else {
        None
    }
}

/// The committed state after a successful token-to-base trade, before the
/// price snapshot.
pub open spec fn trade_token_commit(v: AmmView, sender: AccountId, token_value: Balance) -> AmmView {
    let out = trade_token_out(v, token_value);
    AmmView {
        token: v.token.insert(sender, (bal(v.token, sender) - token_value) as Balance),
        token_reserve: (v.token_reserve + token_value) as Balance,
        base: v.base.insert(sender, (bal(v.base, sender) + out) as Balance),
        base_reserve: (v.base_reserve - out) as Balance,
        ..v
    }
}

/// The state after a successful token-to-base trade, price snapshot included.
pub open spec fn trade_token_view(v: AmmView, sender: AccountId, token_value: Balance) -> AmmView {
    with_prices(trade_token_commit(v, sender, token_value))
}

/// Bounds on a proportional payout `shares * reserve / supply`: it is never
/// negative, never exceeds the reserve, falls strictly short of a positive
/// reserve while some shares remain, and pays the whole reserve out to the
/// last share.
pub proof fn lemma_share_amount_bounded(shares: int, reserve: int, supply: int)
    requires
        0 <= shares <= supply,
        0 < supply,
        0 <= reserve,
    ensures
        0 <= shares * reserve / supply <= reserve,
        shares < supply && reserve > 0 ==> shares * reserve / supply < reserve,
        shares == supply ==> shares * reserve / supply == reserve,
{
    lemma_mul_inequality(shares, supply, reserve);
    lemma_mul_nonnegative(shares, reserve);
    lemma_div_pos_is_pos(shares * reserve, supply);
    lemma_div_is_ordered(shares * reserve, supply * reserve, supply);
    lemma_div_multiples_vanish(reserve, supply);
    if shares < supply && reserve > 0 {
        lemma_mul_strict_inequality(shares, supply, reserve);
        lemma_multiply_divide_lt(shares * reserve, supply, reserve);
    }
}

} // verus!
