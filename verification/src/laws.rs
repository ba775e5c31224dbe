//! Laws of the market, stated over the abstract transitions of
//! `crate::model` and proved for every state and every input.

use vstd::arithmetic::div_mod::{lemma_div_multiples_vanish, lemma_div_pos_is_pos};
use vstd::arithmetic::mul::lemma_mul_nonnegative;
use vstd::prelude::*;

use crate::ledger::{bal, lemma_map_sum_bound, lemma_map_sum_set, map_sum};
use crate::model::{
    deposit_err, deposit_minted, deposit_token_amount, deposit_view, lemma_share_amount_bounded,
    liquidity_backed, maps_finite, pool_consistent, total_base, total_token, trade_base_err,
    trade_base_out, trade_base_view, trade_token_err, trade_token_out, trade_token_view,
    withdraw_base_amount, withdraw_err, withdraw_token_amount, withdraw_view, AmmView,
};
use crate::swap::lemma_quote_fits;
use crate::types::{AccountId, Balance};

verus! {

/// One unprivileged pool operation, as data, so that laws can speak about
/// whole sequences of operations.
pub enum PoolOp {
    /// `deposit_liquidity(sender, base_value, token_value)`.
    Deposit { sender: AccountId, base_value: Balance, token_value: Balance },
    /// `withdraw_liquidity(sender, liquid_value)`.
    Withdraw { sender: AccountId, liquid_value: Balance },
    /// `trade_base_to_token(sender, base_value)`.
    TradeBaseToToken { sender: AccountId, base_value: Balance },
    /// `trade_token_to_base(sender, token_value)`.
    TradeTokenToBase { sender: AccountId, token_value: Balance },
}

/// The state after one operation: the committed transition when every check
/// passes, and the unchanged state when any check fails.
pub open spec fn apply_op(v: AmmView, op: PoolOp) -> AmmView {
    match op {
        PoolOp::Deposit { sender, base_value, token_value } => {
            if deposit_err(v, sender, base_value, token_value) is None {
                deposit_view(v, sender, base_value, token_value)
            } else {
                v
            }
        },
        PoolOp::Withdraw { sender, liquid_value } => {
            if withdraw_err(v, sender, liquid_value) is None {
                withdraw_view(v, sender, liquid_value)
            } else {
                v
            }
        },
        PoolOp::TradeBaseToToken { sender, base_value } => {
            if trade_base_err(v, sender, base_value) is None {
                trade_base_view(v, sender, base_value)
            } else {
                v
            }
        },
        PoolOp::TradeTokenToBase { sender, token_value } => {
            if trade_token_err(v, sender, token_value) is None {
                trade_token_view(v, sender, token_value)
            } else {
                v
            }
        },
    }
}

/// The state after a whole sequence of operations, applied left to right.
pub open spec fn apply_ops(v: AmmView, ops: Seq<PoolOp>) -> AmmView
    decreases ops.len(),
{
    if ops.len() == 0 {
        v
    } else {
        apply_ops(apply_op(v, ops[0]), ops.subrange(1, ops.len() as int))
    }
}

/// One operation, successful or failed, conserves the total of each traded
/// asset over all accounts and the reserve, keeps every outstanding
/// liquidity share held by some account, and preserves the pool's
/// consistency.
pub proof fn lemma_op_preserves(v: AmmView, op: PoolOp)
    requires
        maps_finite(v),
        pool_consistent(v),
        liquidity_backed(v),
    ensures
        maps_finite(apply_op(v, op)),
        pool_consistent(apply_op(v, op)),
        liquidity_backed(apply_op(v, op)),
        total_base(apply_op(v, op)) == total_base(v),
        total_token(apply_op(v, op)) == total_token(v),
{
    match op {
        PoolOp::Deposit { sender, base_value, token_value } => {
            if deposit_err(v, sender, base_value, token_value) is None {
                if v.total_liquid_supply > 0 {
                    let ta = deposit_token_amount(v, base_value);
                    let lm = deposit_minted(v, base_value);
                    lemma_mul_nonnegative(base_value as int, v.token_reserve as int);
                    lemma_div_pos_is_pos(
                        base_value * v.token_reserve,
                        v.base_reserve as int,
                    );
                    lemma_mul_nonnegative(base_value as int, v.total_liquid_supply as int);
                    lemma_div_pos_is_pos(
                        base_value * v.total_liquid_supply,
                        v.base_reserve as int,
                    );
                    lemma_map_sum_set(
                        v.base,
                        sender,
                        (bal(v.base, sender) - base_value) as Balance,
                    );
                    lemma_map_sum_set(v.token, sender, (bal(v.token, sender) - ta) as Balance);
                    lemma_map_sum_set(v.liquid, sender, (bal(v.liquid, sender) + lm) as Balance);
                } else {
                    lemma_map_sum_set(
                        v.base,
                        sender,
                        (bal(v.base, sender) - base_value) as Balance,
                    );
                    lemma_map_sum_set(
                        v.token,
                        sender,
                        (bal(v.token, sender) - token_value) as Balance,
                    );
                    lemma_map_sum_set(v.liquid, sender, base_value);
                    lemma_map_sum_bound(v.liquid, sender);
                }
            }
        },
        PoolOp::Withdraw { sender, liquid_value } => {
            if withdraw_err(v, sender, liquid_value) is None {
                let ba = withdraw_base_amount(v, liquid_value);
                let ta = withdraw_token_amount(v, liquid_value);
                lemma_share_amount_bounded(
                    liquid_value as int,
                    v.base_reserve as int,
                    v.total_liquid_supply as int,
                );
                lemma_share_amount_bounded(
                    liquid_value as int,
                    v.token_reserve as int,
                    v.total_liquid_supply as int,
                );
                lemma_map_sum_set(
                    v.liquid,
                    sender,
                    (bal(v.liquid, sender) - liquid_value) as Balance,
                );
                lemma_map_sum_set(v.base, sender, (bal(v.base, sender) + ba) as Balance);
                lemma_map_sum_set(v.token, sender, (bal(v.token, sender) + ta) as Balance);
            }
        },
        PoolOp::TradeBaseToToken { sender, base_value } => {
            if trade_base_err(v, sender, base_value) is None {
                let out = trade_base_out(v, base_value);
                lemma_quote_fits(base_value as int, v.base_reserve as int, v.token_reserve as int);
                lemma_map_sum_set(v.base, sender, (bal(v.base, sender) - base_value) as Balance);
                lemma_map_sum_set(v.token, sender, (bal(v.token, sender) + out) as Balance);
            }
        },
        PoolOp::TradeTokenToBase { sender, token_value } => {
            if trade_token_err(v, sender, token_value) is None {
                let out = trade_token_out(v, token_value);
                lemma_quote_fits(token_value as int, v.token_reserve as int, v.base_reserve as int);
                lemma_map_sum_set(v.token, sender, (bal(v.token, sender) - token_value) as Balance);
                lemma_map_sum_set(v.base, sender, (bal(v.base, sender) + out) as Balance);
            }
        },
    }
}

/// Conservation: across any sequence of deposits, withdrawals and trades,
/// successful or failed, the total of the base asset over all accounts and
/// the pool's reserve is unchanged, and likewise for the token. Every
/// outstanding liquidity share stays held by some account and the pool
/// stays consistent. The privileged operations stand outside this sequence:
/// the transfers conserve the totals by their own contracts, and only the
/// balance overwrite can change them.
pub proof fn lemma_conservation(v: AmmView, ops: Seq<PoolOp>)
    requires
        maps_finite(v),
        pool_consistent(v),
        liquidity_backed(v),
    ensures
        total_base(apply_ops(v, ops)) == total_base(v),
        total_token(apply_ops(v, ops)) == total_token(v),
        pool_consistent(apply_ops(v, ops)),
        liquidity_backed(apply_ops(v, ops)),
        maps_finite(apply_ops(v, ops)),
    decreases ops.len(),
{
    if ops.len() > 0 {
        lemma_op_preserves(v, ops[0]);
        lemma_conservation(apply_op(v, ops[0]), ops.subrange(1, ops.len() as int));
    }
}

/// Bootstrap correctness: a deposit of `(B, K)` into an empty pool makes
/// the reserves exactly `(B, K)`, the share supply exactly `B`, and the
/// sender's share balance exactly `B`, while the sender pays exactly `B`
/// base units and `K` tokens.
pub proof fn lemma_bootstrap_deposit(
    v: AmmView,
    sender: AccountId,
    base_value: Balance,
    token_value: Balance,
)
    requires
        v.total_liquid_supply == 0,
        deposit_err(v, sender, base_value, token_value) is None,
    ensures
        deposit_view(v, sender, base_value, token_value).base_reserve == base_value,
        deposit_view(v, sender, base_value, token_value).token_reserve == token_value,
        deposit_view(v, sender, base_value, token_value).total_liquid_supply == base_value,
        bal(deposit_view(v, sender, base_value, token_value).liquid, sender) == base_value,
        bal(deposit_view(v, sender, base_value, token_value).base, sender) == bal(v.base, sender)
            - base_value,
        bal(deposit_view(v, sender, base_value, token_value).token, sender) == bal(v.token, sender)
            - token_value,
{
}

/// Proportional deposit rounding: doubling the base side of an initialized
/// pool — depositing exactly the current base reserve — requires a token
/// contribution of exactly one more than the token reserve, and mints
/// exactly the current supply of new shares.
pub proof fn lemma_deposit_doubles_pool(v: AmmView, base_value: Balance)
    requires
        v.total_liquid_supply > 0,
        v.base_reserve > 0,
        base_value == v.base_reserve,
    ensures
        deposit_token_amount(v, base_value) == v.token_reserve + 1,
        deposit_minted(v, base_value) == v.total_liquid_supply,
{
    lemma_div_multiples_vanish(v.token_reserve as int, v.base_reserve as int);
    lemma_div_multiples_vanish(v.total_liquid_supply as int, v.base_reserve as int);
}

/// A sole holder — one whose share balance is the whole supply — who redeems
/// every share receives both reserves whole, with no rounding remainder, and
/// the pool returns to empty. The two bounds only ask that the payouts fit
/// the balance type.
pub proof fn lemma_full_withdrawal(v: AmmView, sender: AccountId)
    requires
        v.total_liquid_supply > 0,
        bal(v.liquid, sender) == v.total_liquid_supply,
        bal(v.base, sender) + v.base_reserve <= Balance::MAX,
        bal(v.token, sender) + v.token_reserve <= Balance::MAX,
    ensures
        withdraw_err(v, sender, v.total_liquid_supply) is None,
        withdraw_view(v, sender, v.total_liquid_supply).total_liquid_supply == 0,
        withdraw_view(v, sender, v.total_liquid_supply).base_reserve == 0,
        withdraw_view(v, sender, v.total_liquid_supply).token_reserve == 0,
        bal(withdraw_view(v, sender, v.total_liquid_supply).base, sender) == bal(v.base, sender)
            + v.base_reserve,
        bal(withdraw_view(v, sender, v.total_liquid_supply).token, sender) == bal(v.token, sender)
            + v.token_reserve,
        bal(withdraw_view(v, sender, v.total_liquid_supply).liquid, sender) == 0,
{
    lemma_share_amount_bounded(
        v.total_liquid_supply as int,
        v.base_reserve as int,
        v.total_liquid_supply as int,
    );
    lemma_share_amount_bounded(
        v.total_liquid_supply as int,
        v.token_reserve as int,
        v.total_liquid_supply as int,
    );
}

/// Withdrawal round-trip: a bootstrap deposit of `(B, K)` followed at once
/// by a withdrawal of the whole minted share balance `B` is accepted,
/// returns exactly the deposited amounts — the genesis deposit introduces
/// no rounding — and leaves the pool empty again.
pub proof fn lemma_deposit_withdraw_roundtrip(
    v: AmmView,
    sender: AccountId,
    base_value: Balance,
    token_value: Balance,
)
    requires
        v.total_liquid_supply == 0,
        deposit_err(v, sender, base_value, token_value) is None,
    ensures
        ({
            let v1 = deposit_view(v, sender, base_value, token_value);
            &&& withdraw_err(v1, sender, base_value) is None
            &&& bal(withdraw_view(v1, sender, base_value).base, sender) == bal(v.base, sender)
            &&& bal(withdraw_view(v1, sender, base_value).token, sender) == bal(v.token, sender)
            &&& bal(withdraw_view(v1, sender, base_value).liquid, sender) == 0
            &&& withdraw_view(v1, sender, base_value).total_liquid_supply == 0
            &&& withdraw_view(v1, sender, base_value).base_reserve == 0
            &&& withdraw_view(v1, sender, base_value).token_reserve == 0
        }),
{
    let v1 = deposit_view(v, sender, base_value, token_value);
    lemma_bootstrap_deposit(v, sender, base_value, token_value);
    lemma_div_multiples_vanish(base_value as int, base_value as int);
    lemma_div_multiples_vanish(token_value as int, base_value as int);
}

} // verus!
