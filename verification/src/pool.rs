//! The market module: the three ledgers, the pool state and the price
//! snapshot, with every operation the host can invoke.
//!
//! Every operation validates all of its preconditions, computes every new
//! value, and only then writes: a failing check returns its error with the
//! state untouched. The contracts promise exactly the transitions of
//! `crate::model`, and in addition that the total of each asset over all
//! accounts and the pool is conserved by the unprivileged operations.

use vstd::arithmetic::mul::lemma_mul_is_commutative;
use vstd::prelude::*;

use crate::arith;
use crate::ledger::{
    bal, lemma_map_sum_bound, lemma_map_sum_nonneg, lemma_map_sum_set, map_sum, transfer_err,
    transfer_map, AssetLedger,
};
use crate::model::{
    deposit_commit, deposit_err, deposit_minted, deposit_view, initial_view,
    lemma_share_amount_bounded, liquidity_backed, maps_finite, pool_consistent, total_base,
    total_token, trade_base_commit, trade_base_err, trade_base_out, trade_base_view,
    trade_token_commit, trade_token_err, trade_token_out, trade_token_view, with_prices,
    withdraw_commit, withdraw_err, withdraw_view, AmmView, PRICE_UNIT,
};
use crate::swap;
use crate::types::{AccountId, Balance, Error, Event, Origin};

verus! {

/// The whole market: per-account ledgers for the base asset, the token and
/// the liquidity shares, the pool's reserves and share supply, and the
/// cached price snapshot.
pub struct Module {
    base: AssetLedger,
    token: AssetLedger,
    liquid: AssetLedger,
    base_reserve: Balance,
    token_reserve: Balance,
    total_liquid_supply: Balance,
    base_price: Balance,
    token_price: Balance,
}

impl View for Module {
    type V = AmmView;

    closed spec fn view(&self) -> AmmView {
        AmmView {
            base: self.base@,
            token: self.token@,
            liquid: self.liquid@,
            base_reserve: self.base_reserve,
            token_reserve: self.token_reserve,
            total_liquid_supply: self.total_liquid_supply,
            base_price: self.base_price,
            token_price: self.token_price,
        }
    }
}

impl Module {
    /// The ledgers of a market always have finitely many entries.
    pub proof fn lemma_finite(&self)
        ensures
            maps_finite(self@),
    {
        self.base.lemma_finite();
        self.token.lemma_finite();
        self.liquid.lemma_finite();
    }

    /// Creates a market with no balances, no pool and a zero snapshot.
    pub fn new() -> (m: Module)
        ensures
            m@ == initial_view(),
    {
        let m = Module {
            base: AssetLedger::new(),
            token: AssetLedger::new(),
            liquid: AssetLedger::new(),
            base_reserve: 0,
            token_reserve: 0,
            total_liquid_supply: 0,
            base_price: 0,
            token_price: 0,
        };
        proof {
            assert(m@ =~= initial_view());
        }
        m
    }

    /// Reads an account's base-asset balance.
    pub fn base_balance_of(&self, account: AccountId) -> (b: Balance)
        ensures
            b == bal(self@.base, account),
    {
        self.base.balance_of(account)
    }

    /// Reads an account's token balance.
    pub fn token_balance_of(&self, account: AccountId) -> (b: Balance)
        ensures
            b == bal(self@.token, account),
    {
        self.token.balance_of(account)
    }

    /// Reads an account's liquidity-share balance.
    pub fn liquid_balance_of(&self, account: AccountId) -> (b: Balance)
        ensures
            b == bal(self@.liquid, account),
    {
        self.liquid.balance_of(account)
    }

    /// Reads the pool's base-asset reserve.
    pub fn base_pool_balance(&self) -> (b: Balance)
        ensures
            b == self@.base_reserve,
    {
        self.base_reserve
    }

    /// Reads the pool's token reserve.
    pub fn token_pool_balance(&self) -> (b: Balance)
        ensures
            b == self@.token_reserve,
    {
        self.token_reserve
    }

    /// Reads the total liquidity-share supply.
    pub fn total_liquid_supply(&self) -> (b: Balance)
        ensures
            b == self@.total_liquid_supply,
    {
        self.total_liquid_supply
    }

    /// Reads the cached quote of one canonical unit of the token, in base
    /// units.
    pub fn base_price(&self) -> (b: Balance)
        ensures
            b == self@.base_price,
    {
        self.base_price
    }

    /// Reads the cached quote of one canonical unit of the base asset, in
    /// tokens.
    pub fn token_price(&self) -> (b: Balance)
        ensures
            b == self@.token_price,
    {
        self.token_price
    }

    /// Recomputes the price snapshot from the current reserves by quoting
    /// one canonical unit in each direction. When either quote is undefined
    /// the previous snapshot stays.
    pub fn update_prices(&mut self)
        ensures
            final(self)@ == with_prices(old(self)@),
    {
        let bp = swap::get_price(PRICE_UNIT, self.token_reserve, self.base_reserve);
        let tp = swap::get_price(PRICE_UNIT, self.base_reserve, self.token_reserve);
        match (bp, tp) {
            (Some(b), Some(t)) => {
                self.base_price = b;
                self.token_price = t;
            },
            _ => {},
        }
        proof {
            assert(self@ =~= with_prices(old(self)@));
        }
    }

    /// Privileged: overwrites an account's base-asset balance, bypassing
    /// every pool rule. Only the root caller may do this.
    pub fn set_base_balance(&mut self, origin: Origin, account: AccountId, value: Balance) -> (r:
        Result<(), Error>)
        ensures
            origin != Origin::Root ==> r == Err::<(), Error>(Error::Unauthorized) && final(self)@
                == old(self)@,
            origin == Origin::Root ==> r == Ok::<(), Error>(()) && final(self)@ == (AmmView {
                base: old(self)@.base.insert(account, value),
                ..old(self)@
            }),
    {
        match origin {
            Origin::Root => {
                self.base.set_balance(account, value);
                Ok(())
            },
            _ => Err(Error::Unauthorized),
        }
    }

    /// Privileged: overwrites an account's token balance, bypassing every
    /// pool rule. Only the root caller may do this.
    pub fn set_token_balance(&mut self, origin: Origin, account: AccountId, value: Balance) -> (r:
        Result<(), Error>)
        ensures
            origin != Origin::Root ==> r == Err::<(), Error>(Error::Unauthorized) && final(self)@
                == old(self)@,
            origin == Origin::Root ==> r == Ok::<(), Error>(()) && final(self)@ == (AmmView {
                token: old(self)@.token.insert(account, value),
                ..old(self)@
            }),
    {
        match origin {
            Origin::Root => {
                self.token.set_balance(account, value);
                Ok(())
            },
            _ => Err(Error::Unauthorized),
        }
    }

    /// Privileged: moves base-asset balance between two accounts. The whole
    /// balance may be transferred; the sum of all base balances and the
    /// reserves are unchanged.
    pub fn transfer_base(
        &mut self,
        origin: Origin,
        from: AccountId,
        to: AccountId,
        amount: Balance,
    ) -> (r: Result<(), Error>)
        ensures
            origin != Origin::Root ==> r == Err::<(), Error>(Error::Unauthorized) && final(self)@
                == old(self)@,
            origin == Origin::Root ==> match transfer_err(old(self)@.base, from, to, amount) {
                Some(e) => r == Err::<(), Error>(e) && final(self)@ == old(self)@,
                None => r == Ok::<(), Error>(()) && final(self)@ == (AmmView {
                    base: transfer_map(old(self)@.base, from, to, amount),
                    ..old(self)@
                }),
            },
            r is Ok ==> total_base(final(self)@) == total_base(old(self)@),
    {
        match origin {
            Origin::Root => self.base.transfer(from, to, amount),
            _ => Err(Error::Unauthorized),
        }
    }

    /// Privileged: moves token balance between two accounts.
    pub fn transfer_token(
        &mut self,
        origin: Origin,
        from: AccountId,
        to: AccountId,
        amount: Balance,
    ) -> (r: Result<(), Error>)
        ensures
            origin != Origin::Root ==> r == Err::<(), Error>(Error::Unauthorized) && final(self)@
                == old(self)@,
            origin == Origin::Root ==> match transfer_err(old(self)@.token, from, to, amount) {
                Some(e) => r == Err::<(), Error>(e) && final(self)@ == old(self)@,
                None => r == Ok::<(), Error>(()) && final(self)@ == (AmmView {
                    token: transfer_map(old(self)@.token, from, to, amount),
                    ..old(self)@
                }),
            },
            r is Ok ==> total_token(final(self)@) == total_token(old(self)@),
    {
        match origin {
            Origin::Root => self.token.transfer(from, to, amount),
            _ => Err(Error::Unauthorized),
        }
    }

    /// Deposits liquidity. The first deposit sets the initial reserves from
    /// the stated base and token values and mints one share per base unit;
    /// a later deposit contributes the proportional token amount, rounded up
    /// by one, and mints the proportional share of the supply, rounded down.
    /// A failing check aborts with its error and writes nothing; a committed
    /// deposit conserves both asset totals, keeps every outstanding share
    /// held by some account, and leaves the pool consistent.
    pub fn deposit_liquidity(
        &mut self,
        origin: Origin,
        base_value: Balance,
        token_value: Balance,
    ) -> (r: Result<Event, Error>)
        ensures
            origin == Origin::Root ==> r == Err::<Event, Error>(Error::Unauthorized)
                && final(self)@ == old(self)@,
            origin matches Origin::Signed(sender) ==> match deposit_err(
                old(self)@,
                sender,
                base_value,
                token_value,
            ) {
                Some(e) => r == Err::<Event, Error>(e) && final(self)@ == old(self)@,
                None => r == Ok::<Event, Error>(
                    Event::DepositLiquidity(
                        sender,
                        deposit_minted(old(self)@, base_value) as Balance,
                    ),
                ) && final(self)@ == deposit_view(old(self)@, sender, base_value, token_value),
            },
            r is Ok ==> pool_consistent(final(self)@),
            r is Ok && pool_consistent(old(self)@) ==> total_base(final(self)@) == total_base(
                old(self)@,
            ) && total_token(final(self)@) == total_token(old(self)@),
            r is Ok && liquidity_backed(old(self)@) ==> liquidity_backed(final(self)@),
    {
        let sender = match origin {
            Origin::Signed(s) => s,
            Origin::Root => {
                return Err(Error::Unauthorized);
            },
        };
        if base_value == 0 {
            return Err(Error::NoPrice);
        }
        let sender_base_balance = self.base.balance_of(sender);
        if sender_base_balance < base_value {
            return Err(Error::InsufficientBalance);
        }
        let sender_token_balance = self.token.balance_of(sender);
        if sender_token_balance < token_value {
            return Err(Error::InsufficientBalance);
        }
        proof {
            self.lemma_finite();
        }
        let total_supply = self.total_liquid_supply;
        let base_reserve = self.base_reserve;
        let token_reserve = self.token_reserve;
        if total_supply > 0 {
            if base_reserve == 0 {
                return Err(Error::PoolInconsistent);
            }
            let token_quotient = match arith::mul_div(base_value, token_reserve, base_reserve) {
                Ok(x) => x,
                Err(_) => {
                    return Err(Error::ArithmeticOverflow);
                },
            };
            let token_amount = match arith::checked_add(token_quotient, 1) {
                Ok(x) => x,
                Err(_) => {
                    return Err(Error::ArithmeticOverflow);
                },
            };
            if token_amount > sender_token_balance {
                return Err(Error::InsufficientBalance);
            }
            let liquid_minted = match arith::mul_div(base_value, total_supply, base_reserve) {
                Ok(x) => x,
                Err(_) => {
                    return Err(Error::ArithmeticOverflow);
                },
            };
            let base_newbal = match arith::checked_add(base_reserve, base_value) {
                Ok(x) => x,
                Err(e) => {
                    return Err(e);
                },
            };
            let token_newbal = match arith::checked_add(token_reserve, token_amount) {
                Ok(x) => x,
                Err(e) => {
                    return Err(e);
                },
            };
            let sender_liquid_balance = self.liquid.balance_of(sender);
            let liquid_newbal = match arith::checked_add(sender_liquid_balance, liquid_minted) {
                Ok(x) => x,
                Err(e) => {
                    return Err(e);
                },
            };
            let supply_newbal = match arith::checked_add(total_supply, liquid_minted) {
                Ok(x) => x,
                Err(e) => {
                    return Err(e);
                },
            };
            proof {
                lemma_map_sum_set(
                    old(self)@.base,
                    sender,
                    (sender_base_balance - base_value) as Balance,
                );
                lemma_map_sum_set(
                    old(self)@.token,
                    sender,
                    (sender_token_balance - token_amount) as Balance,
                );
                lemma_map_sum_set(old(self)@.liquid, sender, liquid_newbal);
            }
            self.base.set_balance(sender, sender_base_balance - base_value);
            self.base_reserve = base_newbal;
            self.token.set_balance(sender, sender_token_balance - token_amount);
            self.token_reserve = token_newbal;
            self.liquid.set_balance(sender, liquid_newbal);
            self.total_liquid_supply = supply_newbal;
            proof {
                assert(self@ =~= deposit_commit(old(self)@, sender, base_value, token_value));
            }
            self.update_prices();
            Ok(Event::DepositLiquidity(sender, liquid_minted))
        } else {
            if token_value == 0 {
                return Err(Error::NoPrice);
            }
            proof {
                lemma_map_sum_set(
                    old(self)@.base,
                    sender,
                    (sender_base_balance - base_value) as Balance,
                );
                lemma_map_sum_set(
                    old(self)@.token,
                    sender,
                    (sender_token_balance - token_value) as Balance,
                );
                lemma_map_sum_set(old(self)@.liquid, sender, base_value);
                if liquidity_backed(old(self)@) {
                    lemma_map_sum_bound(old(self)@.liquid, sender);
                    lemma_map_sum_nonneg(old(self)@.liquid);
                }
            }
            self.base_reserve = base_value;
            self.base.set_balance(sender, sender_base_balance - base_value);
            self.token_reserve = token_value;
            self.token.set_balance(sender, sender_token_balance - token_value);
            self.total_liquid_supply = base_value;
            self.liquid.set_balance(sender, base_value);
            proof {
                assert(self@ =~= deposit_commit(old(self)@, sender, base_value, token_value));
            }
            self.update_prices();
            Ok(Event::DepositLiquidity(sender, base_value))
        }
    }

    /// Redeems liquidity shares for the proportional part of both reserves,
    /// rounded down, so the pool never pays out more than the shares'
    /// entitlement; the rounding remainder stays with the remaining holders.
    /// A failing check aborts with its error and writes nothing; a committed
    /// withdrawal conserves both asset totals, keeps every outstanding share
    /// held by some account, and leaves a consistent pool consistent:
    /// burning the last share empties both reserves exactly.
    pub fn withdraw_liquidity(&mut self, origin: Origin, liquid_value: Balance) -> (r: Result<
        Event,
        Error,
    >)
        ensures
            origin == Origin::Root ==> r == Err::<Event, Error>(Error::Unauthorized)
                && final(self)@ == old(self)@,
            origin matches Origin::Signed(sender) ==> match withdraw_err(
                old(self)@,
                sender,
                liquid_value,
            ) {
                Some(e) => r == Err::<Event, Error>(e) && final(self)@ == old(self)@,
                None => r == Ok::<Event, Error>(Event::WithdrawLiquidity(sender, liquid_value))
                    && final(self)@ == withdraw_view(old(self)@, sender, liquid_value),
            },
            r is Ok && pool_consistent(old(self)@) ==> pool_consistent(final(self)@),
            r is Ok ==> total_base(final(self)@) == total_base(old(self)@) && total_token(
                final(self)@,
            ) == total_token(old(self)@),
            r is Ok && liquidity_backed(old(self)@) ==> liquidity_backed(final(self)@),
    {
        let sender = match origin {
            Origin::Signed(s) => s,
            Origin::Root => {
                return Err(Error::Unauthorized);
            },
        };
        let total_supply = self.total_liquid_supply;
        if total_supply == 0 {
            return Err(Error::PoolUninitialized);
        }
        if liquid_value == 0 {
            return Err(Error::NoPrice);
        }
        if liquid_value > total_supply {
            return Err(Error::InsufficientBalance);
        }
        let base_reserve = self.base_reserve;
        let token_reserve = self.token_reserve;
        proof {
            self.lemma_finite();
            lemma_share_amount_bounded(
                liquid_value as int,
                base_reserve as int,
                total_supply as int,
            );
            lemma_share_amount_bounded(
                liquid_value as int,
                token_reserve as int,
                total_supply as int,
            );
        }
        let base_amount = match arith::mul_div(liquid_value, base_reserve, total_supply) {
            Ok(x) => x,
            Err(e) => {
                return Err(e);
            },
        };
        let token_amount = match arith::mul_div(liquid_value, token_reserve, total_supply) {
            Ok(x) => x,
            Err(e) => {
                return Err(e);
            },
        };
        let sender_liquid_balance = self.liquid.balance_of(sender);
        if liquid_value > sender_liquid_balance {
            return Err(Error::InsufficientBalance);
        }
        let sender_base_balance = self.base.balance_of(sender);
        if base_amount > base_reserve {
            return Err(Error::ExceedsReserve);
        }
        let sender_token_balance = self.token.balance_of(sender);
        if token_amount > token_reserve {
            return Err(Error::ExceedsReserve);
        }
        let base_newbal = match arith::checked_add(sender_base_balance, base_amount) {
            Ok(x) => x,
            Err(e) => {
                return Err(e);
            },
        };
        let token_newbal = match arith::checked_add(sender_token_balance, token_amount) {
            Ok(x) => x,
            Err(e) => {
                return Err(e);
            },
        };
        proof {
            lemma_map_sum_set(
                old(self)@.liquid,
                sender,
                (sender_liquid_balance - liquid_value) as Balance,
            );
            lemma_map_sum_set(old(self)@.base, sender, base_newbal);
            lemma_map_sum_set(old(self)@.token, sender, token_newbal);
        }
        self.liquid.set_balance(sender, sender_liquid_balance - liquid_value);
        self.total_liquid_supply = total_supply - liquid_value;
        self.base.set_balance(sender, base_newbal);
        self.base_reserve = base_reserve - base_amount;
        self.token.set_balance(sender, token_newbal);
        self.token_reserve = token_reserve - token_amount;
        proof {
            assert(self@ =~= withdraw_commit(old(self)@, sender, liquid_value));
        }
        self.update_prices();
        Ok(Event::WithdrawLiquidity(sender, liquid_value))
    }

    /// Trades base units for tokens at the constant-product price. The whole
    /// input joins the base reserve; the quoted output leaves the token
    /// reserve. A failing check aborts with its error and writes nothing; a
    /// committed trade conserves both asset totals and strictly grows the
    /// product of the reserves, since the fee stays in the pool.
    pub fn trade_base_to_token(&mut self, origin: Origin, base_value: Balance) -> (r: Result<
        Event,
        Error,
    >)
        ensures
            origin == Origin::Root ==> r == Err::<Event, Error>(Error::Unauthorized)
                && final(self)@ == old(self)@,
            origin matches Origin::Signed(sender) ==> match trade_base_err(
                old(self)@,
                sender,
                base_value,
            ) {
                Some(e) => r == Err::<Event, Error>(e) && final(self)@ == old(self)@,
                None => r == Ok::<Event, Error>(
                    Event::TokenPurchase(sender, trade_base_out(old(self)@, base_value) as Balance),
                ) && final(self)@ == trade_base_view(old(self)@, sender, base_value),
            },
            r is Ok ==> final(self)@.base_reserve * final(self)@.token_reserve > old(
                self,
            )@.base_reserve * old(self)@.token_reserve,
            r is Ok && pool_consistent(old(self)@) ==> pool_consistent(final(self)@),
            r is Ok ==> total_base(final(self)@) == total_base(old(self)@) && total_token(
                final(self)@,
            ) == total_token(old(self)@),
            r is Ok && liquidity_backed(old(self)@) ==> liquidity_backed(final(self)@),
    {
        let sender = match origin {
            Origin::Signed(s) => s,
            Origin::Root => {
                return Err(Error::Unauthorized);
            },
        };
        let base_reserve = self.base_reserve;
        let token_reserve = self.token_reserve;
        let tokens_bought = match swap::get_price(base_value, base_reserve, token_reserve) {
            Some(v) => v,
            None => {
                return Err(Error::NoPrice);
            },
        };
        proof {
            self.lemma_finite();
            swap::lemma_quote_fits(base_value as int, base_reserve as int, token_reserve as int);
            swap::lemma_swap_grows_product(
                base_value as int,
                base_reserve as int,
                token_reserve as int,
            );
        }
        let sender_base_balance = self.base.balance_of(sender);
        if sender_base_balance < base_value {
            return Err(Error::InsufficientBalance);
        }
        let sender_token_balance = self.token.balance_of(sender);
        if token_reserve < tokens_bought {
            return Err(Error::ExceedsReserve);
        }
        let base_pool_newbal = match arith::checked_add(base_reserve, base_value) {
            Ok(x) => x,
            Err(e) => {
                return Err(e);
            },
        };
        let token_newbal = match arith::checked_add(sender_token_balance, tokens_bought) {
            Ok(x) => x,
            Err(e) => {
                return Err(e);
            },
        };
        proof {
            lemma_map_sum_set(
                old(self)@.base,
                sender,
                (sender_base_balance - base_value) as Balance,
            );
            lemma_map_sum_set(old(self)@.token, sender, token_newbal);
        }
        self.base.set_balance(sender, sender_base_balance - base_value);
        self.base_reserve = base_pool_newbal;
        self.token.set_balance(sender, token_newbal);
        self.token_reserve = token_reserve - tokens_bought;
        proof {
            assert(self@ =~= trade_base_commit(old(self)@, sender, base_value));
        }
        self.update_prices();
        Ok(Event::TokenPurchase(sender, tokens_bought))
    }

    /// Trades tokens for base units at the constant-product price; the
    /// mirror image of `trade_base_to_token`, with the same guarantees.
    pub fn trade_token_to_base(&mut self, origin: Origin, token_value: Balance) -> (r: Result<
        Event,
        Error,
    >)
        ensures
            origin == Origin::Root ==> r == Err::<Event, Error>(Error::Unauthorized)
                && final(self)@ == old(self)@,
            origin matches Origin::Signed(sender) ==> match trade_token_err(
                old(self)@,
                sender,
                token_value,
            ) {
                Some(e) => r == Err::<Event, Error>(e) && final(self)@ == old(self)@,
                None => r == Ok::<Event, Error>(
                    Event::BasePurchase(sender, trade_token_out(old(self)@, token_value) as Balance),
                ) && final(self)@ == trade_token_view(old(self)@, sender, token_value),
            },
            r is Ok ==> final(self)@.base_reserve * final(self)@.token_reserve > old(
                self,
            )@.base_reserve * old(self)@.token_reserve,
            r is Ok && pool_consistent(old(self)@) ==> pool_consistent(final(self)@),
            r is Ok ==> total_base(final(self)@) == total_base(old(self)@) && total_token(
                final(self)@,
            ) == total_token(old(self)@),
            r is Ok && liquidity_backed(old(self)@) ==> liquidity_backed(final(self)@),
    {
        let sender = match origin {
            Origin::Signed(s) => s,
            Origin::Root => {
                return Err(Error::Unauthorized);
            },
        };
        let base_reserve = self.base_reserve;
        let token_reserve = self.token_reserve;
        let base_bought = match swap::get_price(token_value, token_reserve, base_reserve) {
            Some(v) => v,
            None => {
                return Err(Error::NoPrice);
            },
        };
        proof {
            self.lemma_finite();
            swap::lemma_quote_fits(token_value as int, token_reserve as int, base_reserve as int);
            swap::lemma_swap_grows_product(
                token_value as int,
                token_reserve as int,
                base_reserve as int,
            );
        }
        let sender_token_balance = self.token.balance_of(sender);
        if sender_token_balance < token_value {
            return Err(Error::InsufficientBalance);
        }
        let sender_base_balance = self.base.balance_of(sender);
        if base_reserve < base_bought {
            return Err(Error::ExceedsReserve);
        }
        let token_pool_newbal = match arith::checked_add(token_reserve, token_value) {
            Ok(x) => x,
            Err(e) => {
                return Err(e);
            },
        };
        let base_newbal = match arith::checked_add(sender_base_balance, base_bought) {
            Ok(x) => x,
            Err(e) => {
                return Err(e);
            },
        };
        proof {
            lemma_map_sum_set(
                old(self)@.token,
                sender,
                (sender_token_balance - token_value) as Balance,
            );
            lemma_map_sum_set(old(self)@.base, sender, base_newbal);
        }
        self.token.set_balance(sender, sender_token_balance - token_value);
        self.token_reserve = token_pool_newbal;
        self.base.set_balance(sender, base_newbal);
        self.base_reserve = base_reserve - base_bought;
        proof {
            assert(self@ =~= trade_token_commit(old(self)@, sender, token_value));
            lemma_mul_is_commutative(self@.base_reserve as int, self@.token_reserve as int);
            lemma_mul_is_commutative(old(self)@.base_reserve as int, old(self)@.token_reserve as int);
        }
        self.update_prices();
        Ok(Event::BasePurchase(sender, base_bought))
    }

    /// Privileged: moves liquidity shares between two accounts. The share
    /// supply and the sum of all holdings are unchanged.
    pub fn transfer_liquid(
        &mut self,
        origin: Origin,
        from: AccountId,
        to: AccountId,
        amount: Balance,
    ) -> (r: Result<(), Error>)
        ensures
            origin != Origin::Root ==> r == Err::<(), Error>(Error::Unauthorized) && final(self)@
                == old(self)@,
            origin == Origin::Root ==> match transfer_err(old(self)@.liquid, from, to, amount) {
                Some(e) => r == Err::<(), Error>(e) && final(self)@ == old(self)@,
                None => r == Ok::<(), Error>(()) && final(self)@ == (AmmView {
                    liquid: transfer_map(old(self)@.liquid, from, to, amount),
                    ..old(self)@
                }),
            },
            r is Ok ==> map_sum(final(self)@.liquid) == map_sum(old(self)@.liquid) && final(self)@.total_liquid_supply == old(self)@.total_liquid_supply,
    {
        match origin {
            Origin::Root => self.liquid.transfer(from, to, amount),
            _ => Err(Error::Unauthorized),
        }
    }
}

} // verus!
