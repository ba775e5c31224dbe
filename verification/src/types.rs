//! Common value types: balances, accounts, callers, errors and events.

use vstd::prelude::*;

verus! {

/// An exact, non-negative amount of an asset, in its smallest unit.
pub type Balance = u64;

/// An opaque account identifier supplied by the host's identity system.
pub type AccountId = u64;

/// The caller of an operation, as authenticated by the host.
#[derive(Clone, Copy, Debug, PartialEq, Eq, Structural)]
pub enum Origin {
    /// A privileged administrative caller.
    Root,
    /// An ordinary signed caller.
    Signed(AccountId),
}

/// Why an operation was rejected. A rejected operation writes nothing.
#[derive(Clone, Copy, Debug, PartialEq, Eq, Structural)]
pub enum Error {
    /// The caller lacks the required privilege.
    Unauthorized,
    /// A debit would take a balance below zero.
    InsufficientBalance,
    /// The operation needs an existing pool, but none has been created.
    PoolUninitialized,
    /// An internal consistency check failed (non-zero share supply with an
    /// empty base reserve).
    PoolInconsistent,
    /// A checked addition or multiplication exceeded the representable range.
    ArithmeticOverflow,
    /// A checked subtraction would go below zero.
    ArithmeticUnderflow,
    /// A division was asked for with a zero divisor.
    DivisionByZero,
    /// The pricing formula was given a zero amount or a zero reserve, or its
    /// widened intermediate overflowed, so no price exists.
    NoPrice,
    /// A computed payout exceeds the actual reserve. Defensive: unreachable
    /// when the pool invariants hold, but checked rather than assumed.
    ExceedsReserve,
}

/// The notification handed to the host's event sink after a committed
/// mutation. No event is emitted for a failed operation.
#[derive(Clone, Copy, Debug, PartialEq, Eq, Structural)]
pub enum Event {
    /// A trade bought this many tokens for base units: `(sender, tokens_out)`.
    TokenPurchase(AccountId, Balance),
    /// A trade bought this many base units for tokens: `(sender, base_out)`.
    BasePurchase(AccountId, Balance),
    /// A liquidity deposit minted this many shares: `(sender, minted)`.
    DepositLiquidity(AccountId, Balance),
    /// A withdrawal burned this many shares: `(sender, burned)`.
    WithdrawLiquidity(AccountId, Balance),
}

} // verus!
