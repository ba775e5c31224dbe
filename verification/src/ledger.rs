//! Per-account balance ledgers.
//!
//! One `AssetLedger` holds the balances of a single asset class. A key that
//! is absent reads as zero. The module also defines the sum of all balances
//! in a ledger, which the conservation contracts of the pool operations are
//! stated over.

use std::collections::HashMap;

use vstd::prelude::*;

use crate::arith;
use crate::types::{AccountId, Balance, Error};

verus! {

broadcast use vstd::std_specs::hash::group_hash_axioms;

/// The balance an account holds in a ledger map; an absent key reads as zero.
pub open spec fn bal(m: Map<AccountId, Balance>, a: AccountId) -> Balance {
    if m.dom().contains(a) {
        m[a]
    } else {
        0
    }
}

/// The sum of every balance held in a ledger map.
pub open spec fn map_sum(m: Map<AccountId, Balance>) -> int
    decreases m.dom().len(),
    when m.dom().finite()
{
    if m.dom().len() > 0 {
        let k = m.dom().choose();
        m[k] + map_sum(m.remove(k))
    } else {
        0
    }
}

/// A sum of balances is never negative.
pub proof fn lemma_map_sum_nonneg(m: Map<AccountId, Balance>)
    requires
        m.dom().finite(),
    ensures
        map_sum(m) >= 0,
    decreases m.dom().len(),
{
    if m.dom().len() > 0 {
        let k = m.dom().choose();
        lemma_map_sum_nonneg(m.remove(k));
    }
}

/// Taking one entry out of a ledger map lowers the sum by that balance,
/// whichever entry the sum's definition happens to peel off first.
pub proof fn lemma_map_sum_remove(m: Map<AccountId, Balance>, k: AccountId)
    requires
        m.dom().finite(),
        m.dom().contains(k),
    ensures
        map_sum(m) == map_sum(m.remove(k)) + m[k],
    decreases m.dom().len(),
{
    let k0 = m.dom().choose();
    assert(m.dom().len() > 0);
    assert(m.dom().contains(k0));
    if k0 != k {
        let m1 = m.remove(k0);
        let m2 = m.remove(k);
        lemma_map_sum_remove(m1, k);
        lemma_map_sum_remove(m2, k0);
        assert(m1.remove(k) =~= m2.remove(k0));
    }
}

/// Overwriting one entry changes the sum by the difference between the new
/// and the old balance.
pub proof fn lemma_map_sum_set(m: Map<AccountId, Balance>, k: AccountId, v: Balance)
    requires
        m.dom().finite(),
    ensures
        map_sum(m.insert(k, v)) == map_sum(m) - bal(m, k) + v,
{
    let mi = m.insert(k, v);
    lemma_map_sum_remove(mi, k);
    if m.dom().contains(k) {
        lemma_map_sum_remove(m, k);
        assert(mi.remove(k) =~= m.remove(k));
    } else {
        assert(mi.remove(k) =~= m);
    }
}

/// No single balance exceeds the sum of all of them.
pub proof fn lemma_map_sum_bound(m: Map<AccountId, Balance>, k: AccountId)
    requires
        m.dom().finite(),
    ensures
        bal(m, k) <= map_sum(m),
{
    if m.dom().contains(k) {
        lemma_map_sum_remove(m, k);
        lemma_map_sum_nonneg(m.remove(k));
    } else {
        lemma_map_sum_nonneg(m);
    }
}

/// Which error, if any, a ledger-internal transfer stops with.
pub open spec fn transfer_err(
    m: Map<AccountId, Balance>,
    from: AccountId,
    to: AccountId,
    amount: Balance,
) -> Option<Error> {
    if bal(m, from) < amount {
        Some(Error::InsufficientBalance)
    } else {
        let m1 = m.insert(from, (bal(m, from) - amount) as Balance);
        if bal(m1, to) + amount > Balance::MAX {
            Some(Error::ArithmeticOverflow)
        } else {
            None
        }
    }
}

/// The ledger map after a successful transfer. The debit lands first, so a
/// transfer from an account to itself leaves its balance unchanged.
pub open spec fn transfer_map(
    m: Map<AccountId, Balance>,
    from: AccountId,
    to: AccountId,
    amount: Balance,
) -> Map<AccountId, Balance> {
    let m1 = m.insert(from, (bal(m, from) - amount) as Balance);
    m1.insert(to, (bal(m1, to) + amount) as Balance)
}

/// The per-account balances of one asset class.
pub struct AssetLedger {
    accounts: HashMap<AccountId, Balance>,
}

impl View for AssetLedger {
    type V = Map<AccountId, Balance>;

    closed spec fn view(&self) -> Map<AccountId, Balance> {
        self.accounts@
    }
}

impl AssetLedger {
    /// A ledger map always has finitely many entries.
    pub proof fn lemma_finite(&self)
        ensures
            self@.dom().finite(),
    {
    }

    /// Creates an empty ledger: every account reads as zero.
    pub fn new() -> (l: AssetLedger)
        ensures
            l@ == Map::<AccountId, Balance>::empty(),
    {
        AssetLedger { accounts: HashMap::new() }
    }

    /// Reads an account's balance; an account never written reads as zero.
    pub fn balance_of(&self, a: AccountId) -> (b: Balance)
        ensures
            b == bal(self@, a),
    {
        match self.accounts.get(&a) {
            Some(v) => *v,
            None => 0,
        }
    }

    /// Unconditionally overwrites an account's balance. This bypasses every
    /// pool rule by design; only privileged operations reach it.
    pub fn set_balance(&mut self, a: AccountId, v: Balance)
        ensures
            final(self)@ == old(self)@.insert(a, v),
    {
        let _ = self.accounts.insert(a, v);
    }

    /// Adds to an account's balance, or fails without writing when the new
    /// balance would not be representable.
    pub fn credit(&mut self, a: AccountId, amount: Balance) -> (r: Result<(), Error>)
        ensures
            bal(old(self)@, a) + amount <= Balance::MAX ==> r == Ok::<(), Error>(())
                && final(self)@ == old(self)@.insert(a, (bal(old(self)@, a) + amount) as Balance),
            bal(old(self)@, a) + amount > Balance::MAX ==> r == Err::<(), Error>(
                Error::ArithmeticOverflow,
            ) && final(self)@ == old(self)@,
    {
        let b = self.balance_of(a);
        match arith::checked_add(b, amount) {
            Ok(nb) => {
                let _ = self.accounts.insert(a, nb);
                Ok(())
            },
            Err(_) => Err(Error::ArithmeticOverflow),
        }
    }

    /// Takes from an account's balance, or fails without writing when the
    /// account holds less than the debit.
    pub fn debit(&mut self, a: AccountId, amount: Balance) -> (r: Result<(), Error>)
        ensures
            bal(old(self)@, a) >= amount ==> r == Ok::<(), Error>(())
                && final(self)@ == old(self)@.insert(a, (bal(old(self)@, a) - amount) as Balance),
            bal(old(self)@, a) < amount ==> r == Err::<(), Error>(Error::InsufficientBalance)
                && final(self)@ == old(self)@,
    {
        let b = self.balance_of(a);
        if b < amount {
            Err(Error::InsufficientBalance)
        } else {
            let _ = self.accounts.insert(a, b - amount);
            Ok(())
        }
    }

    /// Moves `amount` between two accounts of this ledger, all or nothing.
    /// Transferring an account's entire balance is legal: the check is
    /// `>= amount`, not strict. A successful transfer conserves the sum of
    /// all balances, also when both accounts are the same.
    pub fn transfer(&mut self, from: AccountId, to: AccountId, amount: Balance) -> (r: Result<
        (),
        Error,
    >)
        ensures
            transfer_err(old(self)@, from, to, amount) matches Some(e) ==> r == Err::<(), Error>(e)
                && final(self)@ == old(self)@,
            transfer_err(old(self)@, from, to, amount) is None ==> r == Ok::<(), Error>(())
                && final(self)@ == transfer_map(old(self)@, from, to, amount),
            r is Ok ==> map_sum(final(self)@) == map_sum(old(self)@),
    {
        let from_balance = self.balance_of(from);
        if from_balance < amount {
            return Err(Error::InsufficientBalance);
        }
        let new_from = from_balance - amount;
        let to_balance = if to == from {
            new_from
        } else {
            self.balance_of(to)
        };
        if to_balance > Balance::MAX - amount {
            return Err(Error::ArithmeticOverflow);
        }
        proof {
            let m = self@;
            lemma_map_sum_set(m, from, (bal(m, from) - amount) as Balance);
            lemma_map_sum_set(
                m.insert(from, (bal(m, from) - amount) as Balance),
                to,
                (to_balance + amount) as Balance,
            );
        }
        let _ = self.accounts.insert(from, new_from);
        let _ = self.accounts.insert(to, to_balance + amount);
        Ok(())
    }
}

} // verus!
