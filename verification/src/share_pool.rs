//! A pool of one fungible resource owned in proportion to shares.

use vstd::prelude::*;
use crate::utils::{
    amount_from_shares, amount_from_shares_spec, lemma_round_trip_never_gains,
    lemma_round_trip_never_gains_shares, shares_from_amount, shares_from_amount_spec,
};

verus! {

/// Total amount in a pool and the shares that own it. The price of a share is
/// `total_amount / total_shares`; converting between amounts and shares never changes it.
#[derive(Clone, Copy, Debug, PartialEq, Eq, Structural)]
pub struct SharePool {
    pub total_amount: u128,
    pub total_shares: u128,
}

/// One step of a history of deposits and withdrawals.
pub enum PoolOp {
    Deposit(u128),
    Withdraw(u128),
}

impl SharePool {
    /// A pool holds something exactly when somebody owns it.
    pub open spec fn wf(self) -> bool {
        self.total_shares == 0 <==> self.total_amount == 0
    }

    /// Nothing is held that no share owns. A pool that was emptied of its amount while
    /// shares exist, as the debt pool is when all the debt in circulation is converted,
    /// is still owned, though not valid.
    pub open spec fn owned(self) -> bool {
        self.total_shares == 0 ==> self.total_amount == 0
    }

    /// No share stands for nothing. A pool that received an amount while it had no
    /// shares, as the locked pool does when yield arrives before any collateral is
    /// locked, is still backed, though not valid: the next depositor owns what it holds.
    pub open spec fn backed(self) -> bool {
        self.total_amount == 0 ==> self.total_shares == 0
    }

    /// One share stands for one unit: no rounding in either direction.
    pub open spec fn at_par(self) -> bool {
        self.total_amount == self.total_shares
    }

    /// The shares that `amount` buys at the pool's price, rounded down.
    pub open spec fn shares_from_amount_spec(self, amount: u128) -> Option<u128> {
        shares_from_amount_spec(amount, self.total_amount, self.total_shares)
    }

    /// The amount that `num_shares` are worth at the pool's price, rounded down.
    pub open spec fn amount_from_shares_spec(self, num_shares: u128) -> Option<u128> {
        amount_from_shares_spec(num_shares, self.total_amount, self.total_shares)
    }

    /// The pool after `amount` came in at the current price, and the shares issued for it.
    /// `None` where a total would leave the 128-bit range.
    pub open spec fn deposit_spec(self, amount: u128) -> Option<(SharePool, u128)> {
        match self.shares_from_amount_spec(amount) {
            Some(issued) => {
                if self.total_amount + amount > u128::MAX || self.total_shares + issued > u128::MAX {
                    None
                } else {
                    Some(
                        (
                            SharePool {
                                total_amount: (self.total_amount + amount) as u128,
                                total_shares: (self.total_shares + issued) as u128,
                            },
                            issued,
                        ),
                    )
                }
            },
            None => None,
        }
    }

    /// The pool after `num_shares` were redeemed at the current price, and the amount
    /// released for them. Both totals stop at zero.
    pub open spec fn withdraw_spec(self, num_shares: u128) -> Option<(SharePool, u128)> {
        match self.amount_from_shares_spec(num_shares) {
            Some(released) => Some(
                (
                    SharePool {
                        total_amount: if released >= self.total_amount {
                            0
                        } else {
                            (self.total_amount - released) as u128
                        },
                        total_shares: if num_shares >= self.total_shares {
                            0
                        } else {
                            (self.total_shares - num_shares) as u128
                        },
                    },
                    released,
                ),
            ),
            None => None,
        }
    }

    /// The pool after `amount` was added for the shares that exist.
    pub open spec fn inflate_spec(self, amount: u128) -> Option<SharePool> {
        if self.total_amount + amount > u128::MAX {
            None
        } else {
            Some(SharePool { total_amount: (self.total_amount + amount) as u128, ..self })
        }
    }

    /// The pool after `amount` was taken from the shares that exist, stopping at zero.
    pub open spec fn deflate_spec(self, amount: u128) -> SharePool {
        SharePool {
            total_amount: if amount >= self.total_amount {
                0
            } else {
                (self.total_amount - amount) as u128
            },
            ..self
        }
    }

    /// `self`'s price is at most `later`'s, compared without dividing.
    pub open spec fn price_le(self, later: SharePool) -> bool {
        self.total_amount * later.total_shares <= later.total_amount * self.total_shares
    }

    /// What `later`'s price gained over `self`'s, scaled by both share totals.
    pub open spec fn price_gain(self, later: SharePool) -> int {
        later.total_amount * self.total_shares - self.total_amount * later.total_shares
    }

    /// The pool after `op`; a step that cannot be taken leaves the pool as it is.
    pub open spec fn apply(self, op: PoolOp) -> SharePool {
        match op {
            PoolOp::Deposit(amount) => match self.deposit_spec(amount) {
                Some((pool, _)) => pool,
                None => self,
            },
            PoolOp::Withdraw(num_shares) => match self.withdraw_spec(num_shares) {
                Some((pool, _)) => pool,
                None => self,
            },
        }
    }

    /// The pool after the first `n` steps of `ops`.
    pub open spec fn apply_prefix(self, ops: Seq<PoolOp>, n: nat) -> SharePool
        decreases n,
    {
        if n == 0 || n > ops.len() {
            self
        } else {
            self.apply_prefix(ops, (n - 1) as nat).apply(ops[n - 1])
        }
    }

    /// An empty pool.
    pub fn new() -> (pool: SharePool)
        ensures
            pool.total_amount == 0,
            pool.total_shares == 0,
            pool.wf(),
    {
        SharePool { total_amount: 0, total_shares: 0 }
    }

    /// The shares that `amount` buys at the pool's price, rounded down. `None` where
    /// they do not fit in 128 bits.
    pub fn shares_from_amount(&self, amount: u128) -> (shares: Option<u128>)
        ensures
            shares == self.shares_from_amount_spec(amount),
    {
        shares_from_amount(amount, self.total_amount, self.total_shares)
    }

    /// The amount that `num_shares` are worth at the pool's price, rounded down. `None`
    /// where it does not fit in 128 bits.
    pub fn amount_from_shares(&self, num_shares: u128) -> (amount: Option<u128>)
        ensures
            amount == self.amount_from_shares_spec(num_shares),
    {
        amount_from_shares(num_shares, self.total_amount, self.total_shares)
    }

    /// Takes `amount` in and issues shares for it at the price before the deposit.
    /// Returns `None`, and changes nothing, where a total would overflow.
    pub fn deposit(&mut self, amount: u128) -> (issued: Option<u128>)
        ensures
            match old(self).deposit_spec(amount) {
                Some((pool, shares)) => issued == Some(shares) && *final(self) == pool,
                None => issued.is_none() && *final(self) == *old(self),
            },
            old(self).wf() ==> final(self).wf() && old(self).price_le(*final(self)),
            old(self).owned() ==> final(self).owned(),
            old(self).backed() ==> final(self).backed(),
            old(self).at_par() ==> final(self).at_par(),
    {
        proof {
            old(self).lemma_deposit_rounding(amount);
            if old(self).at_par() {
                old(self).lemma_at_par(amount);
            }
        }
        let shares = match self.shares_from_amount(amount) {
            Some(s) => s,
            None => return None,
        };
        let new_amount = match self.total_amount.checked_add(amount) {
            Some(a) => a,
            None => return None,
        };
        let new_shares = match self.total_shares.checked_add(shares) {
            Some(s) => s,
            None => return None,
        };
        self.total_amount = new_amount;
        self.total_shares = new_shares;
        Some(shares)
    }

    /// Redeems `num_shares` and releases their amount at the price before the withdrawal.
    /// Returns `None`, and changes nothing, where the amount does not fit in 128 bits,
    /// which needs more shares than the pool has.
    pub fn withdraw(&mut self, num_shares: u128) -> (released: Option<u128>)
        ensures
            match old(self).withdraw_spec(num_shares) {
                Some((pool, amount)) => released == Some(amount) && *final(self) == pool,
                None => released.is_none() && *final(self) == *old(self),
            },
            num_shares <= old(self).total_shares ==> released.is_some(),
            old(self).wf() ==> final(self).wf(),
            old(self).owned() ==> final(self).owned(),
            old(self).backed() ==> final(self).backed(),
            old(self).price_le(*final(self)),
            old(self).at_par() ==> final(self).at_par(),
    {
        proof {
            old(self).lemma_withdraw_rounding(num_shares);
            if old(self).at_par() {
                old(self).lemma_at_par(num_shares);
                if num_shares > old(self).total_shares {
                    old(self).lemma_withdraw_more_than_all(num_shares);
                }
            }
        }
        let amount = match self.amount_from_shares(num_shares) {
            Some(a) => a,
            None => return None,
        };
        self.total_amount = self.total_amount.saturating_sub(amount);
        self.total_shares = self.total_shares.saturating_sub(num_shares);
        Some(amount)
    }

    /// Adds `amount` without issuing shares, which raises the price for every holder.
    /// Returns `false`, and changes nothing, where the total would overflow.
    pub fn inflate(&mut self, amount: u128) -> (done: bool)
        ensures
            match old(self).inflate_spec(amount) {
                Some(pool) => done && *final(self) == pool,
                None => !done && *final(self) == *old(self),
            },
            old(self).wf() && (old(self).total_shares > 0 || amount == 0) ==> final(self).wf(),
            old(self).backed() ==> final(self).backed(),
    {
        match self.total_amount.checked_add(amount) {
            Some(a) => {
                self.total_amount = a;
                true
            },
            None => false,
        }
    }

    /// Removes `amount` without burning shares, which lowers the price for every holder.
    pub fn deflate(&mut self, amount: u128)
        ensures
            *final(self) == old(self).deflate_spec(amount),
            old(self).wf() && (amount < old(self).total_amount || old(self).total_shares == 0)
                ==> final(self).wf(),
            old(self).owned() ==> final(self).owned(),
    {
        self.total_amount = self.total_amount.saturating_sub(amount);
    }

    /// A deposit keeps validity and moves the price only by what the floor division of
    /// `amount * total_shares` by `total_amount` left over.
    pub proof fn lemma_deposit_rounding(self, amount: u128)
        ensures
            match self.deposit_spec(amount) {
                Some((pool, issued)) => {
                    &&& (self.wf() ==> pool.wf())
                    &&& (self.total_shares > 0 || self.total_amount == 0 ==> self.price_le(pool))
                    &&& self.total_shares > 0 && self.total_amount > 0 ==> self.price_gain(pool) == (
                    amount * self.total_shares) % (self.total_amount as int)
                },
                None => true,
            },
    {
        if let Some((pool, issued)) = self.deposit_spec(amount) {
            let a = amount as int;
            let t = self.total_amount as int;
            let s = self.total_shares as int;
            let n = issued as int;
            if s > 0 && t > 0 {
                assert(n == (a * s) / t);
                assert((t + a) * s - t * (s + n) == (a * s) % t) by (nonlinear_arith)
                    requires
                        n == (a * s) / t,
                        t > 0,
                ;
                assert(0 <= (a * s) % t) by (nonlinear_arith)
                    requires
                        t > 0,
                ;
            } else if s > 0 {
                assert(n == 0);
                assert(t * (s + n) == 0) by (nonlinear_arith)
                    requires
                        t == 0,
                ;
                assert((t + a) * s >= 0) by (nonlinear_arith)
                    requires
                        t + a >= 0,
                        s >= 0,
                ;
            } else {
                assert((t + a) * s == 0) by (nonlinear_arith)
                    requires
                        s == 0,
                ;
                assert(t * (s + n) >= 0) by (nonlinear_arith)
                    requires
                        t >= 0,
                        s + n >= 0,
                ;
                assert(t == 0 ==> t * (s + n) == 0) by (nonlinear_arith);
            }
        }
    }

    /// A withdrawal of shares the pool has always succeeds, keeps validity and moves the
    /// price only by what the floor division of `num_shares * total_amount` by
    /// `total_shares` left over.
    pub proof fn lemma_withdraw_rounding(self, num_shares: u128)
        ensures
            num_shares <= self.total_shares ==> self.withdraw_spec(num_shares).is_some(),
            match self.withdraw_spec(num_shares) {
                Some((pool, released)) => {
                    &&& (self.wf() ==> pool.wf())
                    &&& (self.owned() ==> pool.owned())
                    &&& (self.backed() ==> pool.backed())
                    &&& self.price_le(pool)
                    &&& num_shares <= self.total_shares ==> released <= self.total_amount
                    &&& 0 < num_shares <= self.total_shares ==> self.price_gain(pool) == (num_shares
                        * self.total_amount) % (self.total_shares as int)
                },
                None => true,
            },
    {
        let t = self.total_amount as int;
        let s = self.total_shares as int;
        let k = num_shares as int;
        if s > 0 && k <= s {
            assert((k * t) / s <= t) by (nonlinear_arith)
                requires
                    0 <= k <= s,
                    s > 0,
                    t >= 0,
            ;
        }
        if let Some((pool, released)) = self.withdraw_spec(num_shares) {
            let m = released as int;
            if s == 0 {
                assert(m == 0);
                assert(t * 0 == 0 && pool.total_amount * s == 0) by (nonlinear_arith)
                    requires
                        s == 0,
                ;
            } else if k >= s {
                assert(m == (k * t) / s);
                assert(m >= t) by (nonlinear_arith)
                    requires
                        m == (k * t) / s,
                        k >= s,
                        s > 0,
                        t >= 0,
                ;
                assert(pool.total_amount == 0 && pool.total_shares == 0);
                assert(t * 0 == 0 && 0 * s == 0) by (nonlinear_arith);
                if k == s {
                    assert((k * t) % s == 0) by (nonlinear_arith)
                        requires
                            k == s,
                            s > 0,
                    ;
                }
            } else {
                assert(m == (k * t) / s);
                assert(m <= t && (t > 0 ==> m < t) && (t - m) * s - t * (s - k) == (k * t) % s
                    && (k * t) % s >= 0) by (nonlinear_arith)
                    requires
                        m == (k * t) / s,
                        0 <= k < s,
                        t >= 0,
                ;
            }
        }
    }

    /// Over any history of deposits and withdrawals that never leaves the pool without
    /// shares, the price at the end is at least the price at the start.
    pub proof fn lemma_price_never_decreases(self, ops: Seq<PoolOp>, n: nat)
        requires
            n <= ops.len(),
            forall|i: nat| i <= n ==> (#[trigger] self.apply_prefix(ops, i)).total_shares > 0,
        ensures
            self.price_le(self.apply_prefix(ops, n)),
        decreases n,
    {
        if n == 0 {
            assert(self.apply_prefix(ops, 0) == self);
        } else {
            let before = self.apply_prefix(ops, (n - 1) as nat);
            let after = self.apply_prefix(ops, n);
            self.lemma_price_never_decreases(ops, (n - 1) as nat);
            assert(before.total_shares > 0);
            assert(self.total_shares > 0) by {
                assert(self.apply_prefix(ops, 0) == self);
            }
            match ops[n - 1] {
                PoolOp::Deposit(amount) => before.lemma_deposit_rounding(amount),
                PoolOp::Withdraw(num_shares) => before.lemma_withdraw_rounding(num_shares),
            }
            assert(before.price_le(after));
            let a0 = self.total_amount as int;
            let s0 = self.total_shares as int;
            let a1 = before.total_amount as int;
            let s1 = before.total_shares as int;
            let a2 = after.total_amount as int;
            let s2 = after.total_shares as int;
            assert(a0 * s2 <= a2 * s0) by (nonlinear_arith)
                requires
                    a0 * s1 <= a1 * s0,
                    a1 * s2 <= a2 * s1,
                    s0 > 0,
                    s1 > 0,
                    s2 > 0,
                    a0 >= 0,
                    a1 >= 0,
                    a2 >= 0,
            ;
        }
    }

    /// In a pool at par, amounts and shares convert one to one, and deposits and
    /// withdrawals leave the pool at par.
    pub proof fn lemma_at_par(self, value: u128)
        requires
            self.at_par(),
        ensures
            self.shares_from_amount_spec(value) == Some(value),
            self.total_shares > 0 ==> self.amount_from_shares_spec(value) == Some(value),
            match self.deposit_spec(value) {
                Some((pool, issued)) => issued == value && pool.at_par(),
                None => true,
            },
            value <= self.total_shares ==> self.withdraw_spec(value) == Some(
                (
                    SharePool {
                        total_amount: (self.total_amount - value) as u128,
                        total_shares: (self.total_shares - value) as u128,
                    },
                    value,
                ),
            ),
    {
        let v = value as int;
        let t = self.total_amount as int;
        if t > 0 {
            assert((v * t) / t == v) by (nonlinear_arith)
                requires
                    t > 0,
            ;
        }
    }

    /// Redeeming more shares than a pool at par has releases at least all it holds, which
    /// empties it.
    pub proof fn lemma_withdraw_more_than_all(self, num_shares: u128)
        requires
            self.at_par(),
            num_shares > self.total_shares,
        ensures
            match self.withdraw_spec(num_shares) {
                Some((pool, released)) => pool.total_amount == 0 && pool.total_shares == 0,
                None => true,
            },
    {
        let t = self.total_amount as int;
        let k = num_shares as int;
        if t > 0 {
            assert((k * t) / t == k) by (nonlinear_arith)
                requires
                    t > 0,
            ;
        }
    }

    /// Shares bought with an amount are never worth more than that amount.
    pub proof fn lemma_round_trip(self, amount: u128)
        ensures
            match self.shares_from_amount_spec(amount) {
                Some(shares) => match self.amount_from_shares_spec(shares) {
                    Some(back) => back <= amount,
                    None => false,
                },
                None => true,
            },
    {
        lemma_round_trip_never_gains(amount, self.total_amount, self.total_shares);
    }

    /// An amount released for shares never buys back more than those shares.
    pub proof fn lemma_round_trip_shares(self, num_shares: u128)
        ensures
            match self.amount_from_shares_spec(num_shares) {
                Some(amount) => match self.shares_from_amount_spec(amount) {
                    Some(back) => back <= num_shares,
                    None => false,
                },
                None => true,
            },
    {
        lemma_round_trip_never_gains_shares(num_shares, self.total_amount, self.total_shares);
    }
}

} // verus!
