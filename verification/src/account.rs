//! The record kept for each borrower and the value of an account at the current price.

use vstd::prelude::*;
use crate::contract::{State, UsdNearStableCoin};
use crate::internal::{add_amount, add_amount_spec, remove_amount, remove_amount_spec};
use crate::types::MAX_RATIO_BP;
use crate::utils::{apply_pct, checked_mul_div, min, min_spec};

verus! {

/// What one account holds: shares of free collateral, of locked collateral and of the
/// debt in circulation, and a balance of the governance token.
#[derive(Clone, Copy, Debug, PartialEq, Eq, Structural)]
pub struct BorrowingAccount {
    /// Shares of the free-collateral pool: deposited and not pledged.
    pub free_shares: u128,
    /// Shares of the locked-collateral pool: pledged against the account's debt.
    pub locked_collateral_shares: u128,
    /// Shares of the debt pool: what the account owes.
    pub shares_usdnear_owed: u128,
    /// Governance token balance.
    pub stbl: u128,
}

/// Collateralization ratio in basis points of collateral valued `valued` against a debt of
/// `debt`: `floor(valued * 10000 / debt)`, at most 999%, and 999% where there is no debt.
pub open spec fn ratio_bp(valued: u128, debt: u128) -> u32 {
    if debt == 0 {
        MAX_RATIO_BP
    } else if valued * 10_000 / (debt as int) > MAX_RATIO_BP {
        MAX_RATIO_BP
    } else {
        (valued * 10_000 / (debt as int)) as u32
    }
}

/// Computes [`ratio_bp`].
pub fn compute_ratio_bp(valued: u128, debt: u128) -> (ratio: u32)
    ensures
        ratio == ratio_bp(valued, debt),
{
    if debt == 0 {
        return MAX_RATIO_BP;
    }
    match checked_mul_div(valued, 10_000, debt) {
        Some(r) => {
            if r > MAX_RATIO_BP as u128 {
                MAX_RATIO_BP
            } else {
                r as u32
            }
        },
        None => MAX_RATIO_BP,
    }
}

/// With collateral and price held fixed, a larger debt never has a larger ratio.
pub proof fn lemma_ratio_falls_as_debt_grows(valued: u128, debt: u128, more_debt: u128)
    requires
        debt <= more_debt,
    ensures
        ratio_bp(valued, more_debt) <= ratio_bp(valued, debt),
{
    if debt > 0 {
        vstd::arithmetic::div_mod::lemma_div_is_ordered_by_denominator(
            valued * 10_000,
            debt as int,
            more_debt as int,
        );
    }
}

impl BorrowingAccount {
    /// The record of an account that holds nothing.
    pub open spec fn empty() -> BorrowingAccount {
        BorrowingAccount { free_shares: 0, locked_collateral_shares: 0, shares_usdnear_owed: 0, stbl: 0 }
    }

    /// The account holds nothing.
    pub open spec fn is_empty_spec(self) -> bool {
        self == BorrowingAccount::empty()
    }

    /// Whether the account holds nothing; such an account is not kept.
    pub fn is_empty(&self) -> (empty: bool)
        ensures
            empty == self.is_empty_spec(),
    {
        self.free_shares == 0 && self.locked_collateral_shares == 0 && self.stbl == 0
            && self.shares_usdnear_owed == 0
    }
}

impl Default for BorrowingAccount {
    fn default() -> (acc: BorrowingAccount)
        ensures
            acc == BorrowingAccount::empty(),
    {
        BorrowingAccount { free_shares: 0, locked_collateral_shares: 0, shares_usdnear_owed: 0, stbl: 0 }
    }
}

impl State {
    /// The state and the account after `amount` was added to what `acc` owes.
    pub open spec fn add_owed(self, acc: BorrowingAccount, amount: u128) -> Option<
        (State, BorrowingAccount),
    > {
        match add_amount_spec(acc.shares_usdnear_owed, self.debt_pool, amount) {
            Some((shares, pool)) => Some(
                (
                    State { debt_pool: pool, ..self },
                    BorrowingAccount { shares_usdnear_owed: shares, ..acc },
                ),
            ),
            None => None,
        }
    }

    /// The state, the account and the debt taken out of circulation after `acc` redeemed
    /// the debt shares that `amount` buys.
    pub open spec fn remove_owed(self, acc: BorrowingAccount, amount: u128) -> Option<
        (State, BorrowingAccount, u128),
    > {
        match remove_amount_spec(acc.shares_usdnear_owed, self.debt_pool, amount) {
            Some((shares, pool, released)) => Some(
                (
                    State { debt_pool: pool, ..self },
                    BorrowingAccount { shares_usdnear_owed: shares, ..acc },
                    released,
                ),
            ),
            None => None,
        }
    }

    /// The state and the account after `amount` of free collateral was credited to `acc`.
    pub open spec fn add_free(self, acc: BorrowingAccount, amount: u128) -> Option<
        (State, BorrowingAccount),
    > {
        match add_amount_spec(acc.free_shares, self.free_pool, amount) {
            Some((shares, pool)) => Some(
                (State { free_pool: pool, ..self }, BorrowingAccount { free_shares: shares, ..acc }),
            ),
            None => None,
        }
    }

    /// The state, the account and the collateral released after `acc` redeemed the free
    /// shares that `amount` buys.
    pub open spec fn remove_free(self, acc: BorrowingAccount, amount: u128) -> Option<
        (State, BorrowingAccount, u128),
    > {
        match remove_amount_spec(acc.free_shares, self.free_pool, amount) {
            Some((shares, pool, released)) => Some(
                (
                    State { free_pool: pool, ..self },
                    BorrowingAccount { free_shares: shares, ..acc },
                    released,
                ),
            ),
            None => None,
        }
    }

    /// The state and the account after `amount` of collateral was locked for `acc`.
    pub open spec fn add_locked(self, acc: BorrowingAccount, amount: u128) -> Option<
        (State, BorrowingAccount),
    > {
        match add_amount_spec(acc.locked_collateral_shares, self.locked_pool, amount) {
            Some((shares, pool)) => Some(
                (
                    State { locked_pool: pool, ..self },
                    BorrowingAccount { locked_collateral_shares: shares, ..acc },
                ),
            ),
            None => None,
        }
    }

    /// The state, the account and the collateral released after `acc` redeemed the
    /// locked shares that `amount` buys.
    pub open spec fn remove_locked(self, acc: BorrowingAccount, amount: u128) -> Option<
        (State, BorrowingAccount, u128),
    > {
        match remove_amount_spec(acc.locked_collateral_shares, self.locked_pool, amount) {
            Some((shares, pool, released)) => Some(
                (
                    State { locked_pool: pool, ..self },
                    BorrowingAccount { locked_collateral_shares: shares, ..acc },
                    released,
                ),
            ),
            None => None,
        }
    }

    /// The state and the account after the lock of `acc` was brought up to what its debt
    /// requires: where less is locked, the shortfall, or all the free collateral if that
    /// is less, leaves the free pool at its price and enters the locked pool at its own.
    pub open spec fn add_locked_collateral(self, acc: BorrowingAccount) -> Option<
        (State, BorrowingAccount),
    > {
        match (self.required_collateral_stnear(acc), self.locked_stnear(acc)) {
            (Some(required), Some(locked_now)) => {
                if locked_now < required {
                    match self.free_stnear(acc) {
                        Some(free_now) => {
                            let to_add = min_spec(free_now, (required - locked_now) as u128);
                            match self.remove_free(acc, to_add) {
                                Some((freed, acc_freed, released)) => freed.add_locked(
                                    acc_freed,
                                    released,
                                ),
                                None => None,
                            }
                        },
                        None => None,
                    }
                } else {
                    Some((self, acc))
                }
            },
            _ => None,
        }
    }
}

impl BorrowingAccount {
    /// What the account owes, at the debt pool's price.
    pub fn outstanding_loans_usdnear(&self, main: &UsdNearStableCoin) -> (owed: Option<u128>)
        ensures
            owed == main@.outstanding_loans_usdnear(*self),
    {
        main.amount_from_usdnear_shares(self.shares_usdnear_owed)
    }

    /// The account's free collateral.
    pub fn free_stnear(&self, main: &UsdNearStableCoin) -> (free: Option<u128>)
        ensures
            free == main@.free_stnear(*self),
    {
        main.amount_from_free_shares(self.free_shares)
    }

    /// The account's locked collateral.
    pub fn locked_stnear(&self, main: &UsdNearStableCoin) -> (locked: Option<u128>)
        ensures
            locked == main@.locked_stnear(*self),
    {
        main.amount_from_collateral_shares(self.locked_collateral_shares)
    }

    /// The account's locked collateral valued at the current price.
    pub fn valued_collateral_usd(&self, main: &UsdNearStableCoin) -> (valued: Option<u128>)
        ensures
            valued == main@.valued_collateral_usd(*self),
    {
        match self.locked_stnear(main) {
            Some(locked) => main.stnear_to_usd(locked),
            None => None,
        }
    }

    /// The collateral that must be locked for what the account owes.
    pub fn required_collateral_stnear(&self, main: &UsdNearStableCoin) -> (required: Option<u128>)
        ensures
            required == main@.required_collateral_stnear(*self),
    {
        if self.shares_usdnear_owed == 0 {
            return Some(0);
        }
        let owed: u128 = match self.outstanding_loans_usdnear(main) {
            Some(owed) => owed,
            None => return None,
        };
        match apply_pct(main.collateral_basis_points, owed) {
            Some(required_usd) => main.usdnear_to_stnear(required_usd),
            None => None,
        }
    }

    /// The most the account could owe against all its collateral.
    pub fn max_usdnear(&self, main: &UsdNearStableCoin) -> (most: Option<u128>)
        ensures
            most == main@.max_usdnear(*self),
    {
        let free: u128 = match self.free_stnear(main) {
            Some(free) => free,
            None => return None,
        };
        let locked: u128 = match self.locked_stnear(main) {
            Some(locked) => locked,
            None => return None,
        };
        let total: u128 = match free.checked_add(locked) {
            Some(total) => total,
            None => return None,
        };
        match main.stnear_to_usd(total) {
            Some(valued) => checked_mul_div(valued, 10_000, main.collateral_basis_points as u128),
            None => None,
        }
    }

    /// What the account can still borrow.
    pub fn get_current_credit_limit(&self, main: &UsdNearStableCoin) -> (limit: Option<u128>)
        ensures
            limit == main@.credit_limit(*self),
    {
        let most: u128 = match self.max_usdnear(main) {
            Some(most) => most,
            None => return None,
        };
        match self.outstanding_loans_usdnear(main) {
            Some(owed) => Some(most.saturating_sub(owed)),
            None => None,
        }
    }

    /// The account's collateralization ratio in basis points, at most 999%.
    pub fn get_current_collateralization_ratio(&self, main: &UsdNearStableCoin) -> (ratio: Option<
        u32,
    >)
        ensures
            ratio == main@.collateralization_ratio(*self),
    {
        let valued: u128 = match self.valued_collateral_usd(main) {
            Some(valued) => valued,
            None => return None,
        };
        match self.outstanding_loans_usdnear(main) {
            Some(owed) => Some(compute_ratio_bp(valued, owed)),
            None => None,
        }
    }

    /// Adds `amount` to what the account owes and to the debt in circulation.
    /// Returns `false`, and changes nothing, where a total would not fit.
    pub(crate) fn add_owed_usdnear_preserve_share_price(
        &mut self,
        amount: u128,
        main: &mut UsdNearStableCoin,
    ) -> (done: bool)
        ensures
            old(main).sound() ==> final(main).sound(),
            match old(main)@.add_owed(*old(self), amount) {
                Some((state, acc)) => done && final(main)@ == state && *final(self) == acc,
                None => !done && final(main)@ == old(main)@ && *final(self) == *old(self),
            },
    {
        add_amount(&mut self.shares_usdnear_owed, &mut main.debt_pool, amount)
    }

    /// Redeems the debt shares that `amount` buys and takes their debt out of circulation.
    pub(crate) fn remove_owed_usdnear_preserve_share_price(
        &mut self,
        amount: u128,
        main: &mut UsdNearStableCoin,
    ) -> (released: Option<u128>)
        ensures
            old(main).sound() ==> final(main).sound(),
            match old(main)@.remove_owed(*old(self), amount) {
                Some((state, acc, r)) => released == Some(r) && final(main)@ == state && *final(self) == acc,
                None => released.is_none() && final(main)@ == old(main)@ && *final(self) == *old(self),
            },
    {
        remove_amount(&mut self.shares_usdnear_owed, &mut main.debt_pool, amount)
    }

    /// Credits `amount` of free collateral to the account.
    pub(crate) fn add_free_amount_preserve_share_price(
        &mut self,
        amount: u128,
        main: &mut UsdNearStableCoin,
    ) -> (done: bool)
        ensures
            old(main).sound() ==> final(main).sound(),
            match old(main)@.add_free(*old(self), amount) {
                Some((state, acc)) => done && final(main)@ == state && *final(self) == acc,
                None => !done && final(main)@ == old(main)@ && *final(self) == *old(self),
            },
    {
        add_amount(&mut self.free_shares, &mut main.free_pool, amount)
    }

    /// Redeems the free shares that `amount` buys.
    pub(crate) fn remove_free_amount_preserve_share_price(
        &mut self,
        amount: u128,
        main: &mut UsdNearStableCoin,
    ) -> (released: Option<u128>)
        ensures
            old(main).sound() ==> final(main).sound(),
            match old(main)@.remove_free(*old(self), amount) {
                Some((state, acc, r)) => released == Some(r) && final(main)@ == state && *final(self) == acc,
                None => released.is_none() && final(main)@ == old(main)@ && *final(self) == *old(self),
            },
    {
        remove_amount(&mut self.free_shares, &mut main.free_pool, amount)
    }

    /// Locks `amount` of collateral for the account.
    pub(crate) fn add_locked_amount_preserve_share_price(
        &mut self,
        amount: u128,
        main: &mut UsdNearStableCoin,
    ) -> (done: bool)
        ensures
            old(main).sound() ==> final(main).sound(),
            match old(main)@.add_locked(*old(self), amount) {
                Some((state, acc)) => done && final(main)@ == state && *final(self) == acc,
                None => !done && final(main)@ == old(main)@ && *final(self) == *old(self),
            },
    {
        add_amount(&mut self.locked_collateral_shares, &mut main.locked_pool, amount)
    }

    /// Redeems the locked shares that `amount` buys.
    pub(crate) fn remove_locked_amount_preserve_share_price(
        &mut self,
        amount: u128,
        main: &mut UsdNearStableCoin,
    ) -> (released: Option<u128>)
        ensures
            old(main).sound() ==> final(main).sound(),
            match old(main)@.remove_locked(*old(self), amount) {
                Some((state, acc, r)) => released == Some(r) && final(main)@ == state && *final(self) == acc,
                None => released.is_none() && final(main)@ == old(main)@ && *final(self) == *old(self),
            },
    {
        remove_amount(&mut self.locked_collateral_shares, &mut main.locked_pool, amount)
    }

    /// Moves free collateral into the lock where the debt requires more than is locked.
    /// Returns `false`, and changes nothing, where a value would not fit.
    pub(crate) fn add_locked_collateral(&mut self, main: &mut UsdNearStableCoin) -> (done: bool)
        ensures
            old(main).sound() ==> final(main).sound(),
            match old(main)@.add_locked_collateral(*old(self)) {
                Some((state, acc)) => done && final(main)@ == state && *final(self) == acc,
                None => !done && final(main)@ == old(main)@ && *final(self) == *old(self),
            },
    {
        let required: u128 = match self.required_collateral_stnear(main) {
            Some(required) => required,
            None => return false,
        };
        let locked_now: u128 = match self.locked_stnear(main) {
            Some(locked_now) => locked_now,
            None => return false,
        };
        if locked_now >= required {
            return true;
        }
        let free_now: u128 = match self.free_stnear(main) {
            Some(free_now) => free_now,
            None => return false,
        };
        let to_add: u128 = min(free_now, required - locked_now);
        let free_before = main.free_pool;
        let acc_before = *self;
        let released: u128 = match self.remove_free_amount_preserve_share_price(to_add, main) {
            Some(released) => released,
            None => return false,
        };
        if self.add_locked_amount_preserve_share_price(released, main) {
            true
        } else {
            main.free_pool = free_before;
            *self = acc_before;
            false
        }
    }
}

} // verus!
