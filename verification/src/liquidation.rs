//! Liquidation of an account whose collateral no longer covers its debt.

use vstd::prelude::*;
use crate::account::{compute_ratio_bp, ratio_bp, BorrowingAccount};
use crate::share_pool::SharePool;
use crate::contract::{State, UsdNearStableCoin};
use crate::types::{
    ContractError, FULL_BP, MIN_STNEAR_BALANCE_FOR_LIQUIDATORS, NEAR, TEN_NEAR,
};
use crate::utils::{apply_pct, apply_pct_spec, checked_mul_div, min, min_spec};

verus! {

/// The debt whose repayment brings an account back to the target ratio, the liquidation
/// fee counted in: all the debt where the collateral is worth less than the debt, else
/// `floor((required - valued) * 10000 / (target_bp - (10000 + fee_bp)))`.
pub open spec fn max_repay(valued: u128, owed: u128, required: u128, target_bp: u32, fee_bp: u16)
    -> int {
    if valued < owed {
        owed as int
    } else {
        (required - valued) * 10_000 / (target_bp - (FULL_BP + fee_bp))
    }
}

/// The debt a liquidation repays: the least of [`max_repay`], the whole debt and the
/// liquidator's own limit.
pub open spec fn liquidation_repay(
    valued: u128,
    owed: u128,
    required: u128,
    target_bp: u32,
    fee_bp: u16,
    max_buy: u128,
) -> u128 {
    let most = max_repay(valued, owed, required, target_bp, fee_bp);
    let capped = min_spec(owed, max_buy);
    if most < capped {
        most as u128
    } else {
        capped
    }
}

/// The collateral a liquidator receives for repaying `repay`: what `repay` plus the fee
/// is worth at `price`, and at most all that is locked. `None` where `repay` plus the fee
/// does not fit in 128 bits.
pub open spec fn liquidation_seize(locked: u128, repay: u128, fee_bp: u16, price: u128) -> Option<
    u128,
> {
    match apply_pct_spec((FULL_BP + fee_bp) as u32, repay) {
        Some(with_fee) => {
            let worth = with_fee * NEAR / (price as int);
            Some(
                if worth < locked {
                    worth as u128
                } else {
                    locked
                },
            )
        },
        None => None,
    }
}

impl State {
    /// A liquidation of `loan_account` by `liquidator`, who repays at most `max_usdnear_buy`.
    ///
    /// Accepted where no transfer is pending on either account, the limit is at least ten
    /// whole tokens, the liquidator is another account with at least the minimum of locked
    /// collateral, and the loan account owes and stands under the liquidation threshold.
    /// The conditions are tested in this order, and the first that fails names the error.
    /// Then the repaid debt is burned from the liquidator's balance and redeemed from the
    /// loan account's debt shares, and the collateral seized leaves the loan account's
    /// lock and enters the liquidator's free collateral, each at its pool's price.
    pub open spec fn liquidate(self, liquidator: Seq<char>, loan_account: Seq<char>, max_usdnear_buy: u128)
        -> Result<State, ContractError> {
        let liquidator_acc = self.account(liquidator);
        let loan_acc = self.account(loan_account);
        if !self.guard.account_idle(liquidator) || !self.guard.account_idle(loan_account) {
            Err(ContractError::GuardBusy)
        } else if max_usdnear_buy < TEN_NEAR {
            Err(ContractError::AmountBelowMinimum { minimum: TEN_NEAR })
        } else if liquidator == loan_account {
            Err(ContractError::Unauthorized)
        } else {
            match self.locked_stnear(liquidator_acc) {
                Some(bond) => {
                    if bond < MIN_STNEAR_BALANCE_FOR_LIQUIDATORS {
                        Err(ContractError::InsufficientCollateral { limit: bond })
                    } else if loan_acc.shares_usdnear_owed == 0 {
                        Err(ContractError::NothingOwed)
                    } else {
                        match (
                            self.locked_stnear(loan_acc),
                            self.valued_collateral_usd(loan_acc),
                            self.outstanding_loans_usdnear(loan_acc),
                        ) {
                            (Some(locked), Some(valued), Some(owed)) => self.liquidate_valued(
                                liquidator,
                                loan_account,
                                max_usdnear_buy,
                                locked,
                                valued,
                                owed,
                            ),
                            _ => Err(ContractError::InvariantViolation),
                        }
                    }
                },
                None => Err(ContractError::InvariantViolation),
            }
        }
    }

    /// The liquidation once the loan account's locked collateral, its value and its debt
    /// are known: refused with `NotLiquidatable` where the ratio is not under the
    /// threshold, with `InsufficientBalance` where the liquidator holds less of the debt
    /// token than it would repay, and with `InvariantViolation` where a value does not
    /// fit or where rounding leaves the collateral worth what the target requires.
    pub open spec fn liquidate_valued(
        self,
        liquidator: Seq<char>,
        loan_account: Seq<char>,
        max_usdnear_buy: u128,
        locked: u128,
        valued: u128,
        owed: u128,
    ) -> Result<State, ContractError> {
        let balance = self.usdnear_balance(liquidator);
        let ratio = ratio_bp(valued, owed);
        if ratio >= self.min_collateral_basis_points {
            Err(ContractError::NotLiquidatable { ratio })
        } else {
            match apply_pct_spec(self.collateral_basis_points, owed) {
                Some(required) => {
                    let repay = liquidation_repay(
                        valued,
                        owed,
                        required,
                        self.collateral_basis_points,
                        self.liquidaton_fee_basis_points,
                        max_usdnear_buy,
                    );
                    if valued >= required {
                        Err(ContractError::InvariantViolation)
                    } else if balance < repay {
                        Err(ContractError::InsufficientBalance { available: balance })
                    } else {
                        match liquidation_seize(
                            locked,
                            repay,
                            self.liquidaton_fee_basis_points,
                            self.current_stnear_price,
                        ) {
                            Some(seize) => self.settle_liquidation(
                                liquidator,
                                loan_account,
                                repay,
                                seize,
                            ),
                            None => Err(ContractError::InvariantViolation),
                        }
                    }
                },
                None => Err(ContractError::InvariantViolation),
            }
        }
    }
}

impl State {
    /// The state after `liquidator` repaid `repay` of the debt of `loan_account` and
    /// received the collateral released for `seize`.
    pub open spec fn settle_liquidation(
        self,
        liquidator: Seq<char>,
        loan_account: Seq<char>,
        repay: u128,
        seize: u128,
    ) -> Result<State, ContractError> {
        let balance = self.usdnear_balance(liquidator);
        match self.remove_owed(self.account(loan_account), repay) {
            Some((repaid, loan_repaid, _)) => match repaid.remove_locked(loan_repaid, seize) {
                Some((seized, loan_seized, released)) => match seized.add_free(
                    self.account(liquidator),
                    released,
                ) {
                    Some((paid, liquidator_paid)) => Ok(
                        paid.with_account(loan_account, loan_seized).with_account(
                            liquidator,
                            liquidator_paid,
                        ).with_usdnear_balance(liquidator, (balance - repay) as u128),
                    ),
                    None => Err(ContractError::InvariantViolation),
                },
                None => Err(ContractError::InvariantViolation),
            },
            None => Err(ContractError::InvariantViolation),
        }
    }
}

/// Computes [`liquidation_repay`].
pub fn compute_liquidation_repay(
    valued: u128,
    owed: u128,
    required: u128,
    target_bp: u32,
    fee_bp: u16,
    max_buy: u128,
) -> (repay: u128)
    requires
        valued < required,
        target_bp > FULL_BP + fee_bp,
    ensures
        repay == liquidation_repay(valued, owed, required, target_bp, fee_bp, max_buy),
{
    let capped: u128 = min(owed, max_buy);
    if valued < owed {
        return capped;
    }
    let fee_plus_100: u32 = FULL_BP + fee_bp as u32;
    match checked_mul_div(required - valued, 10_000, (target_bp - fee_plus_100) as u128) {
        Some(most) => min(most, capped),
        None => capped,
    }
}

/// Computes [`liquidation_seize`].
pub fn compute_liquidation_seize(locked: u128, repay: u128, fee_bp: u16, price: u128) -> (seize: Option<u128>)
    requires
        price > 0,
    ensures
        seize == liquidation_seize(locked, repay, fee_bp, price),
{
    let fee_plus_100: u32 = FULL_BP + fee_bp as u32;
    let with_fee: u128 = match apply_pct(fee_plus_100, repay) {
        Some(with_fee) => with_fee,
        None => return None,
    };
    match checked_mul_div(with_fee, NEAR, price) {
        Some(worth) => Some(min(worth, locked)),
        None => Some(locked),
    }
}

impl UsdNearStableCoin {
    /// Liquidates `loan_account_id` on behalf of `liquidator_id`, which repays at most
    /// `max_usdnear_buy` of the debt and receives collateral for it.
    pub fn liquidate(&mut self, liquidator_id: &String, loan_account_id: &String, max_usdnear_buy: u128)
        -> (res: Result<(), ContractError>)
        requires
            old(self).wf(),
        ensures
            final(self).wf(),
            match old(self)@.liquidate(liquidator_id@, loan_account_id@, max_usdnear_buy) {
                Ok(state) => res.is_ok() && final(self)@ == state,
                Err(e) => res == Err::<(), ContractError>(e) && final(self)@ == old(self)@,
            },
    {
        if !self.guard.is_account_idle(liquidator_id) || !self.guard.is_account_idle(
            loan_account_id,
        ) {
            return Err(ContractError::GuardBusy);
        }
        if max_usdnear_buy < TEN_NEAR {
            return Err(ContractError::AmountBelowMinimum { minimum: TEN_NEAR });
        }
        if *liquidator_id == *loan_account_id {
            return Err(ContractError::Unauthorized);
        }
        let mut liquidator_acc: BorrowingAccount = self.internal_get_account(liquidator_id);
        let bond: u128 = match liquidator_acc.locked_stnear(self) {
            Some(bond) => bond,
            None => return Err(ContractError::InvariantViolation),
        };
        if bond < MIN_STNEAR_BALANCE_FOR_LIQUIDATORS {
            return Err(ContractError::InsufficientCollateral { limit: bond });
        }
        let mut loan_acc: BorrowingAccount = self.internal_get_account(loan_account_id);
        if loan_acc.shares_usdnear_owed == 0 {
            return Err(ContractError::NothingOwed);
        }
        let locked: u128 = match loan_acc.locked_stnear(self) {
            Some(locked) => locked,
            None => return Err(ContractError::InvariantViolation),
        };
        let valued: u128 = match self.stnear_to_usd(locked) {
            Some(valued) => valued,
            None => return Err(ContractError::InvariantViolation),
        };
        let owed: u128 = match loan_acc.outstanding_loans_usdnear(self) {
            Some(owed) => owed,
            None => return Err(ContractError::InvariantViolation),
        };
        let ratio: u32 = compute_ratio_bp(valued, owed);
        if ratio >= self.min_collateral_basis_points {
            return Err(ContractError::NotLiquidatable { ratio });
        }
        let required: u128 = match apply_pct(self.collateral_basis_points, owed) {
            Some(required) => required,
            None => return Err(ContractError::InvariantViolation),
        };
        if valued >= required {
            return Err(ContractError::InvariantViolation);
        }
        let repay: u128 = compute_liquidation_repay(
            valued,
            owed,
            required,
            self.collateral_basis_points,
            self.liquidaton_fee_basis_points,
            max_usdnear_buy,
        );
        let balance: u128 = self.get_usdnear_balance(liquidator_id);
        if balance < repay {
            return Err(ContractError::InsufficientBalance { available: balance });
        }
        let seize: u128 = match compute_liquidation_seize(
            locked,
            repay,
            self.liquidaton_fee_basis_points,
            self.current_stnear_price,
        ) {
            Some(seize) => seize,
            None => return Err(ContractError::InvariantViolation),
        };
        let debt_before = self.debt_pool;
        let locked_before = self.locked_pool;
        if loan_acc.remove_owed_usdnear_preserve_share_price(repay, self).is_none() {
            return Err(ContractError::InvariantViolation);
        }
        let released: u128 = match loan_acc.remove_locked_amount_preserve_share_price(seize, self) {
            Some(released) => released,
            None => {
                self.debt_pool = debt_before;
                return Err(ContractError::InvariantViolation);
            },
        };
        if !liquidator_acc.add_free_amount_preserve_share_price(released, self) {
            self.debt_pool = debt_before;
            self.locked_pool = locked_before;
            return Err(ContractError::InvariantViolation);
        }
        proof {
            let before = old(self)@;
            let moved = self@;
            let loan_before = before.account(loan_account_id@);
            before.lemma_holds_at_most(loan_account_id@);
            before.lemma_holds_at_most(liquidator_id@);
            // first the loan account is stored, against pools that already hold what the
            // liquidator receives: take that out of the free pool for this step
            let without_credit = State {
                free_pool: SharePool {
                    total_shares: before.free_pool.total_shares,
                    ..moved.free_pool
                },
                ..moved
            };
            before.lemma_rebalanced(without_credit, loan_account_id@, loan_acc);
            let loan_stored = without_credit.with_account(loan_account_id@, loan_acc);
            assert(loan_stored.account(liquidator_id@) == before.account(liquidator_id@));
            let credited = State { free_pool: moved.free_pool, ..loan_stored };
            loan_stored.lemma_rebalanced(credited, liquidator_id@, liquidator_acc);
            assert(credited.with_account(liquidator_id@, liquidator_acc) == moved.with_account(
                loan_account_id@,
                loan_acc,
            ).with_account(liquidator_id@, liquidator_acc));
        }
        self.internal_update_account(loan_account_id, &loan_acc);
        self.internal_update_account(liquidator_id, &liquidator_acc);
        self.set_usdnear_balance(liquidator_id, balance - repay);
        Ok(())
    }
}

} // verus!
