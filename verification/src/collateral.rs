//! Deposits, withdrawals, loans, repayments and conversions.

use vstd::prelude::*;
use vstd::string::StringExecFns;
use crate::account::BorrowingAccount;
use crate::contract::{State, UsdNearStableCoin};
use crate::guard::GuardState;
use crate::types::{ContractError, FIVE_NEAR, META_POOL_STNEAR_CONTRACT, ONE_NEAR_CENT};
use crate::utils::{min, min_spec};

verus! {

impl State {
    /// The state after `amount` of collateral was credited to the free shares of `id`.
    pub open spec fn deposit_free(self, id: Seq<char>, amount: u128) -> Option<State> {
        match self.add_free(self.account(id), amount) {
            Some((state, acc)) => Some(state.with_account(id, acc)),
            None => None,
        }
    }

    /// The state after `id` redeemed the free shares that `amount` buys.
    pub open spec fn withdraw_free(self, id: Seq<char>, amount: u128) -> Option<State> {
        match self.remove_free(self.account(id), amount) {
            Some((state, acc, _)) => Some(state.with_account(id, acc)),
            None => None,
        }
    }

    /// A deposit notified by `predecessor` for `sender`: accepted from the custodial
    /// contract only, refused while a transfer is pending on the sender's account, and
    /// credited in full to the sender's free collateral.
    pub open spec fn ft_on_transfer(self, predecessor: Seq<char>, sender: Seq<char>, amount: u128)
        -> Result<State, ContractError> {
        if predecessor != META_POOL_STNEAR_CONTRACT@ {
            Err(ContractError::Unauthorized)
        } else if !self.guard.account_idle(sender) {
            Err(ContractError::GuardBusy)
        } else {
            match self.deposit_free(sender, amount) {
                Some(state) => Ok(state),
                None => Err(ContractError::InvariantViolation),
            }
        }
    }

    /// What a withdrawal of `amount` sends out: all the free collateral where less than
    /// half a cent would stay, else `amount`.
    pub open spec fn amount_to_transfer(available: u128, amount: u128) -> u128 {
        if available - amount < ONE_NEAR_CENT / 2 {
            available
        } else {
            amount
        }
    }

    /// A request by `caller` to withdraw `amount` of free collateral: the state, with the
    /// caller's account pending, and the amount to send. Nothing else changes before the
    /// transfer is known to have succeeded.
    pub open spec fn withdraw_stnear(self, caller: Seq<char>, amount: u128) -> Result<
        (State, u128),
        ContractError,
    > {
        if !self.guard.account_idle(caller) {
            Err(ContractError::GuardBusy)
        } else {
            match self.free_stnear(self.account(caller)) {
                Some(available) => {
                    if available < amount {
                        Err(ContractError::InsufficientBalance { available })
                    } else {
                        Ok(
                            (
                                State {
                                    guard: GuardState {
                                        pending_accounts: self.guard.pending_accounts.insert(caller),
                                        ..self.guard
                                    },
                                    ..self
                                },
                                State::amount_to_transfer(available, amount),
                            ),
                        )
                    }
                },
                None => Err(ContractError::InvariantViolation),
            }
        }
    }

    /// The state with the account `id` idle again.
    pub open spec fn released(self, id: Seq<char>) -> State {
        State {
            guard: GuardState {
                pending_accounts: self.guard.pending_accounts.remove(id),
                ..self.guard
            },
            ..self
        }
    }

    /// The outcome of the transfer of `amount` to `id`: the account is idle again; where
    /// the transfer succeeded the shares that `amount` buys are redeemed, else nothing
    /// more changes.
    pub open spec fn after_transfer_stnear_to_user(self, id: Seq<char>, amount: u128, success: bool)
        -> (State, Result<(), ContractError>) {
        if !success {
            (self.released(id), Err(ContractError::ExternalCallFailure))
        } else {
            match self.released(id).withdraw_free(id, amount) {
                Some(state) => (state, Ok(())),
                None => (self.released(id), Err(ContractError::InvariantViolation)),
            }
        }
    }

    /// A loan of `amount` to `caller`: at least five whole tokens and at most the credit
    /// limit, and refused while borrowing is paused or a transfer is pending on the
    /// caller's account. The debt
    /// is added to the debt pool at its price, the lock is brought up to what the new
    /// debt requires, and the debt token is credited to the caller.
    pub open spec fn take_loan(self, caller: Seq<char>, amount: u128) -> Result<State, ContractError> {
        let acc = self.account(caller);
        let balance = self.usdnear_balance(caller);
        if amount < FIVE_NEAR {
            Err(ContractError::AmountBelowMinimum { minimum: FIVE_NEAR })
        } else if self.borrowing_paused {
            Err(ContractError::BorrowingPaused)
        } else if !self.guard.account_idle(caller) {
            Err(ContractError::GuardBusy)
        } else {
            match self.credit_limit(acc) {
                Some(limit) => {
                    if amount > limit {
                        Err(ContractError::InsufficientCollateral { limit })
                    } else if balance + amount > u128::MAX {
                        Err(ContractError::InvariantViolation)
                    } else {
                        match self.add_owed(acc, amount) {
                            Some((owing, acc_owing)) => match owing.add_locked_collateral(acc_owing) {
                                Some((locked, acc_locked)) => Ok(
                                    locked.with_account(caller, acc_locked).with_usdnear_balance(
                                        caller,
                                        (balance + amount) as u128,
                                    ),
                                ),
                                None => Err(ContractError::InvariantViolation),
                            },
                            None => Err(ContractError::InvariantViolation),
                        }
                    }
                },
                None => Err(ContractError::InvariantViolation),
            }
        }
    }

    /// What a repayment of `amount` repays: `amount`, capped at what is owed and at the
    /// balance of the debt token.
    pub open spec fn amount_to_repay(owed: u128, balance: u128, amount: u128) -> u128 {
        min_spec(min_spec(owed, amount), balance)
    }

    /// A repayment by `caller` of `amount`, or of all it owes or all the debt token it
    /// holds if that is less: refused while a transfer is pending on the caller's account
    /// and where the caller owes nothing. The debt token is burned from the caller's
    /// balance and the debt shares that the repayment buys are redeemed.
    pub open spec fn repay_loan(self, caller: Seq<char>, amount: u128) -> Result<State, ContractError> {
        let acc = self.account(caller);
        let balance = self.usdnear_balance(caller);
        if !self.guard.account_idle(caller) {
            Err(ContractError::GuardBusy)
        } else if acc.shares_usdnear_owed == 0 {
            Err(ContractError::NothingOwed)
        } else {
            match self.outstanding_loans_usdnear(acc) {
                Some(owed) => {
                    let to_repay = State::amount_to_repay(owed, balance, amount);
                    match self.remove_owed(acc, to_repay) {
                        Some((repaid, acc_repaid, _)) => Ok(
                            repaid.with_account(caller, acc_repaid).with_usdnear_balance(
                                caller,
                                (balance - to_repay) as u128,
                            ),
                        ),
                        None => Err(ContractError::InvariantViolation),
                    }
                },
                None => Err(ContractError::InvariantViolation),
            }
        }
    }

    /// A conversion by `caller` of `amount` of the debt token: the amount is burned from
    /// the caller's balance and leaves the debt in circulation without burning debt
    /// shares, so that every borrower owes less in proportion. The caller need not be a
    /// borrower. Nothing else changes: no pool of collateral and no borrowing account.
    ///
    /// Refused with `InsufficientBalance` where the caller holds less than `amount`, and
    /// with `InvariantViolation` where more would be burned than is in circulation.
    pub open spec fn convert_usdnear(self, caller: Seq<char>, amount: u128) -> Result<
        State,
        ContractError,
    > {
        let balance = self.usdnear_balance(caller);
        if balance < amount {
            Err(ContractError::InsufficientBalance { available: balance })
        } else if self.debt_pool.total_amount < amount {
            Err(ContractError::InvariantViolation)
        } else {
            Ok(
                State {
                    debt_pool: self.debt_pool.deflate_spec(amount),
                    ..self
                }.with_usdnear_balance(caller, (balance - amount) as u128),
            )
        }
    }
}

impl State {
    /// A deposit into the free collateral of an account keeps the shares balanced.
    pub proof fn lemma_deposit_free(self, id: Seq<char>, amount: u128)
        requires
            self.listed_once(),
            self.balanced(),
        ensures
            match self.deposit_free(id, amount) {
                Some(state) => state.listed_once() && state.balanced(),
                None => true,
            },
    {
        if let Some((moved, acc)) = self.add_free(self.account(id), amount) {
            self.lemma_rebalanced(moved, id, acc);
        }
    }

    /// A redemption from the free collateral of an account keeps the shares balanced.
    pub proof fn lemma_withdraw_free(self, id: Seq<char>, amount: u128)
        requires
            self.listed_once(),
            self.balanced(),
        ensures
            match self.withdraw_free(id, amount) {
                Some(state) => state.listed_once() && state.balanced(),
                None => true,
            },
    {
        self.lemma_holds_at_most(id);
        if let Some((moved, acc, _)) = self.remove_free(self.account(id), amount) {
            self.lemma_rebalanced(moved, id, acc);
        }
    }
}

impl UsdNearStableCoin {
    /// Credits `amount` of collateral to the free shares of `account_id`.
    /// Returns `false`, and changes nothing, where a total would not fit.
    pub(crate) fn add_amount_and_free_shares_preserve_share_price(
        &mut self,
        account_id: &String,
        amount: u128,
    ) -> (done: bool)
        requires
            old(self).sound(),
        ensures
            final(self).sound(),
            match old(self)@.deposit_free(account_id@, amount) {
                Some(state) => done && final(self)@ == state,
                None => !done && final(self)@ == old(self)@,
            },
    {
        let mut acc: BorrowingAccount = self.internal_get_account(account_id);
        if !acc.add_free_amount_preserve_share_price(amount, self) {
            return false;
        }
        self.internal_update_account(account_id, &acc);
        true
    }

    /// Redeems the free shares of `account_id` that `amount` buys.
    /// Returns `false`, and changes nothing, where a value would not fit.
    pub(crate) fn remove_amount_and_free_shares_preserve_share_price(
        &mut self,
        account_id: &String,
        amount: u128,
    ) -> (done: bool)
        requires
            old(self).sound(),
        ensures
            final(self).sound(),
            match old(self)@.withdraw_free(account_id@, amount) {
                Some(state) => done && final(self)@ == state,
                None => !done && final(self)@ == old(self)@,
            },
    {
        let mut acc: BorrowingAccount = self.internal_get_account(account_id);
        if acc.remove_free_amount_preserve_share_price(amount, self).is_none() {
            return false;
        }
        self.internal_update_account(account_id, &acc);
        true
    }

    /// Takes in a deposit of collateral that the custodial contract notifies, and
    /// returns the part of it that was not used, which is nothing.
    ///
    /// `predecessor_id` is the account that makes the call. `_msg` is not read.
    pub fn ft_on_transfer(
        &mut self,
        predecessor_id: &String,
        sender_id: &String,
        amount: u128,
        _msg: &String,
    ) -> (res: Result<u128, ContractError>)
        requires
            old(self).wf(),
        ensures
            final(self).wf(),
            match old(self)@.ft_on_transfer(predecessor_id@, sender_id@, amount) {
                Ok(state) => res == Ok::<u128, ContractError>(0) && final(self)@ == state,
                Err(e) => res == Err::<u128, ContractError>(e) && final(self)@ == old(self)@,
            },
    {
        let custodian: String = String::from_str(META_POOL_STNEAR_CONTRACT);
        if !(*predecessor_id == custodian) {
            return Err(ContractError::Unauthorized);
        }
        if !self.guard.is_account_idle(sender_id) {
            return Err(ContractError::GuardBusy);
        }
        proof {
            old(self)@.lemma_deposit_free(sender_id@, amount);
        }
        if self.add_amount_and_free_shares_preserve_share_price(sender_id, amount) {
            Ok(0)
        } else {
            Err(ContractError::InvariantViolation)
        }
    }

    /// Starts a withdrawal of free collateral by `caller` and returns the amount to send.
    /// The caller's account stays pending until
    /// [`after_transfer_stnear_to_user`](Self::after_transfer_stnear_to_user) is called
    /// with the outcome of the transfer; no share is redeemed before.
    pub fn withdraw_stnear(&mut self, caller: &String, amount: u128) -> (res: Result<
        u128,
        ContractError,
    >)
        requires
            old(self).wf(),
        ensures
            final(self).wf(),
            match old(self)@.withdraw_stnear(caller@, amount) {
                Ok((state, to_transfer)) => res == Ok::<u128, ContractError>(to_transfer)
                    && final(self)@ == state,
                Err(e) => res == Err::<u128, ContractError>(e) && final(self)@ == old(self)@,
            },
    {
        if !self.guard.is_account_idle(caller) {
            return Err(ContractError::GuardBusy);
        }
        let acc: BorrowingAccount = self.internal_get_account(caller);
        let stnear_available: u128 = match acc.free_stnear(self) {
            Some(available) => available,
            None => return Err(ContractError::InvariantViolation),
        };
        if stnear_available < amount {
            return Err(ContractError::InsufficientBalance { available: stnear_available });
        }
        let amount_to_transfer: u128 = if stnear_available - amount < ONE_NEAR_CENT / 2 {
            stnear_available
        } else {
            amount
        };
        let entered = self.guard.enter_account(caller);
        assert(entered.is_ok());
        Ok(amount_to_transfer)
    }

    /// Settles the withdrawal of `amount` by `account_id` once the transfer is known to
    /// have succeeded or failed. The account is idle again either way. On success the
    /// free shares that `amount` buys are redeemed; on failure nothing more changes and
    /// `ExternalCallFailure` is returned.
    pub fn after_transfer_stnear_to_user(&mut self, account_id: &String, amount: u128, success: bool)
        -> (res: Result<(), ContractError>)
        requires
            old(self).wf(),
        ensures
            final(self).wf(),
            final(self)@ == old(self)@.after_transfer_stnear_to_user(account_id@, amount, success).0,
            res == old(self)@.after_transfer_stnear_to_user(account_id@, amount, success).1,
    {
        self.guard.leave_account(account_id);
        if !success {
            return Err(ContractError::ExternalCallFailure);
        }
        proof {
            self@.lemma_withdraw_free(account_id@, amount);
        }
        if self.remove_amount_and_free_shares_preserve_share_price(account_id, amount) {
            Ok(())
        } else {
            Err(ContractError::InvariantViolation)
        }
    }

    /// Lends `usdnear_amount` of the debt token to `caller` against its collateral.
    pub fn take_loan(&mut self, caller: &String, usdnear_amount: u128) -> (res: Result<
        (),
        ContractError,
    >)
        requires
            old(self).wf(),
        ensures
            final(self).wf(),
            match old(self)@.take_loan(caller@, usdnear_amount) {
                Ok(state) => res.is_ok() && final(self)@ == state,
                Err(e) => res == Err::<(), ContractError>(e) && final(self)@ == old(self)@,
            },
    {
        if usdnear_amount < FIVE_NEAR {
            return Err(ContractError::AmountBelowMinimum { minimum: FIVE_NEAR });
        }
        if self.borrowing_paused {
            return Err(ContractError::BorrowingPaused);
        }
        if !self.guard.is_account_idle(caller) {
            return Err(ContractError::GuardBusy);
        }
        let mut acc: BorrowingAccount = self.internal_get_account(caller);
        let limit: u128 = match acc.get_current_credit_limit(self) {
            Some(limit) => limit,
            None => return Err(ContractError::InvariantViolation),
        };
        if usdnear_amount > limit {
            return Err(ContractError::InsufficientCollateral { limit });
        }
        let usdnear_balance: u128 = self.get_usdnear_balance(caller);
        let new_balance: u128 = match usdnear_balance.checked_add(usdnear_amount) {
            Some(b) => b,
            None => return Err(ContractError::InvariantViolation),
        };
        let debt_before = self.debt_pool;
        if !acc.add_owed_usdnear_preserve_share_price(usdnear_amount, self) {
            return Err(ContractError::InvariantViolation);
        }
        if !acc.add_locked_collateral(self) {
            self.debt_pool = debt_before;
            return Err(ContractError::InvariantViolation);
        }
        proof {
            old(self)@.lemma_holds_at_most(caller@);
            old(self)@.lemma_rebalanced(self@, caller@, acc);
        }
        self.internal_update_account(caller, &acc);
        self.set_usdnear_balance(caller, new_balance);
        Ok(())
    }

    /// Repays `usdnear_amount` of what `caller` owes from its balance of the debt token,
    /// or as much of it as is owed and held.
    pub fn repay_loan(&mut self, caller: &String, usdnear_amount: u128) -> (res: Result<
        (),
        ContractError,
    >)
        requires
            old(self).wf(),
        ensures
            final(self).wf(),
            match old(self)@.repay_loan(caller@, usdnear_amount) {
                Ok(state) => res.is_ok() && final(self)@ == state,
                Err(e) => res == Err::<(), ContractError>(e) && final(self)@ == old(self)@,
            },
    {
        if !self.guard.is_account_idle(caller) {
            return Err(ContractError::GuardBusy);
        }
        let mut acc: BorrowingAccount = self.internal_get_account(caller);
        if acc.shares_usdnear_owed == 0 {
            return Err(ContractError::NothingOwed);
        }
        let owed: u128 = match acc.outstanding_loans_usdnear(self) {
            Some(owed) => owed,
            None => return Err(ContractError::InvariantViolation),
        };
        let usdnear_balance: u128 = self.get_usdnear_balance(caller);
        let to_repay: u128 = min(min(owed, usdnear_amount), usdnear_balance);
        if acc.remove_owed_usdnear_preserve_share_price(to_repay, self).is_none() {
            return Err(ContractError::InvariantViolation);
        }
        proof {
            old(self)@.lemma_holds_at_most(caller@);
            old(self)@.lemma_rebalanced(self@, caller@, acc);
        }
        self.internal_update_account(caller, &acc);
        self.set_usdnear_balance(caller, usdnear_balance - to_repay);
        Ok(())
    }

    /// Burns `usdnear_to_convert` of the caller's debt token and takes it out of the
    /// debt in circulation, which lowers what every borrower owes in proportion.
    pub fn convert_usdnear(&mut self, caller: &String, usdnear_to_convert: u128) -> (res: Result<
        (),
        ContractError,
    >)
        requires
            old(self).wf(),
        ensures
            final(self).wf(),
            match old(self)@.convert_usdnear(caller@, usdnear_to_convert) {
                Ok(state) => res.is_ok() && final(self)@ == state,
                Err(e) => res == Err::<(), ContractError>(e) && final(self)@ == old(self)@,
            },
    {
        let usdnear_balance: u128 = self.get_usdnear_balance(caller);
        if usdnear_balance < usdnear_to_convert {
            return Err(ContractError::InsufficientBalance { available: usdnear_balance });
        }
        if self.debt_pool.total_amount < usdnear_to_convert {
            return Err(ContractError::InvariantViolation);
        }
        self.debt_pool.deflate(usdnear_to_convert);
        self.set_usdnear_balance(caller, usdnear_balance - usdnear_to_convert);
        Ok(())
    }
}

} // verus!
