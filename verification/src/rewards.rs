//! Collection of the yield on the locked collateral, once per accounting period.

use vstd::prelude::*;
use crate::account::BorrowingAccount;
use crate::contract::{State, UsdNearStableCoin};
use crate::guard::GuardState;
use crate::types::{ContractError, RewardsOutcome};
use crate::utils::{apply_pct, apply_pct_spec};

verus! {

impl State {
    /// The interest on the debt in circulation for one accounting period, in collateral:
    /// the annual rate applied to the debt, divided by the periods in a year and
    /// converted at the current price.
    pub open spec fn epoch_interest_stnear(self) -> Option<u128> {
        match apply_pct_spec(self.usdnear_apr_basis_points as u32, self.debt_pool.total_amount) {
            Some(year) => {
                if self.epochs_per_year == 0 {
                    None
                } else {
                    self.usdnear_to_stnear((year / (self.epochs_per_year as u128)) as u128)
                }
            },
            None => None,
        }
    }

    /// The start of a collection in the period `epoch_height`: accepted while no resource
    /// is pending and no collection was made in this period; the contract as a whole is
    /// pending from then on.
    pub open spec fn compute_rewards_and_interest(self, epoch_height: u64) -> Result<
        State,
        ContractError,
    > {
        if !self.guard.idle() {
            Err(ContractError::GuardBusy)
        } else if self.last_rewards_epoch_height == epoch_height {
            Err(ContractError::AlreadyRun)
        } else {
            Ok(State { guard: GuardState { contract_pending: true, ..self.guard }, ..self })
        }
    }

    /// The state with the contract as a whole idle again.
    pub open spec fn contract_released(self) -> State {
        State { guard: GuardState { contract_pending: false, ..self.guard }, ..self }
    }

    /// The state after `rewards` of yield were split, and the interest that went to the
    /// treasury: the interest of the period is locked for the treasury at the locked
    /// pool's price, the rest is added to the locked pool without issuing shares, and the
    /// period is marked. `None` where the interest exceeds the yield or where a value
    /// does not fit.
    pub open spec fn distribute_rewards(self, rewards: u128, epoch_height: u64) -> Option<
        (State, u128),
    > {
        match self.epoch_interest_stnear() {
            Some(interest) => {
                if interest > rewards {
                    None
                } else {
                    match self.add_locked(self.account(self.treasury_account_id), interest) {
                        Some((locked, treasury_acc)) => match locked.locked_pool.inflate_spec(
                            (rewards - interest) as u128,
                        ) {
                            Some(pool) => Some(
                                (
                                    State {
                                        locked_pool: pool,
                                        last_rewards_epoch_height: epoch_height,
                                        ..locked
                                    }.with_account(self.treasury_account_id, treasury_acc),
                                    interest,
                                ),
                            ),
                            None => None,
                        },
                        None => None,
                    }
                }
            },
            None => None,
        }
    }

    /// The end of a collection: the contract as a whole is idle again whatever happens.
    /// `total_balance` is the balance the custodian reports for the locked collateral,
    /// or `None` where the query failed. A report under the locked pool's total is
    /// flagged and changes nothing more; the excess over it is yield and is split by
    /// [`distribute_rewards`](State::distribute_rewards), after which the locked pool's
    /// total is the reported balance.
    pub open spec fn after_get_meta_contract_stnear_total_balance(
        self,
        total_balance: Option<u128>,
        epoch_height: u64,
    ) -> (State, Result<RewardsOutcome, ContractError>) {
        let idle = self.contract_released();
        let recorded = self.locked_pool.total_amount;
        match total_balance {
            Some(reported) => {
                if reported < recorded {
                    (idle, Ok(RewardsOutcome::Inconsistent { reported, recorded }))
                } else if reported == recorded {
                    (idle, Ok(RewardsOutcome::Distributed { rewards: 0, treasury_interest: 0 }))
                } else {
                    match idle.distribute_rewards((reported - recorded) as u128, epoch_height) {
                        Some((state, interest)) => (
                            state,
                            Ok(
                                RewardsOutcome::Distributed {
                                    rewards: (reported - recorded) as u128,
                                    treasury_interest: interest,
                                },
                            ),
                        ),
                        None => (idle, Err(ContractError::InvariantViolation)),
                    }
                }
            },
            None => (idle, Err(ContractError::ExternalCallFailure)),
        }
    }
}

impl UsdNearStableCoin {
    /// Starts the collection of rewards for the period `epoch_height`. On success the
    /// custodian is to be asked for the contract's total balance, and
    /// [`after_get_meta_contract_stnear_total_balance`](Self::after_get_meta_contract_stnear_total_balance)
    /// called with the answer. Open to any caller.
    pub fn compute_rewards_and_interest(&mut self, epoch_height: u64) -> (res: Result<
        (),
        ContractError,
    >)
        requires
            old(self).wf(),
        ensures
            final(self).wf(),
            match old(self)@.compute_rewards_and_interest(epoch_height) {
                Ok(state) => res.is_ok() && final(self)@ == state,
                Err(e) => res == Err::<(), ContractError>(e) && final(self)@ == old(self)@,
            },
    {
        if !self.guard.is_idle() {
            return Err(ContractError::GuardBusy);
        }
        if self.last_rewards_epoch_height == epoch_height {
            return Err(ContractError::AlreadyRun);
        }
        let entered = self.guard.enter_contract();
        assert(entered.is_ok());
        Ok(())
    }

    /// The interest on the debt in circulation for one accounting period, in collateral.
    pub fn epoch_interest_stnear(&self) -> (interest: Option<u128>)
        ensures
            interest == self@.epoch_interest_stnear(),
    {
        let interest_year: u128 = match apply_pct(
            self.usdnear_apr_basis_points as u32,
            self.debt_pool.total_amount,
        ) {
            Some(v) => v,
            None => return None,
        };
        if self.epochs_per_year == 0 {
            return None;
        }
        self.usdnear_to_stnear(interest_year / (self.epochs_per_year as u128))
    }

    /// Splits `rewards` of yield between the treasury and the holders of locked
    /// collateral. Returns `None`, and changes nothing, where
    /// [`State::distribute_rewards`] is `None`.
    fn distribute_rewards(&mut self, rewards: u128, epoch_height: u64) -> (interest: Option<u128>)
        requires
            old(self).wf(),
        ensures
            final(self).wf(),
            match old(self)@.distribute_rewards(rewards, epoch_height) {
                Some((state, paid)) => interest == Some(paid) && final(self)@ == state,
                None => interest.is_none() && final(self)@ == old(self)@,
            },
    {
        let interest_stnear: u128 = match self.epoch_interest_stnear() {
            Some(v) => v,
            None => return None,
        };
        if interest_stnear > rewards {
            return None;
        }
        let treasury: String = self.treasury_account_id.clone();
        let mut treasury_acc: BorrowingAccount = self.internal_get_account(&treasury);
        let locked_before = self.locked_pool;
        if !treasury_acc.add_locked_amount_preserve_share_price(interest_stnear, self) {
            return None;
        }
        let rest: u128 = rewards - interest_stnear;
        if !self.locked_pool.inflate(rest) {
            self.locked_pool = locked_before;
            return None;
        }
        self.last_rewards_epoch_height = epoch_height;
        proof {
            old(self)@.lemma_rebalanced(self@, treasury@, treasury_acc);
        }
        self.internal_update_account(&treasury, &treasury_acc);
        Some(interest_stnear)
    }

    /// Ends the collection of rewards with the custodian's answer: `total_balance` is the
    /// balance it reports for the locked collateral, or `None` where the query failed.
    /// `epoch_height` is the current accounting period.
    pub fn after_get_meta_contract_stnear_total_balance(
        &mut self,
        total_balance: Option<u128>,
        epoch_height: u64,
    ) -> (res: Result<RewardsOutcome, ContractError>)
        requires
            old(self).wf(),
        ensures
            final(self).wf(),
            final(self)@ == old(self)@.after_get_meta_contract_stnear_total_balance(
                total_balance,
                epoch_height,
            ).0,
            res == old(self)@.after_get_meta_contract_stnear_total_balance(
                total_balance,
                epoch_height,
            ).1,
    {
        self.guard.leave_contract();
        let new_staked_amount: u128 = match total_balance {
            Some(v) => v,
            None => return Err(ContractError::ExternalCallFailure),
        };
        let recorded: u128 = self.locked_pool.total_amount;
        if new_staked_amount < recorded {
            return Ok(RewardsOutcome::Inconsistent { reported: new_staked_amount, recorded });
        }
        let rewards: u128 = new_staked_amount - recorded;
        if rewards == 0 {
            return Ok(RewardsOutcome::Distributed { rewards: 0, treasury_interest: 0 });
        }
        match self.distribute_rewards(rewards, epoch_height) {
            Some(interest) => Ok(RewardsOutcome::Distributed { rewards, treasury_interest: interest }),
            None => Err(ContractError::InvariantViolation),
        }
    }
}

} // verus!
