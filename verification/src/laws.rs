//! Laws that relate several operations.

use vstd::prelude::*;
use vstd::arithmetic::div_mod::lemma_fundamental_div_mod_converse;
use crate::account::{lemma_ratio_falls_as_debt_grows, BorrowingAccount};
use crate::contract::{ratios_consistent, State};
use crate::liquidation::{liquidation_repay, liquidation_seize, max_repay};
use crate::share_pool::SharePool;
use crate::types::{ContractError, RewardsOutcome, FULL_BP, NEAR};
use crate::internal::{
    lemma_add_amount, lemma_deposit_bounds, lemma_par_is_kept, lemma_redeem_bounds,
    lemma_remove_amount, unit_price, worth,
};
use crate::utils::{apply_pct_spec, min_spec, mul_div};

verus! {

/// A withdrawal whose transfer fails leaves everything as it was before the request:
/// the pools, every account and balance, and the guard, which is idle again.
pub proof fn lemma_failed_withdrawal_restores_state(state: State, caller: Seq<char>, amount: u128)
    requires
        state.withdraw_stnear(caller, amount).is_ok(),
    ensures
        ({
            let (pending, sent) = state.withdraw_stnear(caller, amount).unwrap();
            let (after, res) = pending.after_transfer_stnear_to_user(caller, sent, false);
            &&& pending.guard.pending_accounts.contains(caller)
            &&& pending.free_pool == state.free_pool
            &&& pending.account(caller) == state.account(caller)
            &&& after == state
            &&& after.guard.account_idle(caller)
            &&& res == Err::<(), ContractError>(ContractError::ExternalCallFailure)
        }),
{
    let (pending, sent) = state.withdraw_stnear(caller, amount).unwrap();
    let (after, res) = pending.after_transfer_stnear_to_user(caller, sent, false);
    assert(after.guard.pending_accounts =~= state.guard.pending_accounts);
    assert(after =~= state);
}

impl State {
    /// Every resource that is pending in `self` is still pending in `later`.
    pub open spec fn still_pending_in(self, later: State) -> bool {
        &&& self.guard.contract_pending ==> later.guard.contract_pending
        &&& self.guard.pending_accounts.subset_of(later.guard.pending_accounts)
    }
}

/// No operation on collateral or debt returns a pending resource to idle: only the
/// callback of the transfer does, or the owner's override.
pub proof fn lemma_operations_release_nothing(
    state: State,
    caller: Seq<char>,
    other: Seq<char>,
    amount: u128,
)
    ensures
        match state.ft_on_transfer(caller, other, amount) {
            Ok(after) => state.still_pending_in(after),
            Err(_) => true,
        },
        match state.withdraw_stnear(caller, amount) {
            Ok((after, _)) => state.still_pending_in(after),
            Err(_) => true,
        },
        match state.take_loan(caller, amount) {
            Ok(after) => state.still_pending_in(after),
            Err(_) => true,
        },
        match state.repay_loan(caller, amount) {
            Ok(after) => state.still_pending_in(after),
            Err(_) => true,
        },
        match state.convert_usdnear(caller, amount) {
            Ok(after) => state.still_pending_in(after),
            Err(_) => true,
        },
{
}

/// While a transfer is pending on an account, or on the contract as a whole, every
/// operation on the collateral or the debt of that account is refused, and so is a
/// liquidation in which it takes part.
pub proof fn lemma_pending_account_is_refused(
    state: State,
    caller: Seq<char>,
    other: Seq<char>,
    amount: u128,
)
    requires
        !state.guard.account_idle(caller),
    ensures
        state.ft_on_transfer(other, caller, amount).is_err(),
        state.withdraw_stnear(caller, amount).is_err(),
        state.take_loan(caller, amount).is_err(),
        state.repay_loan(caller, amount).is_err(),
        state.liquidate(caller, other, amount).is_err(),
        state.liquidate(other, caller, amount).is_err(),
        forall|epoch_height: u64| state.compute_rewards_and_interest(epoch_height).is_err(),
{
    if state.guard.pending_accounts.contains(caller) {
        assert(!(state.guard.pending_accounts =~= Set::<Seq<char>>::empty()));
    }
}

/// Neither a liquidation, nor the start of a collection of rewards, nor a transfer of
/// the debt token returns a pending resource to idle.
pub proof fn lemma_settlements_release_nothing(
    state: State,
    caller: Seq<char>,
    other: Seq<char>,
    amount: u128,
    epoch_height: u64,
)
    ensures
        match state.liquidate(caller, other, amount) {
            Ok(after) => state.still_pending_in(after),
            Err(_) => true,
        },
        match state.compute_rewards_and_interest(epoch_height) {
            Ok(after) => state.still_pending_in(after),
            Err(_) => true,
        },
        match state.usdnear_transfer(caller, other, amount) {
            Ok(after) => state.still_pending_in(after),
            Err(_) => true,
        },
{
}

/// The free pool stands at par from the start and no operation takes it off par:
/// nothing but deposits and redemptions at its own price ever reaches it.
pub proof fn lemma_free_pool_stays_at_par(
    state: State,
    caller: Seq<char>,
    other: Seq<char>,
    amount: u128,
    success: bool,
)
    requires
        state.free_pool.at_par(),
    ensures
        match state.ft_on_transfer(other, caller, amount) {
            Ok(after) => after.free_pool.at_par(),
            Err(_) => true,
        },
        state.after_transfer_stnear_to_user(caller, amount, success).0.free_pool.at_par(),
        match state.take_loan(caller, amount) {
            Ok(after) => after.free_pool.at_par(),
            Err(_) => true,
        },
        match state.repay_loan(caller, amount) {
            Ok(after) => after.free_pool == state.free_pool,
            Err(_) => true,
        },
        match state.convert_usdnear(caller, amount) {
            Ok(after) => after.free_pool == state.free_pool,
            Err(_) => true,
        },
        match state.liquidate(caller, other, amount) {
            Ok(after) => after.free_pool.at_par(),
            Err(_) => true,
        },
{
    let acc = state.account(caller);
    lemma_par_is_kept(acc.free_shares, state.free_pool, amount);
    if state.take_loan(caller, amount).is_ok() {
        let (owing, acc_owing) = state.add_owed(acc, amount).unwrap();
        lemma_rebalance_keeps_par(owing, acc_owing);
    }
    if let Ok(after) = state.liquidate(caller, other, amount) {
        let loan = state.account(other);
        let locked = state.locked_stnear(loan).unwrap();
        let valued = state.valued_collateral_usd(loan).unwrap();
        let owed = state.outstanding_loans_usdnear(loan).unwrap();
        let required = apply_pct_spec(state.collateral_basis_points, owed).unwrap();
        let repay = liquidation_repay(
            valued,
            owed,
            required,
            state.collateral_basis_points,
            state.liquidaton_fee_basis_points,
            amount,
        );
        let seize = liquidation_seize(
            locked,
            repay,
            state.liquidaton_fee_basis_points,
            state.current_stnear_price,
        ).unwrap();
        assert(state.liquidate_valued(caller, other, amount, locked, valued, owed) == Ok::<
            State,
            ContractError,
        >(after));
        let (repaid, loan_repaid, _) = state.remove_owed(loan, repay).unwrap();
        let (seized, _, released) = repaid.remove_locked(loan_repaid, seize).unwrap();
        lemma_par_is_kept(acc.free_shares, seized.free_pool, released);
    }
}

/// Bringing the lock of an account up to what its debt requires leaves a free pool at
/// par at par.
pub proof fn lemma_rebalance_keeps_par(state: State, acc: BorrowingAccount)
    requires
        state.free_pool.at_par(),
    ensures
        match state.add_locked_collateral(acc) {
            Some((after, _)) => after.free_pool.at_par(),
            None => true,
        },
{
    if let (Some(required), Some(locked_now), Some(free_now)) = (
        state.required_collateral_stnear(acc),
        state.locked_stnear(acc),
        state.free_stnear(acc),
    ) {
        if locked_now < required {
            let to_add = min_spec(free_now, (required - locked_now) as u128);
            lemma_par_is_kept(acc.free_shares, state.free_pool, to_add);
        }
    }
}

/// What an account holds in a pool is never worth more than the pool holds: in a valid
/// state the free collateral, the locked collateral and the debt of every account can
/// be computed and are covered by their pools. While the free pool stands at par, a
/// unit of free collateral is a share of it.
pub proof fn lemma_claims_are_covered(state: State, id: Seq<char>)
    requires
        state.wf(),
    ensures
        ({
            let acc = state.account(id);
            &&& state.free_stnear(acc).is_some()
            &&& state.free_stnear(acc).unwrap() <= state.free_pool.total_amount
            &&& state.free_pool.at_par() ==> state.free_stnear(acc).unwrap() == acc.free_shares
            &&& state.locked_stnear(acc).is_some()
            &&& state.locked_stnear(acc).unwrap() <= state.locked_pool.total_amount
            &&& state.outstanding_loans_usdnear(acc).is_some()
            &&& state.outstanding_loans_usdnear(acc).unwrap() <= state.debt_pool.total_amount
        }),
{
    let acc = state.account(id);
    state.lemma_holds_at_most(id);
    state.free_pool.lemma_withdraw_rounding(acc.free_shares);
    state.locked_pool.lemma_withdraw_rounding(acc.locked_collateral_shares);
    state.debt_pool.lemma_withdraw_rounding(acc.shares_usdnear_owed);
    if state.free_pool.at_par() {
        state.free_pool.lemma_at_par(acc.free_shares);
    }
}

/// While the free pool stands at par, a withdrawal whose transfer succeeds takes off
/// the books exactly what was sent: the free pool and the account's free collateral
/// fall by the amount sent, nothing else changes, and the guard is as it was before the
/// request.
pub proof fn lemma_settled_withdrawal_is_exact(state: State, caller: Seq<char>, amount: u128)
    requires
        state.wf(),
        state.free_pool.at_par(),
        state.withdraw_stnear(caller, amount).is_ok(),
    ensures
        ({
            let (pending, sent) = state.withdraw_stnear(caller, amount).unwrap();
            let (after, res) = pending.after_transfer_stnear_to_user(caller, sent, true);
            let available = state.free_stnear(state.account(caller)).unwrap();
            &&& res.is_ok()
            &&& amount <= sent <= available
            &&& after.free_pool.total_amount == state.free_pool.total_amount - sent
            &&& after.free_stnear(after.account(caller)) == Some((available - sent) as u128)
            &&& after.locked_pool == state.locked_pool
            &&& after.debt_pool == state.debt_pool
            &&& after.usdnear_balances == state.usdnear_balances
            &&& after.guard == state.guard
        }),
{
    let (pending, sent) = state.withdraw_stnear(caller, amount).unwrap();
    let (after, res) = pending.after_transfer_stnear_to_user(caller, sent, true);
    let acc = state.account(caller);
    state.lemma_holds_at_most(caller);
    state.free_pool.lemma_at_par(acc.free_shares);
    state.free_pool.lemma_at_par(sent);
    let settled = pending.released(caller);
    assert(settled.guard.pending_accounts =~= state.guard.pending_accounts);
    assert(settled.account(caller) == acc);
    let (moved, acc_moved, released) = settled.remove_free(acc, sent).unwrap();
    assert(after == moved.with_account(caller, acc_moved));
    assert(after.account(caller) == acc_moved);
    after.free_pool.lemma_at_par(acc_moved.free_shares);
}

impl State {
    /// All the collateral on the books, free and locked.
    pub open spec fn total_collateral(self) -> int {
        self.free_pool.total_amount + self.locked_pool.total_amount
    }
}

/// A loan moves collateral from the free pool to the locked pool and creates or
/// destroys none.
pub proof fn lemma_loan_conserves_collateral(state: State, caller: Seq<char>, amount: u128)
    requires
        state.wf(),
    ensures
        match state.take_loan(caller, amount) {
            Ok(after) => after.total_collateral() == state.total_collateral(),
            Err(_) => true,
        },
{
    if state.take_loan(caller, amount).is_ok() {
        state.lemma_holds_at_most(caller);
        let (owing, acc_owing) = state.add_owed(state.account(caller), amount).unwrap();
        lemma_rebalance_conserves_collateral(owing, acc_owing);
    }
}

/// Bringing the lock of an account up to what its debt requires moves collateral from
/// the free pool to the locked pool and creates or destroys none.
pub proof fn lemma_rebalance_conserves_collateral(state: State, acc: BorrowingAccount)
    requires
        acc.free_shares <= state.free_pool.total_shares,
    ensures
        match state.add_locked_collateral(acc) {
            Some((after, _)) => after.total_collateral() == state.total_collateral()
                && after.debt_pool == state.debt_pool,
            None => true,
        },
{
    if let (Some(required), Some(locked_now), Some(free_now)) = (
        state.required_collateral_stnear(acc),
        state.locked_stnear(acc),
        state.free_stnear(acc),
    ) {
        if locked_now < required {
            let to_add = min_spec(free_now, (required - locked_now) as u128);
            lemma_remove_amount(acc.free_shares, state.free_pool, to_add);
            if let Some((freed, acc_freed, released)) = state.remove_free(acc, to_add) {
                lemma_add_amount(acc_freed.locked_collateral_shares, freed.locked_pool, released);
            }
        }
    }
}

/// A repayment leaves the collateral as it is.
pub proof fn lemma_repayment_conserves_collateral(state: State, caller: Seq<char>, amount: u128)
    ensures
        match state.repay_loan(caller, amount) {
            Ok(after) => after.free_pool == state.free_pool && after.locked_pool
                == state.locked_pool,
            Err(_) => true,
        },
{
}

/// A conversion burns the amount from the caller's balance and takes it out of the debt
/// in circulation, and changes nothing else: no debt share, no pool of collateral and no
/// borrowing account. No borrower owes more after it than before.
pub proof fn lemma_conversion_relieves_every_borrower(
    state: State,
    caller: Seq<char>,
    amount: u128,
    borrower: Seq<char>,
)
    ensures
        match state.convert_usdnear(caller, amount) {
            Ok(after) => {
                &&& after.usdnear_balance(caller) == state.usdnear_balance(caller) - amount
                &&& after.debt_pool.total_amount == state.debt_pool.total_amount - amount
                &&& after.debt_pool.total_shares == state.debt_pool.total_shares
                &&& after.free_pool == state.free_pool
                &&& after.locked_pool == state.locked_pool
                &&& after.b_accounts == state.b_accounts
                &&& after.account_order == state.account_order
                &&& after.guard == state.guard
                &&& match state.outstanding_loans_usdnear(state.account(borrower)) {
                    Some(owed) => match after.outstanding_loans_usdnear(after.account(borrower)) {
                        Some(owed_after) => owed_after <= owed,
                        None => false,
                    },
                    None => true,
                }
            },
            Err(_) => true,
        },
{
    if let Ok(after) = state.convert_usdnear(caller, amount) {
        let d = state.account(borrower).shares_usdnear_owed as int;
        let t = state.debt_pool.total_amount as int;
        let t2 = after.debt_pool.total_amount as int;
        let s = state.debt_pool.total_shares as int;
        if s > 0 {
            assert(0 <= (d * t2) / s <= (d * t) / s) by (nonlinear_arith)
                requires
                    0 <= t2 <= t,
                    d >= 0,
                    s > 0,
            ;
        }
    }
}

/// A liquidation moves collateral from the locked pool to the free pool and creates or
/// destroys none.
pub proof fn lemma_liquidation_conserves_collateral(
    state: State,
    liquidator: Seq<char>,
    loan_account: Seq<char>,
    max_usdnear_buy: u128,
)
    requires
        state.wf(),
    ensures
        match state.liquidate(liquidator, loan_account, max_usdnear_buy) {
            Ok(after) => after.total_collateral() == state.total_collateral(),
            Err(_) => true,
        },
{
    if let Ok(after) = state.liquidate(liquidator, loan_account, max_usdnear_buy) {
        state.lemma_holds_at_most(loan_account);
        let loan = state.account(loan_account);
        let locked = state.locked_stnear(loan).unwrap();
        let valued = state.valued_collateral_usd(loan).unwrap();
        let owed = state.outstanding_loans_usdnear(loan).unwrap();
        let required = apply_pct_spec(state.collateral_basis_points, owed).unwrap();
        let repay = liquidation_repay(
            valued,
            owed,
            required,
            state.collateral_basis_points,
            state.liquidaton_fee_basis_points,
            max_usdnear_buy,
        );
        let seize = liquidation_seize(
            locked,
            repay,
            state.liquidaton_fee_basis_points,
            state.current_stnear_price,
        ).unwrap();
        assert(state.liquidate_valued(liquidator, loan_account, max_usdnear_buy, locked, valued, owed)
            == Ok::<State, ContractError>(after));
        lemma_settlement_conserves_collateral(state, liquidator, loan_account, repay, seize);
    }
}

/// The settlement of a liquidation moves collateral from the locked pool to the free
/// pool and creates or destroys none.
pub proof fn lemma_settlement_conserves_collateral(
    state: State,
    liquidator: Seq<char>,
    loan_account: Seq<char>,
    repay: u128,
    seize: u128,
)
    requires
        state.account(loan_account).locked_collateral_shares <= state.locked_pool.total_shares,
    ensures
        match state.settle_liquidation(liquidator, loan_account, repay, seize) {
            Ok(after) => after.total_collateral() == state.total_collateral(),
            Err(_) => true,
        },
{
    let loan = state.account(loan_account);
    if let Some((repaid, loan_repaid, _)) = state.remove_owed(loan, repay) {
        lemma_remove_amount(loan_repaid.locked_collateral_shares, repaid.locked_pool, seize);
        if let Some((seized, _, released)) = repaid.remove_locked(loan_repaid, seize) {
            lemma_add_amount(state.account(liquidator).free_shares, seized.free_pool, released);
        }
    }
}

/// A collection of rewards leaves the contract idle and the free pool and the debt pool
/// as they were. Where it distributes, the locked pool's total afterwards is the
/// reported balance; the locked shares grow by what the treasury receives in shares and
/// by nothing else; every other account keeps its record, and a locked share is worth
/// no less than before; and where there was any yield, the period is marked.
pub proof fn lemma_rewards_reconcile_the_books(
    state: State,
    reported: u128,
    epoch_height: u64,
    other: Seq<char>,
)
    requires
        state.wf(),
    ensures
        ({
            let (after, outcome) = state.after_get_meta_contract_stnear_total_balance(
                Some(reported),
                epoch_height,
            );
            let treasury = state.treasury_account_id;
            &&& !after.guard.contract_pending
            &&& after.guard.pending_accounts == state.guard.pending_accounts
            &&& after.free_pool == state.free_pool
            &&& after.debt_pool == state.debt_pool
            &&& other != treasury ==> after.account(other) == state.account(other)
            &&& match outcome {
                Ok(RewardsOutcome::Distributed { rewards, treasury_interest }) => {
                    &&& after.locked_pool.total_amount == reported
                    &&& rewards == reported - state.locked_pool.total_amount
                    &&& treasury_interest <= rewards
                    &&& after.locked_pool.total_shares - state.locked_pool.total_shares
                        == after.account(treasury).locked_collateral_shares - state.account(
                        treasury,
                    ).locked_collateral_shares
                    &&& after.locked_pool.total_shares >= state.locked_pool.total_shares
                    &&& state.locked_pool.total_shares > 0 ==> state.locked_pool.price_le(
                        after.locked_pool,
                    )
                    &&& rewards > 0 ==> after.last_rewards_epoch_height == epoch_height
                },
                _ => after.locked_pool == state.locked_pool && after.account(treasury)
                    == state.account(treasury),
            }
        }),
{
    let idle = state.contract_released();
    let recorded = state.locked_pool.total_amount;
    if reported > recorded {
        let rewards = (reported - recorded) as u128;
        if let Some((after, interest)) = idle.distribute_rewards(rewards, epoch_height) {
            let treasury = idle.account(idle.treasury_account_id);
            lemma_add_amount(treasury.locked_collateral_shares, idle.locked_pool, interest);
            idle.locked_pool.lemma_deposit_rounding(interest);
            let (locked, treasury_acc) = idle.add_locked(treasury, interest).unwrap();
            assert(after.account(idle.treasury_account_id) == treasury_acc);
            let a0 = idle.locked_pool.total_amount as int;
            let s0 = idle.locked_pool.total_shares as int;
            let a1 = locked.locked_pool.total_amount as int;
            let s1 = locked.locked_pool.total_shares as int;
            let a2 = after.locked_pool.total_amount as int;
            if s0 > 0 {
                assert(a0 * s1 <= a2 * s0) by (nonlinear_arith)
                    requires
                        a0 * s1 <= a1 * s0,
                        a1 <= a2,
                        s0 >= 0,
                ;
            }
        }
    }
}

/// A collection of rewards distributes whenever there is yield to split: the report
/// exceeds the locked pool's total, the interest of the period can be computed and is
/// at most the yield, and the treasury's shares fit into the locked pool.
pub proof fn lemma_rewards_are_distributed(state: State, reported: u128, epoch_height: u64)
    requires
        state.wf(),
        reported > state.locked_pool.total_amount,
        state.epoch_interest_stnear().is_some(),
        state.epoch_interest_stnear().unwrap() <= reported - state.locked_pool.total_amount,
        state.add_locked(
            state.account(state.treasury_account_id),
            state.epoch_interest_stnear().unwrap(),
        ).is_some(),
    ensures
        ({
            let (after, outcome) = state.after_get_meta_contract_stnear_total_balance(
                Some(reported),
                epoch_height,
            );
            &&& outcome == Ok::<RewardsOutcome, ContractError>(
                RewardsOutcome::Distributed {
                    rewards: (reported - state.locked_pool.total_amount) as u128,
                    treasury_interest: state.epoch_interest_stnear().unwrap(),
                },
            )
            &&& after.locked_pool.total_amount == reported
            &&& after.last_rewards_epoch_height == epoch_height
            &&& !after.guard.contract_pending
        }),
{
    let idle = state.contract_released();
    let interest = idle.epoch_interest_stnear().unwrap();
    let treasury = idle.account(idle.treasury_account_id);
    lemma_add_amount(treasury.locked_collateral_shares, idle.locked_pool, interest);
}

/// With the collateral and the price held fixed, the collateralization ratio of an
/// account never rises when its debt rises: between two states in which the account's
/// collateral has the same value, the one with the larger debt has the smaller or the
/// same ratio.
pub proof fn lemma_ratio_monotonic_in_debt(
    before: State,
    after: State,
    acc_before: BorrowingAccount,
    acc_after: BorrowingAccount,
)
    requires
        before.valued_collateral_usd(acc_before).is_some(),
        before.valued_collateral_usd(acc_before) == after.valued_collateral_usd(acc_after),
        before.outstanding_loans_usdnear(acc_before).is_some(),
        after.outstanding_loans_usdnear(acc_after).is_some(),
        before.outstanding_loans_usdnear(acc_before).unwrap() <= after.outstanding_loans_usdnear(
            acc_after,
        ).unwrap(),
    ensures
        before.collateralization_ratio(acc_before).is_some(),
        after.collateralization_ratio(acc_after).is_some(),
        after.collateralization_ratio(acc_after).unwrap() <= before.collateralization_ratio(
            acc_before,
        ).unwrap(),
{
    lemma_ratio_falls_as_debt_grows(
        before.valued_collateral_usd(acc_before).unwrap(),
        before.outstanding_loans_usdnear(acc_before).unwrap(),
        after.outstanding_loans_usdnear(acc_after).unwrap(),
    );
}

/// A deposit of `amount` into a valid pool followed by the redemption of the shares that
/// `amount` buys afterwards gives back exactly the shares issued: the share total returns
/// to what it was, and the amount total is not lower than before and, where any share
/// exists, higher by less than the price of one share plus one.
pub proof fn lemma_deposit_then_redeem(pool: SharePool, amount: u128)
    requires
        pool.wf(),
        pool.deposit_spec(amount).is_some(),
    ensures
        ({
            let (funded, issued) = pool.deposit_spec(amount).unwrap();
            &&& funded.shares_from_amount_spec(amount) == Some(issued)
            &&& funded.withdraw_spec(issued).is_some()
            &&& funded.withdraw_spec(issued).unwrap().0.total_shares == pool.total_shares
            &&& funded.withdraw_spec(issued).unwrap().0.total_amount >= pool.total_amount
            &&& funded.withdraw_spec(issued).unwrap().1 <= amount
            &&& funded.total_shares > 0 ==> (funded.withdraw_spec(issued).unwrap().0.total_amount
                - pool.total_amount) * funded.total_shares < pool.total_amount
                + funded.total_shares
        }),
{
    let (funded, issued) = pool.deposit_spec(amount).unwrap();
    let a = amount as int;
    let t = pool.total_amount as int;
    let s = pool.total_shares as int;
    let n = issued as int;
    if s == 0 {
        // an empty pool issues one share per unit
        assert(t == 0 && n == a);
        if a > 0 {
            assert(a * a / a == a) by (nonlinear_arith)
                requires
                    a > 0,
            ;
        }
        assert(funded.shares_from_amount_spec(amount) == Some(issued));
        assert(funded.withdraw_spec(issued).unwrap().1 == amount);
        assert(0 * funded.total_shares == 0) by (nonlinear_arith);
    } else {
        assert(t > 0);
        assert(n == (a * s) / t);
        let rho = (a * s) % t;
        assert(a * (s + n) == n * (t + a) + rho && 0 <= rho < t) by (nonlinear_arith)
            requires
                n == (a * s) / t,
                rho == (a * s) % t,
                t > 0,
        ;
        lemma_fundamental_div_mod_converse(a * (s + n), t + a, n, rho);
        assert(funded.shares_from_amount_spec(amount) == Some(issued));
        let back = (n * (t + a)) / (s + n);
        assert(back <= a && (a - back) * (s + n) < t + (s + n)) by (nonlinear_arith)
            requires
                back == (n * (t + a)) / (s + n),
                a * (s + n) == n * (t + a) + rho,
                0 <= rho < t,
                s + n > 0,
                n >= 0,
                a >= 0,
        ;
        assert(back >= 0) by (nonlinear_arith)
            requires
                back == (n * (t + a)) / (s + n),
                s + n > 0,
                n >= 0,
                t + a >= 0,
        ;
        assert(mul_div(issued, funded.total_amount, funded.total_shares) == Some(back as u128));
    }
}

/// In a debt pool that holds something while it has shares, a loan repaid at once and in
/// full leaves the borrower's debt shares, its balance of the debt token and the debt
/// pool's shares exactly as they were before the loan. The debt in circulation is not
/// lower than before, and higher by less than the price of one debt share plus one. The
/// repayment does not touch the lock that the loan built up.
///
/// "In full" means that what the account owes after the loan is at least the amount
/// borrowed, so that all of it is repaid.
pub proof fn lemma_loan_then_repayment(state: State, caller: Seq<char>, amount: u128)
    requires
        state.wf(),
        state.debt_pool.wf(),
        state.take_loan(caller, amount).is_ok(),
        state.take_loan(caller, amount).unwrap().repay_loan(caller, amount).is_ok(),
        ({
            let lent = state.take_loan(caller, amount).unwrap();
            lent.outstanding_loans_usdnear(lent.account(caller)).unwrap() >= amount
        }),
    ensures
        ({
            let lent = state.take_loan(caller, amount).unwrap();
            let repaid = lent.repay_loan(caller, amount).unwrap();
            &&& repaid.account(caller).shares_usdnear_owed == state.account(
                caller,
            ).shares_usdnear_owed
            &&& repaid.usdnear_balance(caller) == state.usdnear_balance(caller)
            &&& repaid.debt_pool.total_shares == state.debt_pool.total_shares
            &&& repaid.debt_pool.total_amount >= state.debt_pool.total_amount
            &&& (repaid.debt_pool.total_amount - state.debt_pool.total_amount)
                * lent.debt_pool.total_shares < state.debt_pool.total_amount
                + lent.debt_pool.total_shares
            &&& repaid.account(caller).locked_collateral_shares == lent.account(
                caller,
            ).locked_collateral_shares
            &&& repaid.account(caller).free_shares == lent.account(caller).free_shares
            &&& repaid.free_pool == lent.free_pool
            &&& repaid.locked_pool == lent.locked_pool
        }),
{
    let acc = state.account(caller);
    let lent = state.take_loan(caller, amount).unwrap();
    let (owing, acc_owing) = state.add_owed(acc, amount).unwrap();
    let (locked, acc_locked) = owing.add_locked_collateral(acc_owing).unwrap();
    assert(lent.debt_pool == owing.debt_pool);
    assert(lent.account(caller) == acc_locked);
    assert(acc_locked.shares_usdnear_owed == acc_owing.shares_usdnear_owed);
    lemma_deposit_then_redeem(state.debt_pool, amount);
}

/// While the debt pool stands at par, a loan can always be repaid at once, and the
/// repayment of the amount borrowed returns the borrower's debt, its balance of the debt
/// token and the debt pool exactly to what they were before the loan.
pub proof fn lemma_loan_then_repayment_at_par(state: State, caller: Seq<char>, amount: u128)
    requires
        state.wf(),
        state.debt_pool.at_par(),
        state.take_loan(caller, amount).is_ok(),
    ensures
        ({
            let lent = state.take_loan(caller, amount).unwrap();
            let repaid = lent.repay_loan(caller, amount);
            &&& lent.outstanding_loans_usdnear(lent.account(caller)) == Some(
                (state.account(caller).shares_usdnear_owed + amount) as u128,
            )
            &&& repaid.is_ok()
            &&& repaid.unwrap().debt_pool == state.debt_pool
            &&& repaid.unwrap().account(caller).shares_usdnear_owed == state.account(
                caller,
            ).shares_usdnear_owed
            &&& repaid.unwrap().outstanding_loans_usdnear(repaid.unwrap().account(caller))
                == state.outstanding_loans_usdnear(state.account(caller))
            &&& repaid.unwrap().usdnear_balance(caller) == state.usdnear_balance(caller)
        }),
{
    let acc = state.account(caller);
    let lent = state.take_loan(caller, amount).unwrap();
    state.lemma_holds_at_most(caller);
    state.debt_pool.lemma_at_par(amount);
    let (owing, acc_owing) = state.add_owed(acc, amount).unwrap();
    let (locked, acc_locked) = owing.add_locked_collateral(acc_owing).unwrap();
    assert(owing.debt_pool.at_par());
    assert(lent.debt_pool == owing.debt_pool);
    assert(lent.account(caller) == acc_locked);
    assert(acc_locked.shares_usdnear_owed == acc.shares_usdnear_owed + amount);
    lent.debt_pool.lemma_at_par(acc_locked.shares_usdnear_owed);
    lent.debt_pool.lemma_at_par(amount);
    assert(lent.usdnear_balance(caller) == state.usdnear_balance(caller) + amount);
    assert(State::amount_to_repay(
        acc_locked.shares_usdnear_owed,
        lent.usdnear_balance(caller),
        amount,
    ) == amount);
    let repaid = lent.repay_loan(caller, amount).unwrap();
    assert(repaid.account(caller).shares_usdnear_owed == acc.shares_usdnear_owed);
    state.debt_pool.lemma_at_par(acc.shares_usdnear_owed);
}

/// A loan moves no collateral where the lock already covers what the new debt requires:
/// then the loan, and the repayment after it, leave the borrower's free and locked
/// shares and both collateral pools as they were.
pub proof fn lemma_loan_keeps_a_sufficient_lock(state: State, caller: Seq<char>, amount: u128)
    requires
        state.take_loan(caller, amount).is_ok(),
        ({
            let (owing, acc_owing) = state.add_owed(state.account(caller), amount).unwrap();
            owing.required_collateral_stnear(acc_owing).unwrap() <= owing.locked_stnear(
                acc_owing,
            ).unwrap()
        }),
    ensures
        ({
            let lent = state.take_loan(caller, amount).unwrap();
            &&& lent.account(caller).locked_collateral_shares == state.account(
                caller,
            ).locked_collateral_shares
            &&& lent.account(caller).free_shares == state.account(caller).free_shares
            &&& lent.locked_pool == state.locked_pool
            &&& lent.free_pool == state.free_pool
            &&& match lent.repay_loan(caller, amount) {
                Ok(repaid) => {
                    &&& repaid.account(caller).locked_collateral_shares == state.account(
                        caller,
                    ).locked_collateral_shares
                    &&& repaid.account(caller).free_shares == state.account(caller).free_shares
                    &&& repaid.locked_pool == state.locked_pool
                    &&& repaid.free_pool == state.free_pool
                },
                Err(_) => true,
            }
        }),
{
    let acc = state.account(caller);
    let lent = state.take_loan(caller, amount).unwrap();
    let (owing, acc_owing) = state.add_owed(acc, amount).unwrap();
    let (locked, acc_locked) = owing.add_locked_collateral(acc_owing).unwrap();
    assert(locked == owing && acc_locked == acc_owing);
    assert(lent.account(caller) == acc_locked);
}

/// In a debt pool that holds something while it has shares, after a loan repaid at once
/// and in full the borrower owes what it owed before the
/// loan or a rounding loss more: at most the growth of the debt in circulation, which is
/// at most one unit where a debt share was worth at most one unit before the loan.
pub proof fn lemma_loan_then_repayment_debt(state: State, caller: Seq<char>, amount: u128)
    requires
        state.wf(),
        state.debt_pool.wf(),
        state.take_loan(caller, amount).is_ok(),
        state.take_loan(caller, amount).unwrap().repay_loan(caller, amount).is_ok(),
        ({
            let lent = state.take_loan(caller, amount).unwrap();
            lent.outstanding_loans_usdnear(lent.account(caller)).unwrap() >= amount
        }),
    ensures
        ({
            let lent = state.take_loan(caller, amount).unwrap();
            let repaid = lent.repay_loan(caller, amount).unwrap();
            let owed_before = state.outstanding_loans_usdnear(state.account(caller));
            let owed_after = repaid.outstanding_loans_usdnear(repaid.account(caller));
            let growth = repaid.debt_pool.total_amount - state.debt_pool.total_amount;
            &&& owed_before.is_some()
            &&& owed_after.is_some()
            &&& growth >= 0
            &&& owed_before.unwrap() <= owed_after.unwrap() <= owed_before.unwrap() + growth
            &&& state.debt_pool.total_amount <= state.debt_pool.total_shares ==> growth <= 1
        }),
{
    lemma_loan_then_repayment(state, caller, amount);
    state.lemma_holds_at_most(caller);
    let lent = state.take_loan(caller, amount).unwrap();
    let repaid = lent.repay_loan(caller, amount).unwrap();
    let d = state.account(caller).shares_usdnear_owed as int;
    let t = state.debt_pool.total_amount as int;
    let s = state.debt_pool.total_shares as int;
    let t2 = repaid.debt_pool.total_amount as int;
    let s1 = lent.debt_pool.total_shares as int;
    let g = t2 - t;
    assert(repaid.account(caller).shares_usdnear_owed == d);
    assert(repaid.debt_pool.total_shares == s);
    if s > 0 {
        assert((d * t) / s <= (d * t2) / s <= (d * t) / s + g && (d * t2) / s <= t2 && 0 <= (d * t)
            / s) by (nonlinear_arith)
            requires
                0 <= d <= s,
                s > 0,
                0 <= t <= t2,
                g == t2 - t,
        ;
        assert(s1 >= s) by {
            assert(state.add_owed(state.account(caller), amount).is_some());
        }
        if t <= s {
            assert(g <= 1) by (nonlinear_arith)
                requires
                    g * s1 < t + s1,
                    t <= s,
                    s <= s1,
                    s1 > 0,
            ;
        }
    } else {
        assert(t == 0);
        assert(s1 > 0) by {
            assert(state.add_owed(state.account(caller), amount).is_some());
        }
        assert(g <= 1) by (nonlinear_arith)
            requires
                g * s1 < 0 + s1,
                s1 > 0,
        ;
    }
}

/// What a liquidation repays where the liquidator's limit does not bind.
///
/// The repayment never exceeds the debt. Where the collateral is worth less than the
/// debt, all the debt is repaid. Else, where less than all the debt is repaid, the
/// account is brought to the target ratio from below and misses it by less than one
/// step of the division: with `repay` repaid and `repay` plus the fee taken from the
/// collateral's value, `target * debt - 10000 * value` is at least zero and less than
/// `target - (10000 + fee) + 10000`.
pub proof fn lemma_liquidation_reaches_target(
    valued: u128,
    owed: u128,
    target_bp: u32,
    threshold_bp: u32,
    fee_bp: u16,
    max_buy: u128,
)
    requires
        ratios_consistent(target_bp, threshold_bp, fee_bp),
        apply_pct_spec(target_bp, owed).is_some(),
        valued < apply_pct_spec(target_bp, owed).unwrap(),
        max_buy >= owed,
    ensures
        ({
            let required = apply_pct_spec(target_bp, owed).unwrap();
            let repay = liquidation_repay(valued, owed, required, target_bp, fee_bp, max_buy);
            let debt_left = owed - repay;
            let value_left_bp = 10_000 * valued - repay * (FULL_BP + fee_bp);
            &&& repay <= owed
            &&& valued < owed ==> repay == owed
            &&& valued >= owed && repay < owed ==> 0 <= target_bp * debt_left - value_left_bp
                < (target_bp - (FULL_BP + fee_bp)) + 10_000
        }),
{
    let required = apply_pct_spec(target_bp, owed).unwrap();
    let repay = liquidation_repay(valued, owed, required, target_bp, fee_bp, max_buy);
    if valued >= owed && repay < owed {
        let t = target_bp as int;
        let f = (FULL_BP + fee_bp) as int;
        let v = valued as int;
        let d = owed as int;
        let r = required as int;
        let x = repay as int;
        assert(x == max_repay(valued, owed, required, target_bp, fee_bp));
        assert(x == ((r - v) * 10_000) / (t - f));
        assert(r == (d * t) / 10_000);
        assert(0 <= t * (d - x) - (10_000 * v - x * f) < (t - f) + 10_000) by (nonlinear_arith)
            requires
                x == ((r - v) * 10_000) / (t - f),
                r == (d * t) / 10_000,
                t - f > 0,
                r > v,
        ;
    }
}

/// Whether a liquidation reaches the target without a rounding loss: the target is a
/// whole multiple of 100% and lies at most 100% above 100% plus the liquidation fee, as
/// a target of 200% with a fee of 10% does.
pub open spec fn target_is_reached_exactly(target_bp: u32, fee_bp: u16) -> bool {
    target_bp % 10_000 == 0 && target_bp - (FULL_BP + fee_bp) <= 10_000
}

/// With such a target, the repayment of [`liquidation_repay`] and the fee taken on it
/// leave the collateral worth at least the target ratio of the debt left.
pub proof fn lemma_liquidation_reaches_target_exactly(
    valued: u128,
    owed: u128,
    target_bp: u32,
    threshold_bp: u32,
    fee_bp: u16,
    max_buy: u128,
)
    requires
        ratios_consistent(target_bp, threshold_bp, fee_bp),
        target_is_reached_exactly(target_bp, fee_bp),
        apply_pct_spec(target_bp, owed).is_some(),
        valued < apply_pct_spec(target_bp, owed).unwrap(),
        valued >= owed,
        max_buy >= owed,
    ensures
        ({
            let required = apply_pct_spec(target_bp, owed).unwrap();
            let repay = liquidation_repay(valued, owed, required, target_bp, fee_bp, max_buy);
            let with_fee = (repay * (FULL_BP + fee_bp)) / 10_000;
            repay < owed ==> 10_000 * (valued - with_fee) >= target_bp * (owed - repay)
        }),
{
    let required = apply_pct_spec(target_bp, owed).unwrap();
    let repay = liquidation_repay(valued, owed, required, target_bp, fee_bp, max_buy);
    if repay < owed {
        let t = target_bp as int;
        let f = (FULL_BP + fee_bp) as int;
        let v = valued as int;
        let d = owed as int;
        let r = required as int;
        let x = repay as int;
        let w = (x * f) / 10_000;
        let k = t / 10_000;
        assert(x == max_repay(valued, owed, required, target_bp, fee_bp));
        assert(x == ((r - v) * 10_000) / (t - f));
        assert(t == k * 10_000);
        assert(r == (d * t) / 10_000);
        assert(r == k * d) by (nonlinear_arith)
            requires
                r == (d * t) / 10_000,
                t == k * 10_000,
        ;
        // the repayment misses the exact quotient by less than one, the fee is rounded down
        assert((t - f) * x >= (r - v) * 10_000 - (t - f) + 1 && 10_000 * w <= f * x)
            by (nonlinear_arith)
            requires
                x == ((r - v) * 10_000) / (t - f),
                w == (x * f) / 10_000,
                t - f > 0,
        ;
        // both sides are whole multiples of 10000 and differ by less than 10000
        assert(k * x - w >= r - v) by (nonlinear_arith)
            requires
                (t - f) * x >= (r - v) * 10_000 - (t - f) + 1,
                10_000 * w <= f * x,
                t == k * 10_000,
                0 < t - f <= 10_000,
        ;
        assert(10_000 * (v - w) >= t * (d - x)) by (nonlinear_arith)
            requires
                k * x - w >= r - v,
                r == k * d,
                t == k * 10_000,
        ;
    }
}

/// Where the debt pool and the locked pool stand at par and the liquidator's limit does
/// not bind, a liquidation either clears all the debt of the loan account, or leaves it
/// within one step of the target ratio: with `owed` the debt left and `valued` the value
/// of the collateral left, `target * owed - 10000 * valued` is less than
/// `target - (10000 + fee) + 10000`. With a target that is reached exactly, as the
/// target of 200% with a fee of 10% is, the account is left at the target ratio or above.
pub proof fn lemma_liquidation_settles_near_target(
    state: State,
    liquidator: Seq<char>,
    loan_account: Seq<char>,
    max_usdnear_buy: u128,
)
    requires
        state.wf(),
        state.debt_pool.at_par(),
        state.locked_pool.at_par(),
        state.liquidate(liquidator, loan_account, max_usdnear_buy).is_ok(),
        max_usdnear_buy >= state.outstanding_loans_usdnear(state.account(loan_account)).unwrap(),
    ensures
        ({
            let settled = state.liquidate(liquidator, loan_account, max_usdnear_buy).unwrap();
            let acc = settled.account(loan_account);
            let owed = settled.outstanding_loans_usdnear(acc);
            let valued = settled.valued_collateral_usd(acc);
            &&& owed.is_some()
            &&& valued.is_some()
            &&& owed.unwrap() == 0 || state.collateral_basis_points * owed.unwrap() - 10_000
                * valued.unwrap() < (state.collateral_basis_points - (FULL_BP
                + state.liquidaton_fee_basis_points)) + 10_000
            &&& target_is_reached_exactly(
                state.collateral_basis_points,
                state.liquidaton_fee_basis_points,
            ) ==> owed.unwrap() == 0 || 10_000 * valued.unwrap() >= state.collateral_basis_points
                * owed.unwrap()
        }),
{
    let settled = state.liquidate(liquidator, loan_account, max_usdnear_buy).unwrap();
    let loan = state.account(loan_account);
    let locked = state.locked_stnear(loan).unwrap();
    let valued = state.valued_collateral_usd(loan).unwrap();
    let owed = state.outstanding_loans_usdnear(loan).unwrap();
    let target = state.collateral_basis_points;
    let fee = state.liquidaton_fee_basis_points;
    let required = apply_pct_spec(target, owed).unwrap();
    let repay = liquidation_repay(valued, owed, required, target, fee, max_usdnear_buy);
    let seize = liquidation_seize(locked, repay, fee, state.current_stnear_price).unwrap();
    assert(state.liquidate_valued(liquidator, loan_account, max_usdnear_buy, locked, valued, owed)
        == Ok::<State, ContractError>(settled));
    assert(state.settle_liquidation(liquidator, loan_account, repay, seize) == Ok::<
        State,
        ContractError,
    >(settled));
    state.lemma_holds_at_most(loan_account);
    state.debt_pool.lemma_at_par(loan.shares_usdnear_owed);
    state.debt_pool.lemma_at_par(repay);
    state.locked_pool.lemma_at_par(loan.locked_collateral_shares);
    state.locked_pool.lemma_at_par(seize);
    lemma_liquidation_reaches_target(
        valued,
        owed,
        target,
        state.min_collateral_basis_points,
        fee,
        max_usdnear_buy,
    );
    // at par the loan account holds its debt and its lock unit for unit
    assert(owed == loan.shares_usdnear_owed);
    assert(locked == loan.locked_collateral_shares);
    assert(repay <= owed);
    assert(seize <= locked);
    let (repaid, loan_repaid, _) = state.remove_owed(loan, repay).unwrap();
    let (seized, loan_seized, released) = repaid.remove_locked(loan_repaid, seize).unwrap();
    assert(loan_seized.shares_usdnear_owed == owed - repay);
    assert(loan_seized.locked_collateral_shares == locked - seize);
    assert(seized.debt_pool.at_par());
    assert(seized.locked_pool.at_par());
    assert(settled.debt_pool == seized.debt_pool);
    assert(settled.locked_pool == seized.locked_pool);
    assert(settled.account(loan_account) == loan_seized);
    seized.debt_pool.lemma_at_par(loan_seized.shares_usdnear_owed);
    seized.locked_pool.lemma_at_par(loan_seized.locked_collateral_shares);
    let owed_left = (owed - repay) as u128;
    let locked_left = (locked - seize) as u128;
    if owed_left > 0 {
        assert(settled.outstanding_loans_usdnear(loan_seized) == Some(owed_left));
        let price = state.current_stnear_price as int;
        let with_fee = (repay * (FULL_BP + fee)) / 10_000;
        let valued_left = (locked_left * price) / (NEAR as int);
        assert(valued == (locked * price) / (NEAR as int));
        assert(valued_left <= valued && valued_left >= valued - with_fee && 10_000 * with_fee
            <= repay * (FULL_BP + fee) && valued_left >= 0) by (nonlinear_arith)
            requires
                valued == (locked * price) / (NEAR as int),
                valued_left == (locked_left * price) / (NEAR as int),
                with_fee == (repay * (FULL_BP + fee)) / 10_000,
                locked_left == locked - seize,
                seize <= (with_fee * NEAR) / price,
                0 <= seize <= locked,
                price > 0,
                NEAR > 0,
                repay >= 0,
                fee >= 0,
        ;
        if locked_left > 0 {
            assert(settled.valued_collateral_usd(loan_seized) == Some(valued_left as u128));
        } else {
            assert(seized.locked_pool.total_shares >= 0);
            assert(valued_left == 0) by (nonlinear_arith)
                requires
                    valued_left == (locked_left * price) / (NEAR as int),
                    locked_left == 0,
                    NEAR > 0,
            ;
            assert(settled.valued_collateral_usd(loan_seized) == Some(0u128));
        }
        assert(valued >= owed ==> repay < owed);
        if target_is_reached_exactly(target, fee) {
            lemma_liquidation_reaches_target_exactly(
                valued,
                owed,
                target,
                state.min_collateral_basis_points,
                fee,
                max_usdnear_buy,
            );
        }
    } else {
        assert(settled.outstanding_loans_usdnear(loan_seized) == Some(0u128));
        assert(settled.valued_collateral_usd(loan_seized).is_some()) by {
            let price = state.current_stnear_price as int;
            let valued_left = (locked_left * price) / (NEAR as int);
            assert(0 <= valued_left <= valued) by (nonlinear_arith)
                requires
                    valued == (locked * price) / (NEAR as int),
                    valued_left == (locked_left * price) / (NEAR as int),
                    0 <= locked_left <= locked,
                    price > 0,
                    NEAR > 0,
            ;
        }
    }
}

/// In every valid state, a liquidation whose limit does not bind leaves the loan account
/// at the target ratio up to rounding. With `slack` the price of one debt share in whole
/// units plus two, the debt left is at most the debt less the repayment plus `slack`, the
/// collateral left is worth at least its value before less the repayment with the fee,
/// and either the debt left is at most `slack`, or `target * owed - 10000 * valued` of
/// what is left is less than `target - (10000 + fee) + 10000 + target * slack`.
pub proof fn lemma_liquidation_settles_within_rounding(
    state: State,
    liquidator: Seq<char>,
    loan_account: Seq<char>,
    max_usdnear_buy: u128,
)
    requires
        state.wf(),
        state.liquidate(liquidator, loan_account, max_usdnear_buy).is_ok(),
        max_usdnear_buy >= state.outstanding_loans_usdnear(state.account(loan_account)).unwrap(),
    ensures
        ({
            let settled = state.liquidate(liquidator, loan_account, max_usdnear_buy).unwrap();
            let loan = state.account(loan_account);
            let owed = state.outstanding_loans_usdnear(loan).unwrap();
            let valued = state.valued_collateral_usd(loan).unwrap();
            let target = state.collateral_basis_points;
            let fee_plus_100 = FULL_BP + state.liquidaton_fee_basis_points;
            let repay = liquidation_repay(
                valued,
                owed,
                apply_pct_spec(target, owed).unwrap(),
                target,
                state.liquidaton_fee_basis_points,
                max_usdnear_buy,
            );
            let with_fee = (repay * fee_plus_100) / 10_000;
            let acc = settled.account(loan_account);
            let owed_left = settled.outstanding_loans_usdnear(acc);
            let valued_left = settled.valued_collateral_usd(acc);
            let slack = unit_price(state.debt_pool) + 2;
            &&& owed_left.is_some()
            &&& valued_left.is_some()
            &&& repay <= owed
            &&& owed - repay <= owed_left.unwrap() <= owed - repay + slack
            &&& valued - with_fee <= valued_left.unwrap() <= valued
            &&& owed_left.unwrap() <= slack || target * owed_left.unwrap() - 10_000
                * valued_left.unwrap() < (target - fee_plus_100) + 10_000 + target * slack
        }),
{
    let settled = state.liquidate(liquidator, loan_account, max_usdnear_buy).unwrap();
    let loan = state.account(loan_account);
    let locked = state.locked_stnear(loan).unwrap();
    let valued = state.valued_collateral_usd(loan).unwrap();
    let owed = state.outstanding_loans_usdnear(loan).unwrap();
    let target = state.collateral_basis_points;
    let fee = state.liquidaton_fee_basis_points;
    let required = apply_pct_spec(target, owed).unwrap();
    let repay = liquidation_repay(valued, owed, required, target, fee, max_usdnear_buy);
    let seize = liquidation_seize(locked, repay, fee, state.current_stnear_price).unwrap();
    assert(state.liquidate_valued(liquidator, loan_account, max_usdnear_buy, locked, valued, owed)
        == Ok::<State, ContractError>(settled));
    assert(state.settle_liquidation(liquidator, loan_account, repay, seize) == Ok::<
        State,
        ContractError,
    >(settled));
    state.lemma_holds_at_most(loan_account);
    lemma_liquidation_reaches_target(
        valued,
        owed,
        target,
        state.min_collateral_basis_points,
        fee,
        max_usdnear_buy,
    );
    assert(owed == worth(loan.shares_usdnear_owed, state.debt_pool));
    assert(locked == worth(loan.locked_collateral_shares, state.locked_pool));
    lemma_redeem_bounds(loan.shares_usdnear_owed, state.debt_pool, repay);
    lemma_redeem_bounds(loan.locked_collateral_shares, state.locked_pool, seize);
    let (repaid, loan_repaid, _) = state.remove_owed(loan, repay).unwrap();
    let (seized, loan_seized, released) = repaid.remove_locked(loan_repaid, seize).unwrap();
    assert(settled.debt_pool == repaid.debt_pool);
    assert(settled.locked_pool == seized.locked_pool);
    assert(settled.account(loan_account) == loan_seized);
    let owed_left = worth(loan_seized.shares_usdnear_owed, settled.debt_pool);
    let locked_left = worth(loan_seized.locked_collateral_shares, settled.locked_pool);
    assert(settled.outstanding_loans_usdnear(loan_seized) == Some(owed_left as u128));
    assert(settled.locked_stnear(loan_seized) == Some(locked_left as u128));
    let price = state.current_stnear_price as int;
    let f = (FULL_BP + fee) as int;
    let with_fee = (repay * f) / 10_000;
    let valued_left = (locked_left * price) / (NEAR as int);
    assert(valued == (locked * price) / (NEAR as int));
    assert(0 <= valued_left <= valued && valued_left >= valued - with_fee && 10_000 * with_fee
        <= repay * f) by (nonlinear_arith)
        requires
            valued == (locked * price) / (NEAR as int),
            valued_left == (locked_left * price) / (NEAR as int),
            with_fee == (repay * f) / 10_000,
            locked - seize <= locked_left <= locked,
            seize <= (with_fee * NEAR) / price,
            0 <= seize <= locked,
            price > 0,
            NEAR > 0,
            repay >= 0,
            f >= 0,
    ;
    assert(settled.valued_collateral_usd(loan_seized) == Some(valued_left as u128));
    let slack = unit_price(state.debt_pool) + 2;
    assert(slack >= 2) by (nonlinear_arith)
        requires
            slack == unit_price(state.debt_pool) + 2,
            unit_price(state.debt_pool) == (if state.debt_pool.total_shares == 0 {
                0
            } else {
                (state.debt_pool.total_amount as int) / (state.debt_pool.total_shares as int)
            }),
    ;
    if repay < owed {
        let t = target as int;
        let d = owed as int;
        let x = repay as int;
        let v = valued as int;
        assert(t * owed_left - 10_000 * valued_left < (t - f) + 10_000 + t * slack)
            by (nonlinear_arith)
            requires
                t * (d - x) - (10_000 * v - x * f) < (t - f) + 10_000,
                owed_left <= d - x + slack,
                valued_left >= v - with_fee,
                10_000 * with_fee <= x * f,
                t >= 0,
        ;
    }
}

/// In every valid state, a loan followed at once by the repayment of the amount borrowed
/// leaves the borrower owing what it owed before, up to rounding: at least that less the
/// price of one debt share before the loan and one unit, and at most that plus the price
/// of one debt share after the loan and two units. While the debt pool holds something
/// for its shares and a debt share is worth at most one unit, the borrower owes what it
/// owed before or up to two units more. The
/// borrower's balance of the debt token is not lower than before.
pub proof fn lemma_loan_then_repayment_within_rounding(
    state: State,
    caller: Seq<char>,
    amount: u128,
)
    requires
        state.wf(),
        state.take_loan(caller, amount).is_ok(),
        state.take_loan(caller, amount).unwrap().repay_loan(caller, amount).is_ok(),
    ensures
        ({
            let lent = state.take_loan(caller, amount).unwrap();
            let repaid = lent.repay_loan(caller, amount).unwrap();
            let owed_before = state.outstanding_loans_usdnear(state.account(caller));
            let owed_after = repaid.outstanding_loans_usdnear(repaid.account(caller));
            &&& owed_before.is_some()
            &&& owed_after.is_some()
            &&& owed_before.unwrap() - unit_price(state.debt_pool) - 1 <= owed_after.unwrap()
            &&& owed_after.unwrap() <= owed_before.unwrap() + unit_price(lent.debt_pool) + 2
            &&& state.debt_pool.wf() && state.debt_pool.total_amount
                <= state.debt_pool.total_shares ==> owed_before.unwrap() <= owed_after.unwrap()
                <= owed_before.unwrap() + 2
            &&& repaid.usdnear_balance(caller) >= state.usdnear_balance(caller)
        }),
{
    let acc = state.account(caller);
    let lent = state.take_loan(caller, amount).unwrap();
    let repaid = lent.repay_loan(caller, amount).unwrap();
    state.lemma_holds_at_most(caller);
    lemma_deposit_bounds(acc.shares_usdnear_owed, state.debt_pool, amount);
    let (owing, acc_owing) = state.add_owed(acc, amount).unwrap();
    let (locked, acc_locked) = owing.add_locked_collateral(acc_owing).unwrap();
    assert(lent.debt_pool == owing.debt_pool);
    assert(lent.account(caller) == acc_locked);
    assert(acc_locked.shares_usdnear_owed == acc_owing.shares_usdnear_owed);
    let owed = worth(acc.shares_usdnear_owed, state.debt_pool);
    assert(state.outstanding_loans_usdnear(acc) == Some(owed as u128)) by {
        state.debt_pool.lemma_withdraw_rounding(acc.shares_usdnear_owed);
    }
    let owed_lent = worth(acc_locked.shares_usdnear_owed, lent.debt_pool);
    assert(lent.outstanding_loans_usdnear(acc_locked) == Some(owed_lent as u128));
    let balance = lent.usdnear_balance(caller);
    assert(balance == state.usdnear_balance(caller) + amount);
    let to_repay = State::amount_to_repay(owed_lent as u128, balance, amount);
    assert(to_repay <= owed_lent && to_repay <= amount);
    assert(to_repay == amount || to_repay == owed_lent);
    lemma_redeem_bounds(acc_locked.shares_usdnear_owed, lent.debt_pool, to_repay);
    let (paid, acc_paid, _) = lent.remove_owed(acc_locked, to_repay).unwrap();
    assert(repaid.debt_pool == paid.debt_pool);
    assert(repaid.account(caller) == acc_paid);
    let owed_after = worth(acc_paid.shares_usdnear_owed, repaid.debt_pool);
    assert(repaid.outstanding_loans_usdnear(acc_paid) == Some(owed_after as u128));
    let q0 = unit_price(state.debt_pool);
    let q1 = unit_price(lent.debt_pool);
    let t0 = state.debt_pool.total_amount as int;
    let s0 = state.debt_pool.total_shares as int;
    let t1 = lent.debt_pool.total_amount as int;
    let s1 = lent.debt_pool.total_shares as int;
    assert(q0 >= 0 && q1 >= 0 && owed >= 0 && owed_after >= 0) by (nonlinear_arith)
        requires
            q0 == (if s0 == 0 { 0 } else { t0 / s0 }),
            q1 == (if s1 == 0 { 0 } else { t1 / s1 }),
            t0 >= 0,
            t1 >= 0,
            s0 >= 0,
            s1 >= 0,
            owed == worth(acc.shares_usdnear_owed, state.debt_pool),
            owed_after == worth(acc_paid.shares_usdnear_owed, repaid.debt_pool),
            owed == (if s0 == 0 { 0 } else { (acc.shares_usdnear_owed * t0) / s0 }),
            owed_after == (if repaid.debt_pool.total_shares == 0 {
                0
            } else {
                (acc_paid.shares_usdnear_owed * repaid.debt_pool.total_amount) / (
                repaid.debt_pool.total_shares as int)
            }),
    ;
    if !state.debt_pool.wf() {
        // shares that stand for nothing: nothing was owed
        assert(t0 == 0 && s0 > 0);
        assert(owed == 0) by (nonlinear_arith)
            requires
                owed == (acc.shares_usdnear_owed * t0) / s0,
                t0 == 0,
                s0 > 0,
        ;
    }
    if state.debt_pool.wf() && t0 <= s0 {
        // a share worth at most one unit stays worth at most one unit
        assert(q0 <= 1 && (t0 < s0 ==> q0 == 0)) by (nonlinear_arith)
            requires
                q0 == (if s0 == 0 { 0 } else { t0 / s0 }),
                0 <= t0 <= s0,
        ;
        state.debt_pool.lemma_deposit_rounding(amount);
        assert(t1 <= s1) by {
            if s0 > 0 {
                let n = (amount * s0) / t0;
                assert(n >= amount) by (nonlinear_arith)
                    requires
                        n == (amount * s0) / t0,
                        0 < t0 <= s0,
                        amount >= 0,
                ;
                assert(state.debt_pool.shares_from_amount_spec(amount) == Some(n as u128));
                assert(s1 == s0 + n);
            }
        }
        assert(q1 <= 1 && (t1 < s1 ==> q1 == 0)) by (nonlinear_arith)
            requires
                q1 == (if s1 == 0 { 0 } else { t1 / s1 }),
                0 <= t1 <= s1,
        ;
        if owed_lent >= amount {
            lemma_loan_then_repayment_debt(state, caller, amount);
        } else {
            // the loan was rounded down to less than the amount: then nothing was owed
            // before, and the repayment of all that is owed leaves at most the rounding
            assert(to_repay == owed_lent);
            assert(owed_lent >= owed + amount - q0 - 1);
            // at par the whole amount would be owed
            assert(!(s0 > 0 && t0 == s0)) by {
                if s0 > 0 && t0 == s0 {
                    state.debt_pool.lemma_at_par(amount);
                    state.debt_pool.lemma_at_par(acc.shares_usdnear_owed);
                    lent.debt_pool.lemma_at_par(acc_locked.shares_usdnear_owed);
                }
            }
            assert(owed == 0);
            if t1 == s1 {
                lent.debt_pool.lemma_at_par(acc_locked.shares_usdnear_owed);
                lent.debt_pool.lemma_at_par(to_repay);
                assert(acc_paid.shares_usdnear_owed == 0);
                assert(owed_after == 0) by (nonlinear_arith)
                    requires
                        acc_paid.shares_usdnear_owed == 0,
                        owed_after == (if repaid.debt_pool.total_shares == 0 {
                            0
                        } else {
                            (acc_paid.shares_usdnear_owed * repaid.debt_pool.total_amount) / (
                            repaid.debt_pool.total_shares as int)
                        }),
                ;
            }
        }
    }
}

} // verus!
