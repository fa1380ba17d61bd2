//! What the owner may do, and what anyone may read.

use vstd::prelude::*;
use vstd::string::StringExecFns;
use crate::account::BorrowingAccount;
use crate::contract::{option_string_view, ratios_consistent, State, UsdNearStableCoin};
use crate::guard::GuardState;
use crate::types::{
    AccountInfo, ContractError, ContractParamsJSON, GetAccountInfoResult, GetContractStateResult,
    NEP129Response, CONTRACT_NAME, CONTRACT_SOURCE, CONTRACT_VERSION, DEVELOPERS_ACCOUNT_ID, FULL_BP,
};

verus! {

/// Whether a price may replace `current`: it moves by at most a quarter, up or down.
pub open spec fn price_move_allowed(current: u128, price: u128) -> bool {
    75 * current <= 100 * price <= 125 * current
}

/// An empty text stands for no text.
pub open spec fn text_or_none(text: Seq<char>) -> Option<Seq<char>> {
    if text.len() == 0 {
        None
    } else {
        Some(text)
    }
}

impl State {
    /// What is reported of the account `id`. `None` where an amount does not fit.
    pub open spec fn account_info(self, id: Seq<char>) -> Option<AccountInfo> {
        let acc = self.account(id);
        match (
            self.free_stnear(acc),
            self.locked_stnear(acc),
            self.credit_limit(acc),
            self.outstanding_loans_usdnear(acc),
            self.collateralization_ratio(acc),
        ) {
            (Some(stnear), Some(locked_stnear), Some(limit), Some(owed), Some(ratio)) => Some(
                AccountInfo {
                    account_id: id,
                    usdnear: self.usdnear_balance(id),
                    stnear,
                    stnear_price_usd: self.current_stnear_price,
                    locked_stnear,
                    usdnear_credit_limit: limit,
                    outstanding_loans_usdnear: owed,
                    collateralization_ratio: ratio,
                    stbl: acc.stbl,
                },
            ),
            _ => None,
        }
    }

    /// The parameters as they are reported.
    pub open spec fn params(self) -> ContractParamsJSON {
        ContractParamsJSON {
            collateral_basis_points: self.collateral_basis_points,
            min_collateral_basis_points: self.min_collateral_basis_points,
            borrowing_paused: self.borrowing_paused,
            min_account_balance: self.min_account_balance,
            usdnear_apr_basis_points: self.usdnear_apr_basis_points,
            epochs_per_year: self.epochs_per_year,
            operator_fee_basis_points: self.operator_fee_basis_points,
            treasury_fee_basis_points: self.treasury_fee_basis_points,
        }
    }

    /// Whether `params` may be set: the ratios are consistent with the liquidation fee
    /// and the fee split is whole.
    pub open spec fn params_acceptable(self, params: ContractParamsJSON) -> bool {
        &&& ratios_consistent(
            params.collateral_basis_points,
            params.min_collateral_basis_points,
            self.liquidaton_fee_basis_points,
        )
        &&& params.operator_fee_basis_points + params.treasury_fee_basis_points == FULL_BP
    }

    /// The state with `params` in place of the parameters.
    pub open spec fn with_params(self, params: ContractParamsJSON) -> State {
        State {
            collateral_basis_points: params.collateral_basis_points,
            min_collateral_basis_points: params.min_collateral_basis_points,
            borrowing_paused: params.borrowing_paused,
            min_account_balance: params.min_account_balance,
            usdnear_apr_basis_points: params.usdnear_apr_basis_points,
            epochs_per_year: params.epochs_per_year,
            operator_fee_basis_points: params.operator_fee_basis_points,
            treasury_fee_basis_points: params.treasury_fee_basis_points,
            ..self
        }
    }
}

impl UsdNearStableCoin {
    /// Whether the owner may add a full access key: only while no borrowing account exists.
    /// The key itself is added by the caller of this function.
    pub fn add_full_access_key(&self, caller: &String) -> (res: Result<(), ContractError>)
        requires
            self.wf(),
        ensures
            res == if caller@ != self@.owner_account_id {
                Err::<(), ContractError>(ContractError::Unauthorized)
            } else if self@.b_accounts.dom().len() != 0 {
                Err::<(), ContractError>(ContractError::AccountsExist)
            } else {
                Ok::<(), ContractError>(())
            },
    {
        if !(*caller == self.owner_account_id) {
            return Err(ContractError::Unauthorized);
        }
        if self.b_accounts.len() != 0 {
            return Err(ContractError::AccountsExist);
        }
        Ok(())
    }

    /// Pauses borrowing. Owner only; fails where borrowing is paused already.
    pub fn pause_borrowing(&mut self, caller: &String) -> (res: Result<(), ContractError>)
        requires
            old(self).wf(),
        ensures
            final(self).wf(),
            res == if caller@ != old(self)@.owner_account_id {
                Err::<(), ContractError>(ContractError::Unauthorized)
            } else if old(self)@.borrowing_paused {
                Err::<(), ContractError>(ContractError::AlreadyPaused)
            } else {
                Ok::<(), ContractError>(())
            },
            final(self)@ == if res.is_ok() {
                State { borrowing_paused: true, ..old(self)@ }
            } else {
                old(self)@
            },
    {
        if !(*caller == self.owner_account_id) {
            return Err(ContractError::Unauthorized);
        }
        if self.borrowing_paused {
            return Err(ContractError::AlreadyPaused);
        }
        self.borrowing_paused = true;
        Ok(())
    }

    /// The account that runs the price feed.
    pub fn get_operator_account_id(&self) -> (id: String)
        ensures
            id@ == self@.operator_account_id,
    {
        self.operator_account_id.clone()
    }

    /// The debt token in circulation.
    pub fn get_total_usdnear(&self) -> (total: u128)
        ensures
            total == self@.debt_pool.total_amount,
    {
        self.debt_pool.total_amount
    }

    /// What is reported of `account_id`. Fails with `InvariantViolation` where an amount
    /// does not fit in 128 bits.
    pub fn get_account_info(&self, account_id: &String) -> (res: Result<
        GetAccountInfoResult,
        ContractError,
    >)
        requires
            self.wf(),
        ensures
            match self@.account_info(account_id@) {
                Some(info) => res.is_ok() && res.unwrap()@ == info,
                None => res.is_err() && res.unwrap_err() == ContractError::InvariantViolation,
            },
    {
        let usdnear: u128 = self.get_usdnear_balance(account_id);
        let acc: BorrowingAccount = self.internal_get_account(account_id);
        let stnear: u128 = match acc.free_stnear(self) {
            Some(v) => v,
            None => return Err(ContractError::InvariantViolation),
        };
        let locked_stnear: u128 = match acc.locked_stnear(self) {
            Some(v) => v,
            None => return Err(ContractError::InvariantViolation),
        };
        let limit: u128 = match acc.get_current_credit_limit(self) {
            Some(v) => v,
            None => return Err(ContractError::InvariantViolation),
        };
        let owed: u128 = match acc.outstanding_loans_usdnear(self) {
            Some(v) => v,
            None => return Err(ContractError::InvariantViolation),
        };
        let ratio: u32 = match acc.get_current_collateralization_ratio(self) {
            Some(v) => v,
            None => return Err(ContractError::InvariantViolation),
        };
        Ok(
            GetAccountInfoResult {
                account_id: account_id.clone(),
                usdnear,
                stnear,
                stnear_price_usd: self.current_stnear_price,
                locked_stnear,
                usdnear_credit_limit: limit,
                outstanding_loans_usdnear: owed,
                collateralization_ratio: ratio,
                stbl: acc.stbl,
            },
        )
    }

    /// The number of borrowing accounts.
    pub fn get_number_of_accounts(&self) -> (n: u64)
        requires
            self.wf(),
        ensures
            n == self@.b_accounts.dom().len(),
            n == self@.account_order.len(),
    {
        self.b_accounts.len()
    }

    /// The accounts from position `from_index` of the account order on, at most `limit`
    /// of them. Fails with `InvalidParameters` where `limit` is 10000 or more, and with
    /// `InvariantViolation` where an amount of one of the accounts does not fit.
    pub fn get_accounts(&self, from_index: u64, limit: u32) -> (res: Result<
        Vec<GetAccountInfoResult>,
        ContractError,
    >)
        requires
            self.wf(),
        ensures
            limit >= 10_000 ==> res.is_err() && res.unwrap_err() == ContractError::InvalidParameters,
            limit < 10_000 ==> match res {
                Ok(list) => {
                    &&& list@.len() == State::listed(from_index, limit, self@.account_order.len())
                    &&& forall|i: int|
                        0 <= i < list@.len() ==> self@.account_info(
                            self@.account_order[from_index + i],
                        ) == Some(#[trigger] list@[i]@)
                },
                Err(e) => {
                    &&& e == ContractError::InvariantViolation
                    &&& exists|i: int|
                        0 <= i < State::listed(from_index, limit, self@.account_order.len())
                            && (#[trigger] self@.account_info(
                            self@.account_order[from_index + i],
                        )).is_none()
                },
            },
    {
        if limit >= 10_000 {
            return Err(ContractError::InvalidParameters);
        }
        let count: u64 = self.b_accounts.len();
        let mut list: Vec<GetAccountInfoResult> = Vec::new();
        if from_index >= count {
            return Ok(list);
        }
        let available: u64 = count - from_index;
        let n: u64 = if (limit as u64) < available {
            limit as u64
        } else {
            available
        };
        let mut i: u64 = 0;
        while i < n
            invariant
                self.wf(),
                limit < 10_000,
                i <= n,
                count == self@.account_order.len(),
                from_index + n <= count,
                n == State::listed(from_index, limit, self@.account_order.len()),
                list@.len() == i,
                forall|j: int|
                    0 <= j < list@.len() ==> self@.account_info(self@.account_order[from_index + j])
                        == Some(#[trigger] list@[j]@),
            decreases n - i,
        {
            if let Some(key) = self.b_accounts.key_at(from_index + i) {
                match self.get_account_info(&key) {
                    Ok(info) => {
                        list.push(info);
                    },
                    Err(_) => {
                        assert(self@.account_info(self@.account_order[from_index + i]).is_none());
                        return Err(ContractError::InvariantViolation);
                    },
                }
            }
            i = i + 1;
        }
        Ok(list)
    }

    /// How the contract identifies itself.
    pub fn get_contract_info(&self) -> (info: NEP129Response)
        ensures
            info.dataVersion == 1,
            info.name@ == CONTRACT_NAME@,
            info.version@ == CONTRACT_VERSION@,
            info.source@ == CONTRACT_SOURCE@,
            info.standards@.len() == 2,
            info.standards@[0]@ == "NEP-129"@,
            info.standards@[1]@ == "NEP-138"@,
            option_string_view(info.webAppUrl) == self@.web_app_url,
            info.developersAccountId@ == DEVELOPERS_ACCOUNT_ID@,
            option_string_view(info.auditorAccountId) == self@.auditor_account_id,
    {
        let mut standards: Vec<String> = Vec::new();
        standards.push(String::from_str("NEP-129"));
        standards.push(String::from_str("NEP-138"));
        NEP129Response {
            dataVersion: 1,
            name: String::from_str(CONTRACT_NAME),
            version: String::from_str(CONTRACT_VERSION),
            source: String::from_str(CONTRACT_SOURCE),
            standards,
            webAppUrl: clone_text(&self.web_app_url),
            developersAccountId: String::from_str(DEVELOPERS_ACCOUNT_ID),
            auditorAccountId: clone_text(&self.auditor_account_id),
        }
    }

    /// Sets the address of the web application and the auditor's account; an empty text
    /// clears the entry. Owner only.
    pub fn set_contract_info(&mut self, caller: &String, web_app_url: String, auditor_account_id: String)
        -> (res: Result<(), ContractError>)
        requires
            old(self).wf(),
        ensures
            final(self).wf(),
            res == if caller@ == old(self)@.owner_account_id {
                Ok::<(), ContractError>(())
            } else {
                Err::<(), ContractError>(ContractError::Unauthorized)
            },
            final(self)@ == if res.is_ok() {
                State {
                    web_app_url: text_or_none(web_app_url@),
                    auditor_account_id: text_or_none(auditor_account_id@),
                    ..old(self)@
                }
            } else {
                old(self)@
            },
    {
        if !(*caller == self.owner_account_id) {
            return Err(ContractError::Unauthorized);
        }
        self.web_app_url = if web_app_url.as_str().is_empty() {
            None
        } else {
            Some(web_app_url)
        };
        self.auditor_account_id = if auditor_account_id.as_str().is_empty() {
            None
        } else {
            Some(auditor_account_id)
        };
        Ok(())
    }

    /// The totals of the contract. Fails with `InvariantViolation` where the value of
    /// the locked collateral does not fit in 128 bits.
    pub fn get_contract_state(&self) -> (res: Result<GetContractStateResult, ContractError>)
        requires
            self.wf(),
        ensures
            match self@.stnear_to_usd(self@.locked_pool.total_amount) {
                Some(valued) => res == Ok::<GetContractStateResult, ContractError>(
                    GetContractStateResult {
                        total_usdnear: self@.debt_pool.total_amount,
                        total_collateral_stnear: self@.locked_pool.total_amount,
                        current_stnear_price: self@.current_stnear_price,
                        valued_collateral: valued,
                        total_stbl: self@.total_stbl,
                        balances_count: self@.usdnear_balances.dom().len() as u64,
                        b_accounts_count: self@.b_accounts.dom().len() as u64,
                        total_collateral_shares: self@.locked_pool.total_shares,
                        usdnear_apr_basis_points: self@.usdnear_apr_basis_points,
                    },
                ),
                None => res == Err::<GetContractStateResult, ContractError>(
                    ContractError::InvariantViolation,
                ),
            },
    {
        let valued: u128 = match self.stnear_to_usd(self.locked_pool.total_amount) {
            Some(valued) => valued,
            None => return Err(ContractError::InvariantViolation),
        };
        Ok(
            GetContractStateResult {
                total_usdnear: self.debt_pool.total_amount,
                total_collateral_stnear: self.locked_pool.total_amount,
                current_stnear_price: self.current_stnear_price,
                valued_collateral: valued,
                total_stbl: self.total_stbl,
                balances_count: self.usdnear_balances.len(),
                b_accounts_count: self.b_accounts.len(),
                total_collateral_shares: self.locked_pool.total_shares,
                usdnear_apr_basis_points: self.usdnear_apr_basis_points,
            },
        )
    }

    /// The parameters.
    pub fn get_contract_params(&self) -> (params: ContractParamsJSON)
        ensures
            params == self@.params(),
    {
        ContractParamsJSON {
            collateral_basis_points: self.collateral_basis_points,
            min_collateral_basis_points: self.min_collateral_basis_points,
            borrowing_paused: self.borrowing_paused,
            min_account_balance: self.min_account_balance,
            usdnear_apr_basis_points: self.usdnear_apr_basis_points,
            epochs_per_year: self.epochs_per_year,
            operator_fee_basis_points: self.operator_fee_basis_points,
            treasury_fee_basis_points: self.treasury_fee_basis_points,
        }
    }

    /// Sets the parameters. Owner only. Fails with `InvalidParameters`, and changes
    /// nothing, unless the target ratio is above the liquidation threshold, the
    /// threshold above 100% plus the liquidation fee, and the fee split adds up to 100%.
    pub fn set_contract_params(&mut self, caller: &String, params: ContractParamsJSON) -> (res: Result<
        (),
        ContractError,
    >)
        requires
            old(self).wf(),
        ensures
            final(self).wf(),
            res == if caller@ != old(self)@.owner_account_id {
                Err::<(), ContractError>(ContractError::Unauthorized)
            } else if !old(self)@.params_acceptable(params) {
                Err::<(), ContractError>(ContractError::InvalidParameters)
            } else {
                Ok::<(), ContractError>(())
            },
            final(self)@ == if res.is_ok() {
                old(self)@.with_params(params)
            } else {
                old(self)@
            },
    {
        if !(*caller == self.owner_account_id) {
            return Err(ContractError::Unauthorized);
        }
        let fee_plus_100: u32 = FULL_BP + self.liquidaton_fee_basis_points as u32;
        if !(params.collateral_basis_points > params.min_collateral_basis_points
            && params.min_collateral_basis_points > fee_plus_100) {
            return Err(ContractError::InvalidParameters);
        }
        if params.operator_fee_basis_points as u32 + params.treasury_fee_basis_points as u32
            != FULL_BP {
            return Err(ContractError::InvalidParameters);
        }
        self.collateral_basis_points = params.collateral_basis_points;
        self.min_collateral_basis_points = params.min_collateral_basis_points;
        self.borrowing_paused = params.borrowing_paused;
        self.min_account_balance = params.min_account_balance;
        self.usdnear_apr_basis_points = params.usdnear_apr_basis_points;
        self.epochs_per_year = params.epochs_per_year;
        self.operator_fee_basis_points = params.operator_fee_basis_points;
        self.treasury_fee_basis_points = params.treasury_fee_basis_points;
        Ok(())
    }

    /// Sets the price of the collateral. Owner only. Fails with `InvalidParameters`,
    /// and changes nothing, where the price moves by more than a quarter.
    pub fn set_stnear_price_usd(&mut self, caller: &String, stnear_price_usd: u128) -> (res: Result<
        (),
        ContractError,
    >)
        requires
            old(self).wf(),
        ensures
            final(self).wf(),
            res == if caller@ != old(self)@.owner_account_id {
                Err::<(), ContractError>(ContractError::Unauthorized)
            } else if !price_move_allowed(old(self)@.current_stnear_price, stnear_price_usd) {
                Err::<(), ContractError>(ContractError::InvalidParameters)
            } else {
                Ok::<(), ContractError>(())
            },
            final(self)@ == if res.is_ok() {
                State { current_stnear_price: stnear_price_usd, ..old(self)@ }
            } else {
                old(self)@
            },
    {
        if !(*caller == self.owner_account_id) {
            return Err(ContractError::Unauthorized);
        }
        if !within_quarter(self.current_stnear_price, stnear_price_usd) {
            return Err(ContractError::InvalidParameters);
        }
        self.current_stnear_price = stnear_price_usd;
        Ok(())
    }

    /// Returns every guarded resource to idle, whatever was pending, and reports whether
    /// anything was. Owner only: this overrides the rule that only the callback of a
    /// transfer ends it.
    pub fn clear_busy_flag(&mut self, caller: &String) -> (res: Result<bool, ContractError>)
        requires
            old(self).wf(),
        ensures
            final(self).wf(),
            res == if caller@ == old(self)@.owner_account_id {
                Ok::<bool, ContractError>(!old(self)@.guard.idle())
            } else {
                Err::<bool, ContractError>(ContractError::Unauthorized)
            },
            final(self)@ == if res.is_ok() {
                State { guard: GuardState::all_idle(), ..old(self)@ }
            } else {
                old(self)@
            },
    {
        if !(*caller == self.owner_account_id) {
            return Err(ContractError::Unauthorized);
        }
        let was_pending: bool = self.guard.clear();
        Ok(was_pending)
    }
}

impl State {
    /// How many accounts a listing of at most `limit` accounts from position
    /// `from_index` holds, out of `count`.
    pub open spec fn listed(from_index: u64, limit: u32, count: nat) -> nat {
        if from_index >= count {
            0
        } else if from_index + limit < count {
            limit as nat
        } else {
            (count - from_index) as nat
        }
    }
}

/// A copy of an optional text.
fn clone_text(text: &Option<String>) -> (copy: Option<String>)
    ensures
        option_string_view(copy) == option_string_view(*text),
{
    match text {
        Some(t) => Some(t.clone()),
        None => None,
    }
}

/// Decides [`price_move_allowed`].
pub fn within_quarter(current: u128, price: u128) -> (allowed: bool)
    ensures
        allowed == price_move_allowed(current, price),
{
    // work on quarters of `current`, so that no product leaves the 128-bit range
    let quarter: u128 = current / 4;
    let rest: u128 = current % 4;
    let least: u128 = 3 * quarter + (3 * rest + 3) / 4;
    let most: Option<u128> = match quarter.checked_mul(5) {
        Some(v) => v.checked_add(5 * rest / 4),
        None => None,
    };
    let upper_ok: bool = match most {
        Some(most) => price <= most,
        None => true,
    };
    price >= least && upper_ok
}

} // verus!
