//! The state of the engine, its mathematical model and its validity.

use vstd::prelude::*;
use vstd::string::StringExecFns;
use crate::account::{ratio_bp, BorrowingAccount};
use crate::guard::{GuardState, TransferGuard};
use crate::persistent_map::{keys_after_insert, keys_after_remove, PersistentMap};
use crate::share_pool::SharePool;
use crate::shares::{lemma_seq_sum_prefix, seq_sum, share_values, PoolKind};
use crate::types::{
    ContractError, DEFAULT_AUDITOR_ACCOUNT_ID, DEFAULT_WEB_APP_URL, FULL_BP, NEAR, PERCENT_BP,
};
use crate::utils::{apply_pct_spec, mul_div};

verus! {

/// The engine: three pools, the parameters, the table of borrowing accounts, the
/// balances of the debt token and the transfer guard. Every operation takes it by reference.
pub struct UsdNearStableCoin {
    /// The account that may call the owner's operations.
    pub owner_account_id: String,
    /// Value of one unit of collateral in units of the debt token, scaled by `NEAR`.
    pub current_stnear_price: u128,
    /// Target collateralization ratio, in basis points (default 200%).
    pub collateral_basis_points: u32,
    /// Ratio under which an account can be liquidated, in basis points (default 150%).
    pub min_collateral_basis_points: u32,
    /// The debt token in circulation and the shares in which it is owed.
    pub debt_pool: SharePool,
    /// Deposited collateral that backs no loan.
    pub free_pool: SharePool,
    /// Collateral pledged against outstanding loans.
    pub locked_pool: SharePool,
    /// Governance token minted so far.
    pub total_stbl: u128,
    /// Set by the owner while the price feed cannot be relied on: no loan is granted
    /// while it is set.
    pub borrowing_paused: bool,
    /// Debt-token balance of each holder that has one.
    pub usdnear_balances: PersistentMap<u128>,
    /// The borrowing account of each account that holds something.
    pub b_accounts: PersistentMap<BorrowingAccount>,
    /// Annual interest on outstanding loans, in basis points.
    pub usdnear_apr_basis_points: u16,
    /// Accounting periods in a year.
    pub epochs_per_year: u32,
    /// What a liquidator earns on the debt it repays, in basis points (default 10%).
    pub liquidaton_fee_basis_points: u16,
    /// The account that runs the price feed.
    pub operator_account_id: String,
    /// The operator's part of the interest, in basis points.
    pub operator_fee_basis_points: u16,
    /// The account that receives the interest.
    pub treasury_account_id: String,
    /// The treasury's part of the interest, in basis points.
    pub treasury_fee_basis_points: u16,
    /// Balance an account must keep to pay for its storage.
    pub min_account_balance: u128,
    pub web_app_url: Option<String>,
    pub auditor_account_id: Option<String>,
    /// Which resources have a transfer pending.
    pub guard: TransferGuard,
    /// The accounting period in which rewards were last collected.
    pub last_rewards_epoch_height: u64,
}

/// The engine's state as mathematical values: account ids as character sequences,
/// tables as maps.
#[verifier::ext_equal]
pub struct State {
    pub owner_account_id: Seq<char>,
    pub current_stnear_price: u128,
    pub collateral_basis_points: u32,
    pub min_collateral_basis_points: u32,
    pub debt_pool: SharePool,
    pub free_pool: SharePool,
    pub locked_pool: SharePool,
    pub total_stbl: u128,
    pub borrowing_paused: bool,
    pub usdnear_balances: Map<Seq<char>, u128>,
    pub b_accounts: Map<Seq<char>, BorrowingAccount>,
    /// The order in which the borrowing accounts are listed.
    pub account_order: Seq<Seq<char>>,
    pub usdnear_apr_basis_points: u16,
    pub epochs_per_year: u32,
    pub liquidaton_fee_basis_points: u16,
    pub operator_account_id: Seq<char>,
    pub operator_fee_basis_points: u16,
    pub treasury_account_id: Seq<char>,
    pub treasury_fee_basis_points: u16,
    pub min_account_balance: u128,
    pub web_app_url: Option<Seq<char>>,
    pub auditor_account_id: Option<Seq<char>>,
    pub guard: GuardState,
    pub last_rewards_epoch_height: u64,
}

/// An optional text as an optional sequence of characters.
pub open spec fn option_string_view(s: Option<String>) -> Option<Seq<char>> {
    match s {
        Some(text) => Some(text@),
        None => None,
    }
}

/// The rule that relates the ratios: target above threshold, threshold above 100% plus
/// the liquidation fee.
pub open spec fn ratios_consistent(target_bp: u32, threshold_bp: u32, fee_bp: u16) -> bool {
    target_bp > threshold_bp && threshold_bp > FULL_BP + fee_bp
}

impl State {
    /// The state is valid: its parts are, the account order lists each borrowing account
    /// once, and in each pool the shares of all accounts add up to the shares of the pool.
    pub open spec fn wf(self) -> bool {
        &&& self.parts_valid()
        &&& self.listed_once()
        &&& self.balanced()
    }

    /// The price is positive, the ratios are consistent, the fee split is whole, the free
    /// pool holds something exactly when it has shares, the debt pool holds nothing that
    /// no share owns, no share of the locked pool stands for nothing, and no empty
    /// record is kept.
    ///
    /// The debt pool may hold nothing while debt shares exist: that is its state after
    /// all the debt in circulation was converted, and every borrower then owes nothing.
    /// The locked pool may hold something while no locked share exists: that is its
    /// state after yield arrived before any collateral was locked.
    pub open spec fn parts_valid(self) -> bool {
        &&& self.current_stnear_price > 0
        &&& ratios_consistent(
            self.collateral_basis_points,
            self.min_collateral_basis_points,
            self.liquidaton_fee_basis_points,
        )
        &&& self.operator_fee_basis_points + self.treasury_fee_basis_points == FULL_BP
        &&& self.debt_pool.owned()
        &&& self.free_pool.wf()
        &&& self.locked_pool.backed()
        &&& forall|id: Seq<char>| #[trigger]
            self.b_accounts.contains_key(id) ==> !self.b_accounts[id].is_empty_spec()
        &&& forall|id: Seq<char>| #[trigger]
            self.usdnear_balances.contains_key(id) ==> self.usdnear_balances[id] != 0
    }

    /// The borrowing account of `id`: the empty record where none is kept.
    pub open spec fn account(self, id: Seq<char>) -> BorrowingAccount {
        if self.b_accounts.contains_key(id) {
            self.b_accounts[id]
        } else {
            BorrowingAccount::empty()
        }
    }

    /// The state with `acc` as the borrowing account of `id`; an empty record is dropped.
    pub open spec fn with_account(self, id: Seq<char>, acc: BorrowingAccount) -> State {
        if acc.is_empty_spec() {
            State {
                b_accounts: self.b_accounts.remove(id),
                account_order: keys_after_remove(self.account_order, id),
                ..self
            }
        } else {
            State {
                b_accounts: self.b_accounts.insert(id, acc),
                account_order: keys_after_insert(self.account_order, id),
                ..self
            }
        }
    }

    /// The debt-token balance of `id`: zero where none is kept.
    pub open spec fn usdnear_balance(self, id: Seq<char>) -> u128 {
        if self.usdnear_balances.contains_key(id) {
            self.usdnear_balances[id]
        } else {
            0
        }
    }

    /// The state with `balance` as the debt-token balance of `id`; a zero balance is dropped.
    pub open spec fn with_usdnear_balance(self, id: Seq<char>, balance: u128) -> State {
        if balance == 0 {
            State { usdnear_balances: self.usdnear_balances.remove(id), ..self }
        } else {
            State { usdnear_balances: self.usdnear_balances.insert(id, balance), ..self }
        }
    }

    /// Value of `stnear` collateral in the debt token: `floor(stnear * price / NEAR)`.
    pub open spec fn stnear_to_usd(self, stnear: u128) -> Option<u128> {
        mul_div(stnear, self.current_stnear_price, NEAR)
    }

    /// Collateral worth `usdnear` of the debt token: `floor(usdnear * NEAR / price)`.
    pub open spec fn usdnear_to_stnear(self, usdnear: u128) -> Option<u128> {
        mul_div(usdnear, NEAR, self.current_stnear_price)
    }

    /// What `acc` owes: its debt shares at the debt pool's price.
    pub open spec fn outstanding_loans_usdnear(self, acc: BorrowingAccount) -> Option<u128> {
        self.debt_pool.amount_from_shares_spec(acc.shares_usdnear_owed)
    }

    /// The free collateral of `acc`: its free shares at the free pool's price.
    pub open spec fn free_stnear(self, acc: BorrowingAccount) -> Option<u128> {
        self.free_pool.amount_from_shares_spec(acc.free_shares)
    }

    /// The locked collateral of `acc`: its locked shares at the locked pool's price.
    pub open spec fn locked_stnear(self, acc: BorrowingAccount) -> Option<u128> {
        self.locked_pool.amount_from_shares_spec(acc.locked_collateral_shares)
    }

    /// The locked collateral of `acc` valued at the current price.
    pub open spec fn valued_collateral_usd(self, acc: BorrowingAccount) -> Option<u128> {
        match self.locked_stnear(acc) {
            Some(locked) => self.stnear_to_usd(locked),
            None => None,
        }
    }

    /// The collateral that must be locked for what `acc` owes: the target ratio applied
    /// to the debt, converted at the current price.
    pub open spec fn required_collateral_stnear(self, acc: BorrowingAccount) -> Option<u128> {
        if acc.shares_usdnear_owed == 0 {
            Some(0)
        } else {
            match self.outstanding_loans_usdnear(acc) {
                Some(owed) => match apply_pct_spec(self.collateral_basis_points, owed) {
                    Some(required_usd) => self.usdnear_to_stnear(required_usd),
                    None => None,
                },
                None => None,
            }
        }
    }

    /// The most `acc` could owe: all its collateral, free and locked, valued at the
    /// current price and divided by the target ratio.
    pub open spec fn max_usdnear(self, acc: BorrowingAccount) -> Option<u128> {
        match (self.free_stnear(acc), self.locked_stnear(acc)) {
            (Some(free), Some(locked)) => {
                if free + locked > u128::MAX {
                    None
                } else {
                    match self.stnear_to_usd((free + locked) as u128) {
                        Some(valued) => mul_div(valued, 10_000, self.collateral_basis_points as u128),
                        None => None,
                    }
                }
            },
            _ => None,
        }
    }

    /// What `acc` can still borrow: `max_usdnear` less what it owes, and never negative.
    pub open spec fn credit_limit(self, acc: BorrowingAccount) -> Option<u128> {
        match (self.max_usdnear(acc), self.outstanding_loans_usdnear(acc)) {
            (Some(most), Some(owed)) => Some(
                if most >= owed {
                    (most - owed) as u128
                } else {
                    0
                },
            ),
            _ => None,
        }
    }

    /// The collateralization ratio of `acc` in basis points.
    pub open spec fn collateralization_ratio(self, acc: BorrowingAccount) -> Option<u32> {
        match (self.valued_collateral_usd(acc), self.outstanding_loans_usdnear(acc)) {
            (Some(valued), Some(owed)) => Some(ratio_bp(valued, owed)),
            _ => None,
        }
    }

    /// The state of a new engine.
    pub open spec fn initial(
        owner_account_id: Seq<char>,
        treasury_account_id: Seq<char>,
        operator_account_id: Seq<char>,
        current_stnear_price: u128,
    ) -> State {
        State {
            owner_account_id,
            current_stnear_price,
            collateral_basis_points: 20_000,
            min_collateral_basis_points: 15_000,
            debt_pool: SharePool { total_amount: 0, total_shares: 0 },
            free_pool: SharePool { total_amount: 0, total_shares: 0 },
            locked_pool: SharePool { total_amount: 0, total_shares: 0 },
            total_stbl: 0,
            borrowing_paused: false,
            usdnear_balances: Map::empty(),
            b_accounts: Map::empty(),
            account_order: Seq::empty(),
            usdnear_apr_basis_points: 250,
            epochs_per_year: 730,
            liquidaton_fee_basis_points: 1000,
            operator_account_id,
            operator_fee_basis_points: 3000,
            treasury_account_id,
            treasury_fee_basis_points: 7000,
            min_account_balance: NEAR,
            web_app_url: Some(DEFAULT_WEB_APP_URL@),
            auditor_account_id: Some(DEFAULT_AUDITOR_ACCOUNT_ID@),
            guard: GuardState::all_idle(),
            last_rewards_epoch_height: 0,
        }
    }
}

impl View for UsdNearStableCoin {
    type V = State;

    open spec fn view(&self) -> State {
        State {
            owner_account_id: self.owner_account_id@,
            current_stnear_price: self.current_stnear_price,
            collateral_basis_points: self.collateral_basis_points,
            min_collateral_basis_points: self.min_collateral_basis_points,
            debt_pool: self.debt_pool,
            free_pool: self.free_pool,
            locked_pool: self.locked_pool,
            total_stbl: self.total_stbl,
            borrowing_paused: self.borrowing_paused,
            usdnear_balances: self.usdnear_balances@,
            b_accounts: self.b_accounts@,
            account_order: self.b_accounts.key_seq(),
            usdnear_apr_basis_points: self.usdnear_apr_basis_points,
            epochs_per_year: self.epochs_per_year,
            liquidaton_fee_basis_points: self.liquidaton_fee_basis_points,
            operator_account_id: self.operator_account_id@,
            operator_fee_basis_points: self.operator_fee_basis_points,
            treasury_account_id: self.treasury_account_id@,
            treasury_fee_basis_points: self.treasury_fee_basis_points,
            min_account_balance: self.min_account_balance,
            web_app_url: option_string_view(self.web_app_url),
            auditor_account_id: option_string_view(self.auditor_account_id),
            guard: self.guard@,
            last_rewards_epoch_height: self.last_rewards_epoch_height,
        }
    }
}

/// The one-byte prefix under which a table is persisted.
fn prefix_of(byte: u8) -> (prefix: Vec<u8>)
    ensures
        prefix@ == seq![byte],
{
    let mut prefix: Vec<u8> = Vec::new();
    prefix.push(byte);
    prefix
}

impl UsdNearStableCoin {
    /// The tables are sound and the modelled state is valid.
    pub open spec fn wf(&self) -> bool {
        &&& self.sound()
        &&& self@.wf()
    }

    /// The tables are sound and the parts of the modelled state are valid. This is what
    /// holds between the steps of an operation, while shares have left a pool and not
    /// yet reached an account.
    pub open spec fn sound(&self) -> bool {
        &&& self.usdnear_balances.wf()
        &&& self.b_accounts.wf()
        &&& self.guard.wf()
        &&& self@.parts_valid()
    }

    /// The account order of a sound engine lists each borrowing account once.
    pub proof fn lemma_listed_once(&self)
        requires
            self.sound(),
        ensures
            self@.listed_once(),
    {
        self.b_accounts.lemma_keys();
    }

    /// Whether no balance of zero is kept.
    fn no_zero_balance(&self) -> (ok: bool)
        requires
            self.usdnear_balances.wf(),
        ensures
            ok == (forall|id: Seq<char>| #[trigger]
                self@.usdnear_balances.contains_key(id) ==> self@.usdnear_balances[id] != 0),
    {
        let n: u64 = self.usdnear_balances.len();
        let mut i: u64 = 0;
        while i < n
            invariant
                self.usdnear_balances.wf(),
                n == self.usdnear_balances.key_seq().len(),
                i <= n,
                forall|j: int|
                    0 <= j < i ==> self@.usdnear_balances[#[trigger] self.usdnear_balances.key_seq()[j]]
                        != 0,
            decreases n - i,
        {
            if let Some(balance) = self.usdnear_balances.value_at(i) {
                if balance == 0 {
                    assert(self@.usdnear_balances.contains_key(
                        self.usdnear_balances.key_seq()[i as int],
                    ));
                    return false;
                }
            }
            i = i + 1;
        }
        proof {
            self.usdnear_balances.lemma_keys();
            assert forall|id: Seq<char>| #[trigger]
                self@.usdnear_balances.contains_key(id) implies self@.usdnear_balances[id] != 0 by {
                let j = self.usdnear_balances.key_seq().index_of(id);
                assert(self.usdnear_balances.key_seq().contains(id));
                assert(self.usdnear_balances.key_seq()[j] == id);
            }
        }
        true
    }

    /// Whether no empty record is kept and the shares of all accounts add up to the
    /// shares of each pool.
    fn accounts_balance(&self) -> (ok: bool)
        requires
            self.b_accounts.wf(),
        ensures
            ok == ((forall|id: Seq<char>| #[trigger]
                self@.b_accounts.contains_key(id) ==> !self@.b_accounts[id].is_empty_spec())
                && self@.balanced()),
    {
        let ghost free = share_values(self@.b_accounts, self@.account_order, PoolKind::Free);
        let ghost locked = share_values(self@.b_accounts, self@.account_order, PoolKind::Locked);
        let ghost debt = share_values(self@.b_accounts, self@.account_order, PoolKind::Debt);
        let n: u64 = self.b_accounts.len();
        let mut free_sum: u128 = 0;
        let mut locked_sum: u128 = 0;
        let mut debt_sum: u128 = 0;
        let mut i: u64 = 0;
        proof {
            assert(free.subrange(0, 0) =~= Seq::<int>::empty());
            assert(locked.subrange(0, 0) =~= Seq::<int>::empty());
            assert(debt.subrange(0, 0) =~= Seq::<int>::empty());
        }
        while i < n
            invariant
                self.b_accounts.wf(),
                n == self.b_accounts.key_seq().len(),
                i <= n,
                free == share_values(self@.b_accounts, self@.account_order, PoolKind::Free),
                locked == share_values(self@.b_accounts, self@.account_order, PoolKind::Locked),
                debt == share_values(self@.b_accounts, self@.account_order, PoolKind::Debt),
                free_sum == seq_sum(free.subrange(0, i as int)),
                locked_sum == seq_sum(locked.subrange(0, i as int)),
                debt_sum == seq_sum(debt.subrange(0, i as int)),
                forall|j: int|
                    0 <= j < i ==> !self@.b_accounts[#[trigger] self.b_accounts.key_seq()[j]].is_empty_spec(),
            decreases n - i,
        {
            if let Some(acc) = self.b_accounts.value_at(i) {
                if acc.is_empty() {
                    assert(self@.b_accounts.contains_key(self.b_accounts.key_seq()[i as int]));
                    return false;
                }
                proof {
                    lemma_seq_sum_prefix(free, i as int);
                    lemma_seq_sum_prefix(locked, i as int);
                    lemma_seq_sum_prefix(debt, i as int);
                    lemma_seq_sum_prefix(free, i + 1);
                    lemma_seq_sum_prefix(locked, i + 1);
                    lemma_seq_sum_prefix(debt, i + 1);
                }
                free_sum = match free_sum.checked_add(acc.free_shares) {
                    Some(v) => v,
                    None => return false,
                };
                locked_sum = match locked_sum.checked_add(acc.locked_collateral_shares) {
                    Some(v) => v,
                    None => return false,
                };
                debt_sum = match debt_sum.checked_add(acc.shares_usdnear_owed) {
                    Some(v) => v,
                    None => return false,
                };
            }
            i = i + 1;
        }
        proof {
            assert(free.subrange(0, i as int) =~= free);
            assert(locked.subrange(0, i as int) =~= locked);
            assert(debt.subrange(0, i as int) =~= debt);
            self.b_accounts.lemma_keys();
            assert forall|id: Seq<char>| #[trigger]
                self@.b_accounts.contains_key(id) implies !self@.b_accounts[id].is_empty_spec() by {
                let j = self.b_accounts.key_seq().index_of(id);
                assert(self.b_accounts.key_seq().contains(id));
                assert(self.b_accounts.key_seq()[j] == id);
            }
        }
        free_sum == self.free_pool.total_shares && locked_sum == self.locked_pool.total_shares
            && debt_sum == self.debt_pool.total_shares
    }

    /// Whether the engine is valid. An engine put together from stored parts is to be
    /// tested with this before any operation is called on it.
    pub fn is_valid(&self) -> (valid: bool)
        requires
            self.usdnear_balances.wf(),
            self.b_accounts.wf(),
            self.guard.wf(),
        ensures
            valid == self.wf(),
    {
        proof {
            self.b_accounts.lemma_keys();
        }
        let fee_plus_100: u32 = FULL_BP + self.liquidaton_fee_basis_points as u32;
        let pools_ok: bool = (self.debt_pool.total_shares > 0 || self.debt_pool.total_amount == 0)
            && (self.free_pool.total_shares == 0) == (self.free_pool.total_amount == 0) && (
        self.locked_pool.total_amount > 0 || self.locked_pool.total_shares == 0);
        self.current_stnear_price > 0 && self.collateral_basis_points
            > self.min_collateral_basis_points && self.min_collateral_basis_points > fee_plus_100
            && self.operator_fee_basis_points as u32 + self.treasury_fee_basis_points as u32
            == FULL_BP && pools_ok && self.no_zero_balance() && self.accounts_balance()
    }

    /// A new engine with empty pools, the default parameters and the given price.
    /// Fails with `InvalidParameters` exactly when the price is zero.
    pub fn new(
        owner_account_id: String,
        treasury_account_id: String,
        operator_account_id: String,
        current_stnear_price: u128,
    ) -> (res: Result<UsdNearStableCoin, ContractError>)
        ensures
            match res {
                Ok(contract) => current_stnear_price > 0 && contract.wf() && contract@
                    == State::initial(
                    owner_account_id@,
                    treasury_account_id@,
                    operator_account_id@,
                    current_stnear_price,
                ),
                Err(e) => current_stnear_price == 0 && e == ContractError::InvalidParameters,
            },
    {
        if current_stnear_price == 0 {
            return Err(ContractError::InvalidParameters);
        }
        let contract = UsdNearStableCoin {
            owner_account_id,
            operator_account_id,
            treasury_account_id,
            current_stnear_price,
            collateral_basis_points: 200 * PERCENT_BP,
            min_collateral_basis_points: 150 * PERCENT_BP,
            usdnear_apr_basis_points: 250,
            epochs_per_year: 365 * 2,
            liquidaton_fee_basis_points: 1000,
            min_account_balance: NEAR,
            web_app_url: Some(String::from_str(DEFAULT_WEB_APP_URL)),
            auditor_account_id: Some(String::from_str(DEFAULT_AUDITOR_ACCOUNT_ID)),
            operator_fee_basis_points: 3000,
            treasury_fee_basis_points: 7000,
            borrowing_paused: false,
            debt_pool: SharePool::new(),
            free_pool: SharePool::new(),
            locked_pool: SharePool::new(),
            total_stbl: 0,
            usdnear_balances: PersistentMap::new(prefix_of(85u8)),
            b_accounts: PersistentMap::new(prefix_of(65u8)),
            guard: TransferGuard::new(),
            last_rewards_epoch_height: 0,
        };
        proof {
            // no account yet: nothing is held in any pool
            contract.lemma_listed_once();
            let state = contract@;
            assert(share_values(state.b_accounts, state.account_order, PoolKind::Free).len() == 0);
            assert(share_values(state.b_accounts, state.account_order, PoolKind::Locked).len() == 0);
            assert(share_values(state.b_accounts, state.account_order, PoolKind::Debt).len() == 0);
        }
        Ok(contract)
    }
}

} // verus!
