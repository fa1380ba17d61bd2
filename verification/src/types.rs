//! Units, limits and the error type shared by every operation.

use vstd::prelude::*;

verus! {

/// Name under which the contract identifies itself.
pub const CONTRACT_NAME: &'static str = "USDNEAR-StableCoin";

/// Version under which the contract identifies itself.
pub const CONTRACT_VERSION: &'static str = "0.1.0";

/// Where the source of the contract is published.
pub const CONTRACT_SOURCE: &'static str = "https://github.com/Narwallets/usdnear-stable";

/// Address of the web application, until the owner sets another.
pub const DEFAULT_WEB_APP_URL: &'static str = "https://www.narwallets.com/dapp/testnet/usdnear/";

/// Account of the auditor, until the owner sets another.
pub const DEFAULT_AUDITOR_ACCOUNT_ID: &'static str = "auditors.near";

/// Account of the custodial contract that holds the collateral token.
pub const META_POOL_STNEAR_CONTRACT: &'static str = "meta.pool.testnet";

/// Account credited as developer in the contract information record.
pub const DEVELOPERS_ACCOUNT_ID: &'static str = "developers.near";

/// No deposit attached to a call.
pub const NO_DEPOSIT: u128 = 0;

/// One whole token, in its smallest unit (24 decimals).
pub const NEAR: u128 = 1_000_000_000_000_000_000_000_000;

/// A hundredth of a whole token.
pub const ONE_NEAR_CENT: u128 = NEAR / 100;

/// The least amount that can be borrowed.
pub const FIVE_NEAR: u128 = 5 * NEAR;

/// The least limit a liquidator can set.
pub const TEN_NEAR: u128 = 10 * NEAR;

/// Locked collateral a liquidator must hold in its own borrowing account.
pub const MIN_STNEAR_BALANCE_FOR_LIQUIDATORS: u128 = 100 * NEAR;

/// Basis points in one percent: `2 * PERCENT_BP` is 2%.
pub const PERCENT_BP: u32 = 100;

/// Basis points in the whole: 100%.
pub const FULL_BP: u32 = 10_000;

/// Largest collateralization ratio ever reported, in basis points (999%).
pub const MAX_RATIO_BP: u32 = 999 * PERCENT_BP;

/// Why an operation was rejected. A rejected operation leaves the state as it was,
/// unless its contract says otherwise.
#[derive(Clone, Copy, Debug, PartialEq, Eq, Structural)]
pub enum ContractError {
    /// The amount is under the minimum the operation accepts.
    AmountBelowMinimum { minimum: u128 },
    /// The parameters break a rule that relates them, or a price moves too far.
    InvalidParameters,
    /// The caller is not the account this operation is reserved for.
    Unauthorized,
    /// The call must carry exactly one unit of attached deposit.
    DepositRequired,
    /// The holder has less than the operation would take.
    InsufficientBalance { available: u128 },
    /// The collateral does not cover the request; `limit` is what it would cover.
    InsufficientCollateral { limit: u128 },
    /// The account owes nothing.
    NothingOwed,
    /// The account's collateralization ratio is not under the liquidation threshold.
    NotLiquidatable { ratio: u32 },
    /// A transfer on this resource is still pending.
    GuardBusy,
    /// Borrowing is already paused.
    AlreadyPaused,
    /// Borrowing is paused: no loan is granted until the owner allows it again.
    BorrowingPaused,
    /// Rewards were already collected in this accounting period.
    AlreadyRun,
    /// Borrowing accounts still exist.
    AccountsExist,
    /// The external transfer or query reported failure.
    ExternalCallFailure,
    /// A value left the range the engine can represent; nothing was changed.
    InvariantViolation,
}

/// What a collection of rewards found and did.
#[derive(Clone, Copy, Debug, PartialEq, Eq, Structural)]
pub enum RewardsOutcome {
    /// The custodian reported less collateral than is recorded as locked; nothing was
    /// taken for yield.
    Inconsistent { reported: u128, recorded: u128 },
    /// `rewards` of yield were found; `treasury_interest` of it was locked for the
    /// treasury and the rest was added to the locked pool without issuing shares.
    Distributed { rewards: u128, treasury_interest: u128 },
}

/// How the contract identifies itself.
#[allow(non_snake_case)]
#[derive(Debug, PartialEq, Eq)]
pub struct NEP129Response {
    pub dataVersion: u16,
    pub name: String,
    pub version: String,
    pub source: String,
    pub standards: Vec<String>,
    pub webAppUrl: Option<String>,
    pub developersAccountId: String,
    pub auditorAccountId: Option<String>,
}

/// One account as it is reported: balances as amounts at the current prices.
#[derive(Debug, PartialEq, Eq)]
pub struct GetAccountInfoResult {
    pub account_id: String,
    /// Balance of the debt token.
    pub usdnear: u128,
    /// Free collateral.
    pub stnear: u128,
    pub stnear_price_usd: u128,
    pub locked_stnear: u128,
    pub usdnear_credit_limit: u128,
    pub outstanding_loans_usdnear: u128,
    /// Basis points, at most 999%.
    pub collateralization_ratio: u32,
    pub stbl: u128,
}

/// [`GetAccountInfoResult`] with the account id as a sequence of characters.
pub struct AccountInfo {
    pub account_id: Seq<char>,
    pub usdnear: u128,
    pub stnear: u128,
    pub stnear_price_usd: u128,
    pub locked_stnear: u128,
    pub usdnear_credit_limit: u128,
    pub outstanding_loans_usdnear: u128,
    pub collateralization_ratio: u32,
    pub stbl: u128,
}

impl View for GetAccountInfoResult {
    type V = AccountInfo;

    open spec fn view(&self) -> AccountInfo {
        AccountInfo {
            account_id: self.account_id@,
            usdnear: self.usdnear,
            stnear: self.stnear,
            stnear_price_usd: self.stnear_price_usd,
            locked_stnear: self.locked_stnear,
            usdnear_credit_limit: self.usdnear_credit_limit,
            outstanding_loans_usdnear: self.outstanding_loans_usdnear,
            collateralization_ratio: self.collateralization_ratio,
            stbl: self.stbl,
        }
    }
}

/// The totals of the contract as they are reported.
#[derive(Clone, Copy, Debug, PartialEq, Eq, Structural)]
pub struct GetContractStateResult {
    pub total_usdnear: u128,
    pub total_collateral_stnear: u128,
    pub current_stnear_price: u128,
    /// The locked collateral valued at the current price.
    pub valued_collateral: u128,
    pub total_stbl: u128,
    /// How many holders of the debt token there are.
    pub balances_count: u64,
    /// How many borrowing accounts there are.
    pub b_accounts_count: u64,
    pub total_collateral_shares: u128,
    pub usdnear_apr_basis_points: u16,
}

/// The parameters the owner can read and set.
#[derive(Clone, Copy, Debug, PartialEq, Eq, Structural)]
pub struct ContractParamsJSON {
    pub collateral_basis_points: u32,
    pub min_collateral_basis_points: u32,
    pub borrowing_paused: bool,
    pub min_account_balance: u128,
    pub usdnear_apr_basis_points: u16,
    pub epochs_per_year: u32,
    pub operator_fee_basis_points: u16,
    pub treasury_fee_basis_points: u16,
}

} // verus!
