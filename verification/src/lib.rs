//! Collateralized-debt accounting engine for a stable debt token backed by a
//! yield-bearing collateral asset.
//!
//! Balances are held as shares of three proportional pools (free collateral,
//! locked collateral, outstanding debt). Every operation is a verified function
//! from the current state and plain arguments to a new state and a result.

pub mod types;
pub mod utils;
pub mod share_pool;
pub mod persistent_map;
pub mod account;
pub mod guard;
pub mod contract;
pub mod shares;
pub mod internal;
pub mod collateral;
pub mod liquidation;
pub mod owner;
pub mod rewards;
pub mod funtoken;
pub mod laws;

pub use crate::account::BorrowingAccount;
pub use crate::contract::UsdNearStableCoin;
pub use crate::guard::TransferGuard;
pub use crate::persistent_map::PersistentMap;
pub use crate::share_pool::SharePool;
pub use crate::types::{
    ContractError, ContractParamsJSON, GetAccountInfoResult, GetContractStateResult, NEP129Response,
    RewardsOutcome,
};
