use usdnear::account::{compute_ratio_bp, BorrowingAccount};
use usdnear::contract::UsdNearStableCoin;
use usdnear::funtoken::assert_one_yocto;
use usdnear::internal::{assert_callback_calling, assert_min_amount};
use usdnear::liquidation::{compute_liquidation_repay, compute_liquidation_seize};
use usdnear::owner::within_quarter;
use usdnear::share_pool::SharePool;
use usdnear::types::{
    ContractError, ContractParamsJSON, GetContractStateResult, RewardsOutcome, FIVE_NEAR,
    META_POOL_STNEAR_CONTRACT, NEAR, TEN_NEAR,
};

fn id(text: &str) -> String {
    String::from(text)
}

fn custodian() -> String {
    String::from(META_POOL_STNEAR_CONTRACT)
}

fn engine() -> UsdNearStableCoin {
    UsdNearStableCoin::new(id("owner"), id("treasury"), id("operator"), NEAR).unwrap()
}

fn deposit(contract: &mut UsdNearStableCoin, who: &str, amount: u128) {
    assert_eq!(contract.ft_on_transfer(&custodian(), &id(who), amount, &id("")), Ok(0));
}

/// bob: 300 deposited, 100 borrowed; liquidator: 1000 deposited, 100 borrowed.
fn engine_with_loans() -> UsdNearStableCoin {
    let mut contract = engine();
    deposit(&mut contract, "bob", 300 * NEAR);
    assert_eq!(contract.take_loan(&id("bob"), 100 * NEAR), Ok(()));
    deposit(&mut contract, "liquidator", 1000 * NEAR);
    assert_eq!(contract.take_loan(&id("liquidator"), 100 * NEAR), Ok(()));
    contract
}

fn drop_price_to_70_cents(contract: &mut UsdNearStableCoin) {
    assert_eq!(contract.set_stnear_price_usd(&id("owner"), NEAR / 10 * 8), Ok(()));
    assert_eq!(contract.set_stnear_price_usd(&id("owner"), NEAR / 10 * 7), Ok(()));
}

#[test]
fn new_engine_has_the_default_parameters() {
    let contract = engine();
    assert_eq!(
        contract.get_contract_params(),
        ContractParamsJSON {
            collateral_basis_points: 20_000,
            min_collateral_basis_points: 15_000,
            borrowing_paused: false,
            min_account_balance: NEAR,
            usdnear_apr_basis_points: 250,
            epochs_per_year: 730,
            operator_fee_basis_points: 3000,
            treasury_fee_basis_points: 7000,
        }
    );
    assert_eq!(contract.liquidaton_fee_basis_points, 1000);
    assert_eq!(contract.get_operator_account_id(), id("operator"));
    assert_eq!(contract.get_total_usdnear(), 0);
    assert_eq!(contract.get_number_of_accounts(), 0);
    assert_eq!(contract.free_pool, SharePool { total_amount: 0, total_shares: 0 });
    assert_eq!(
        contract.get_contract_state(),
        Ok(GetContractStateResult {
            total_usdnear: 0,
            total_collateral_stnear: 0,
            current_stnear_price: NEAR,
            valued_collateral: 0,
            total_stbl: 0,
            balances_count: 0,
            b_accounts_count: 0,
            total_collateral_shares: 0,
            usdnear_apr_basis_points: 250,
        })
    );
}

#[test]
fn new_engine_rejects_a_zero_price() {
    let res = UsdNearStableCoin::new(id("owner"), id("treasury"), id("operator"), 0);
    assert_eq!(res.err(), Some(ContractError::InvalidParameters));
}

#[test]
fn contract_info_names_the_contract() {
    let mut contract = engine();
    let info = contract.get_contract_info();
    assert_eq!(info.dataVersion, 1);
    assert_eq!(info.name, "USDNEAR-StableCoin");
    assert_eq!(info.version, "0.1.0");
    assert_eq!(info.source, "https://github.com/Narwallets/usdnear-stable");
    assert_eq!(info.standards, vec![id("NEP-129"), id("NEP-138")]);
    assert_eq!(info.webAppUrl, Some(id("https://www.narwallets.com/dapp/testnet/usdnear/")));
    assert_eq!(info.developersAccountId, "developers.near");
    assert_eq!(info.auditorAccountId, Some(id("auditors.near")));
    assert_eq!(
        contract.set_contract_info(&id("bob"), id("x"), id("y")),
        Err(ContractError::Unauthorized)
    );
    assert_eq!(contract.set_contract_info(&id("owner"), id(""), id("audit.near")), Ok(()));
    let info = contract.get_contract_info();
    assert_eq!(info.webAppUrl, None);
    assert_eq!(info.auditorAccountId, Some(id("audit.near")));
}

#[test]
fn small_checks() {
    assert_eq!(assert_min_amount(FIVE_NEAR), Ok(()));
    assert_eq!(
        assert_min_amount(FIVE_NEAR - 1),
        Err(ContractError::AmountBelowMinimum { minimum: FIVE_NEAR })
    );
    assert_eq!(assert_one_yocto(1), Ok(()));
    assert_eq!(assert_one_yocto(0), Err(ContractError::DepositRequired));
    assert_eq!(assert_one_yocto(2), Err(ContractError::DepositRequired));
    assert_eq!(assert_callback_calling(&id("usdnear.near"), &id("usdnear.near")), Ok(()));
    assert_eq!(
        assert_callback_calling(&id("mallory.near"), &id("usdnear.near")),
        Err(ContractError::Unauthorized)
    );
    let contract = engine();
    assert_eq!(contract.assert_owner_calling(&id("owner")), Ok(()));
    assert_eq!(contract.assert_owner_calling(&id("operator")), Err(ContractError::Unauthorized));
    assert_eq!(contract.assert_not_busy(&id("bob")), Ok(()));
}

#[test]
fn account_record_is_empty_by_default() {
    let acc = BorrowingAccount::default();
    assert!(acc.is_empty());
    let holding = BorrowingAccount { stbl: 1, ..acc };
    assert!(!holding.is_empty());
    let contract = engine();
    assert_eq!(contract.internal_get_account(&id("nobody")), acc);
}

#[test]
fn deposit_is_accepted_from_the_custodian_only() {
    let mut contract = engine();
    assert_eq!(
        contract.ft_on_transfer(&id("mallory"), &id("bob"), 300 * NEAR, &id("")),
        Err(ContractError::Unauthorized)
    );
    assert_eq!(contract.get_number_of_accounts(), 0);
    assert_eq!(contract.ft_on_transfer(&custodian(), &id("bob"), 300 * NEAR, &id("")), Ok(0));
    assert_eq!(contract.get_number_of_accounts(), 1);
    let info = contract.get_account_info(&id("bob")).unwrap();
    assert_eq!(info.account_id, "bob");
    assert_eq!(info.stnear, 300 * NEAR);
    assert_eq!(info.locked_stnear, 0);
    assert_eq!(info.usdnear, 0);
    assert_eq!(info.outstanding_loans_usdnear, 0);
    assert_eq!(info.usdnear_credit_limit, 150 * NEAR);
    assert_eq!(info.collateralization_ratio, 99_900);
    assert_eq!(info.stnear_price_usd, NEAR);
    assert_eq!(contract.free_pool, SharePool { total_amount: 300 * NEAR, total_shares: 300 * NEAR });
}

#[test]
fn deposit_that_overflows_is_rejected_whole() {
    let mut contract = engine();
    deposit(&mut contract, "bob", u128::MAX - 10);
    assert_eq!(
        contract.ft_on_transfer(&custodian(), &id("carol"), 11, &id("")),
        Err(ContractError::InvariantViolation)
    );
    assert_eq!(contract.get_number_of_accounts(), 1);
    assert_eq!(contract.free_pool.total_amount, u128::MAX - 10);
}

#[test]
fn loan_locks_the_collateral_it_requires() {
    let mut contract = engine();
    deposit(&mut contract, "bob", 300 * NEAR);
    assert_eq!(contract.take_loan(&id("bob"), 100 * NEAR), Ok(()));
    let info = contract.get_account_info(&id("bob")).unwrap();
    assert_eq!(info.usdnear, 100 * NEAR);
    assert_eq!(info.outstanding_loans_usdnear, 100 * NEAR);
    assert_eq!(info.locked_stnear, 200 * NEAR);
    assert_eq!(info.stnear, 100 * NEAR);
    assert_eq!(info.collateralization_ratio, 20_000);
    assert_eq!(info.usdnear_credit_limit, 50 * NEAR);
    assert_eq!(contract.get_total_usdnear(), 100 * NEAR);
    assert_eq!(contract.get_usdnear_balance(&id("bob")), 100 * NEAR);
    assert_eq!(contract.debt_pool, SharePool { total_amount: 100 * NEAR, total_shares: 100 * NEAR });
    assert_eq!(contract.locked_pool, SharePool { total_amount: 200 * NEAR, total_shares: 200 * NEAR });
    assert_eq!(contract.free_pool, SharePool { total_amount: 100 * NEAR, total_shares: 100 * NEAR });
}

#[test]
fn loan_under_the_minimum_is_rejected() {
    let mut contract = engine();
    deposit(&mut contract, "bob", 300 * NEAR);
    assert_eq!(
        contract.take_loan(&id("bob"), FIVE_NEAR - 1),
        Err(ContractError::AmountBelowMinimum { minimum: FIVE_NEAR })
    );
    assert_eq!(contract.take_loan(&id("bob"), FIVE_NEAR), Ok(()));
}

#[test]
fn loan_over_the_credit_limit_reports_the_limit() {
    let mut contract = engine();
    deposit(&mut contract, "bob", 300 * NEAR);
    assert_eq!(
        contract.take_loan(&id("bob"), 150 * NEAR + 1),
        Err(ContractError::InsufficientCollateral { limit: 150 * NEAR })
    );
    assert_eq!(contract.get_total_usdnear(), 0);
    assert_eq!(contract.take_loan(&id("bob"), 150 * NEAR), Ok(()));
    assert_eq!(
        contract.take_loan(&id("bob"), FIVE_NEAR),
        Err(ContractError::InsufficientCollateral { limit: 0 })
    );
    assert_eq!(
        contract.take_loan(&id("nobody"), FIVE_NEAR),
        Err(ContractError::InsufficientCollateral { limit: 0 })
    );
}

#[test]
fn repayment_is_capped_by_the_debt() {
    let mut contract = engine();
    deposit(&mut contract, "bob", 300 * NEAR);
    contract.take_loan(&id("bob"), 100 * NEAR).unwrap();
    assert_eq!(contract.repay_loan(&id("bob"), 40 * NEAR), Ok(()));
    let info = contract.get_account_info(&id("bob")).unwrap();
    assert_eq!(info.outstanding_loans_usdnear, 60 * NEAR);
    assert_eq!(info.usdnear, 60 * NEAR);
    assert_eq!(contract.repay_loan(&id("bob"), 1000 * NEAR), Ok(()));
    let info = contract.get_account_info(&id("bob")).unwrap();
    assert_eq!(info.outstanding_loans_usdnear, 0);
    assert_eq!(info.usdnear, 0);
    assert_eq!(contract.get_total_usdnear(), 0);
    assert_eq!(contract.repay_loan(&id("bob"), NEAR), Err(ContractError::NothingOwed));
}

#[test]
fn loan_then_repayment_returns_debt_and_balance() {
    let mut contract = engine_with_loans();
    let before = contract.get_account_info(&id("bob")).unwrap();
    let debt_before = contract.debt_pool;
    assert_eq!(contract.take_loan(&id("bob"), 7 * NEAR), Ok(()));
    assert_eq!(contract.repay_loan(&id("bob"), 7 * NEAR), Ok(()));
    let after = contract.get_account_info(&id("bob")).unwrap();
    assert_eq!(after.outstanding_loans_usdnear, before.outstanding_loans_usdnear);
    assert_eq!(after.usdnear, before.usdnear);
    assert_eq!(contract.debt_pool, debt_before);
    // the lock built up for the loan stays
    assert_eq!(after.locked_stnear, 214 * NEAR);
    assert_eq!(after.stnear, 86 * NEAR);
}

#[test]
fn repayment_is_capped_by_the_balance() {
    let mut contract = engine();
    deposit(&mut contract, "bob", 300 * NEAR);
    contract.take_loan(&id("bob"), 100 * NEAR).unwrap();
    contract.ft_transfer(&id("bob"), 1, &id("carol"), 80 * NEAR, &id(""), &id("")).unwrap();
    // 50 asked, 20 held: 20 repaid
    assert_eq!(contract.repay_loan(&id("bob"), 50 * NEAR), Ok(()));
    assert_eq!(contract.get_usdnear_balance(&id("bob")), 0);
    assert_eq!(contract.get_account_info(&id("bob")).unwrap().outstanding_loans_usdnear, 80 * NEAR);
    assert_eq!(contract.get_total_usdnear(), 80 * NEAR);
    // nothing held: nothing repaid
    assert_eq!(contract.repay_loan(&id("bob"), 50 * NEAR), Ok(()));
    assert_eq!(contract.get_account_info(&id("bob")).unwrap().outstanding_loans_usdnear, 80 * NEAR);
}

#[test]
fn withdrawal_settles_on_success() {
    let mut contract = engine();
    deposit(&mut contract, "bob", 300 * NEAR);
    assert_eq!(contract.withdraw_stnear(&id("bob"), 100 * NEAR), Ok(100 * NEAR));
    // nothing moves before the transfer is known to have succeeded
    assert_eq!(contract.get_account_info(&id("bob")).unwrap().stnear, 300 * NEAR);
    assert_eq!(contract.assert_not_busy(&id("bob")), Err(ContractError::GuardBusy));
    assert_eq!(contract.assert_not_busy(&id("carol")), Ok(()));
    assert_eq!(contract.after_transfer_stnear_to_user(&id("bob"), 100 * NEAR, true), Ok(()));
    assert_eq!(contract.get_account_info(&id("bob")).unwrap().stnear, 200 * NEAR);
    assert_eq!(contract.free_pool, SharePool { total_amount: 200 * NEAR, total_shares: 200 * NEAR });
    assert_eq!(contract.assert_not_busy(&id("bob")), Ok(()));
}

#[test]
fn withdrawal_that_fails_changes_nothing() {
    let mut contract = engine_with_loans();
    let pool_before = contract.free_pool;
    let account_before = contract.internal_get_account(&id("bob"));
    let sent = contract.withdraw_stnear(&id("bob"), 30 * NEAR).unwrap();
    assert_eq!(sent, 30 * NEAR);
    assert_eq!(
        contract.after_transfer_stnear_to_user(&id("bob"), sent, false),
        Err(ContractError::ExternalCallFailure)
    );
    assert_eq!(contract.free_pool, pool_before);
    assert_eq!(contract.internal_get_account(&id("bob")), account_before);
    assert_eq!(contract.assert_not_busy(&id("bob")), Ok(()));
    assert!(contract.guard.is_idle());
}

#[test]
fn withdrawal_takes_all_when_dust_would_stay() {
    let mut contract = engine();
    deposit(&mut contract, "bob", 300 * NEAR);
    let dust = NEAR / 200 - 1;
    assert_eq!(contract.withdraw_stnear(&id("bob"), 300 * NEAR - dust), Ok(300 * NEAR));
    assert_eq!(contract.after_transfer_stnear_to_user(&id("bob"), 300 * NEAR, true), Ok(()));
    assert_eq!(contract.get_number_of_accounts(), 0);
    assert_eq!(contract.free_pool, SharePool { total_amount: 0, total_shares: 0 });
    let mut other = engine();
    deposit(&mut other, "bob", 300 * NEAR);
    assert_eq!(other.withdraw_stnear(&id("bob"), 300 * NEAR - NEAR / 200), Ok(300 * NEAR - NEAR / 200));
}

#[test]
fn withdrawal_over_the_free_collateral_reports_what_is_there() {
    let mut contract = engine();
    deposit(&mut contract, "bob", 300 * NEAR);
    contract.take_loan(&id("bob"), 100 * NEAR).unwrap();
    assert_eq!(
        contract.withdraw_stnear(&id("bob"), 100 * NEAR + 1),
        Err(ContractError::InsufficientBalance { available: 100 * NEAR })
    );
    assert!(contract.guard.is_idle());
}

#[test]
fn pending_withdrawal_blocks_the_same_account_only() {
    let mut contract = engine_with_loans();
    contract.withdraw_stnear(&id("bob"), 10 * NEAR).unwrap();
    assert_eq!(contract.withdraw_stnear(&id("bob"), 10 * NEAR), Err(ContractError::GuardBusy));
    assert_eq!(contract.take_loan(&id("bob"), FIVE_NEAR), Err(ContractError::GuardBusy));
    assert_eq!(contract.repay_loan(&id("bob"), FIVE_NEAR), Err(ContractError::GuardBusy));
    assert_eq!(
        contract.ft_on_transfer(&custodian(), &id("bob"), FIVE_NEAR, &id("")),
        Err(ContractError::GuardBusy)
    );
    assert_eq!(
        contract.liquidate(&id("liquidator"), &id("bob"), TEN_NEAR),
        Err(ContractError::GuardBusy)
    );
    assert_eq!(
        contract.liquidate(&id("bob"), &id("liquidator"), TEN_NEAR),
        Err(ContractError::GuardBusy)
    );
    assert_eq!(contract.compute_rewards_and_interest(7), Err(ContractError::GuardBusy));
    // another account goes on
    assert_eq!(contract.withdraw_stnear(&id("liquidator"), 10 * NEAR), Ok(10 * NEAR));
    assert_eq!(contract.clear_busy_flag(&id("bob")), Err(ContractError::Unauthorized));
    assert_eq!(contract.clear_busy_flag(&id("owner")), Ok(true));
    assert_eq!(contract.clear_busy_flag(&id("owner")), Ok(false));
    assert_eq!(contract.take_loan(&id("bob"), FIVE_NEAR), Ok(()));
}

#[test]
fn ratio_is_capped_and_falls_with_debt() {
    assert_eq!(compute_ratio_bp(140, 100), 14_000);
    assert_eq!(compute_ratio_bp(140, 0), 99_900);
    assert_eq!(compute_ratio_bp(0, 100), 0);
    assert_eq!(compute_ratio_bp(1_000_000, 1), 99_900);
    assert_eq!(compute_ratio_bp(u128::MAX, 1), 99_900);
    assert_eq!(compute_ratio_bp(999, 100), 99_900);
    assert_eq!(compute_ratio_bp(998, 100), 99_800);
    let mut last = compute_ratio_bp(1_000, 0);
    for debt in 1u128..500 {
        let ratio = compute_ratio_bp(1_000, debt);
        assert!(ratio <= last);
        last = ratio;
    }
}

#[test]
fn liquidation_amounts() {
    // valued 140 against 100 owed: the target of 200% needs 200
    assert_eq!(compute_liquidation_repay(140, 100, 200, 20_000, 1000, 1_000), 66);
    assert_eq!(compute_liquidation_repay(140, 100, 200, 20_000, 1000, 50), 50);
    // under water: all the debt
    assert_eq!(compute_liquidation_repay(90, 100, 200, 20_000, 1000, 1_000), 100);
    assert_eq!(compute_liquidation_repay(90, 100, 200, 20_000, 1000, 30), 30);
    // 66 with 10% fee is worth 72, at a price of 0.70 that is 102
    assert_eq!(compute_liquidation_seize(200, 66, 1000, NEAR / 10 * 7), Some(102));
    assert_eq!(compute_liquidation_seize(100, 66, 1000, NEAR / 10 * 7), Some(100));
    assert_eq!(compute_liquidation_seize(100, u128::MAX, 1000, NEAR), None);
    assert_eq!(compute_liquidation_seize(100, u128::MAX / 2, 1000, 1), Some(100));
}

#[test]
fn liquidation_after_a_price_drop() {
    let mut contract = engine_with_loans();
    assert_eq!(
        contract.liquidate(&id("liquidator"), &id("bob"), 1000 * NEAR),
        Err(ContractError::NotLiquidatable { ratio: 20_000 })
    );
    drop_price_to_70_cents(&mut contract);
    let info = contract.get_account_info(&id("bob")).unwrap();
    assert_eq!(info.collateralization_ratio, 14_000);
    assert_eq!(contract.liquidate(&id("liquidator"), &id("bob"), 1000 * NEAR), Ok(()));
    let repaid: u128 = 66_666_666_666_666_666_666_666_666;
    let seized: u128 = 104_761_904_761_904_761_904_761_902;
    let bob = contract.get_account_info(&id("bob")).unwrap();
    assert_eq!(bob.outstanding_loans_usdnear, 100 * NEAR - repaid);
    assert_eq!(bob.locked_stnear, 200 * NEAR - seized);
    assert_eq!(bob.stnear, 100 * NEAR);
    assert_eq!(bob.usdnear, 100 * NEAR);
    assert_eq!(bob.collateralization_ratio, 20_000);
    let liquidator = contract.get_account_info(&id("liquidator")).unwrap();
    assert_eq!(liquidator.usdnear, 100 * NEAR - repaid);
    assert_eq!(liquidator.stnear, 800 * NEAR + seized);
    assert_eq!(liquidator.locked_stnear, 200 * NEAR);
    assert_eq!(liquidator.outstanding_loans_usdnear, 100 * NEAR);
    assert_eq!(contract.get_total_usdnear(), 200 * NEAR - repaid);
    assert_eq!(contract.locked_pool.total_amount, 400 * NEAR - seized);
    assert_eq!(contract.free_pool.total_amount, 900 * NEAR + seized);
    // the collateral received is the repaid debt plus 10%, at the price of 0.70
    assert_eq!(seized, (repaid * 11 / 10) * 10 / 7);
}

#[test]
fn liquidation_is_capped_by_the_liquidator() {
    let mut contract = engine_with_loans();
    drop_price_to_70_cents(&mut contract);
    assert_eq!(contract.liquidate(&id("liquidator"), &id("bob"), TEN_NEAR), Ok(()));
    let bob = contract.get_account_info(&id("bob")).unwrap();
    assert_eq!(bob.outstanding_loans_usdnear, 90 * NEAR);
    // 11 at 0.70
    assert_eq!(bob.locked_stnear, 200 * NEAR - 15_714_285_714_285_714_285_714_285);
    assert_eq!(contract.get_usdnear_balance(&id("liquidator")), 90 * NEAR);
}

#[test]
fn liquidation_rejections() {
    let mut contract = engine_with_loans();
    deposit(&mut contract, "carol", 50 * NEAR);
    drop_price_to_70_cents(&mut contract);
    assert_eq!(
        contract.liquidate(&id("liquidator"), &id("bob"), TEN_NEAR - 1),
        Err(ContractError::AmountBelowMinimum { minimum: TEN_NEAR })
    );
    assert_eq!(
        contract.liquidate(&id("liquidator"), &id("liquidator"), TEN_NEAR),
        Err(ContractError::Unauthorized)
    );
    assert_eq!(
        contract.liquidate(&id("carol"), &id("bob"), TEN_NEAR),
        Err(ContractError::InsufficientCollateral { limit: 0 })
    );
    assert_eq!(
        contract.liquidate(&id("liquidator"), &id("carol"), TEN_NEAR),
        Err(ContractError::NothingOwed)
    );
    contract.ft_transfer(&id("liquidator"), 1, &id("carol"), 95 * NEAR, &id(""), &id("")).unwrap();
    assert_eq!(
        contract.liquidate(&id("liquidator"), &id("bob"), 1000 * NEAR),
        Err(ContractError::InsufficientBalance { available: 5 * NEAR })
    );
    assert_eq!(contract.get_account_info(&id("bob")).unwrap().outstanding_loans_usdnear, 100 * NEAR);
}

#[test]
fn conversion_lowers_every_debt_in_proportion() {
    let mut contract = engine();
    deposit(&mut contract, "bob", 3000 * NEAR);
    contract.take_loan(&id("bob"), 1000 * NEAR).unwrap();
    contract.ft_transfer(&id("bob"), 1, &id("carol"), 50 * NEAR, &id(""), &id("")).unwrap();
    assert_eq!(contract.debt_pool, SharePool { total_amount: 1000 * NEAR, total_shares: 1000 * NEAR });
    let bob_before = contract.internal_get_account(&id("bob"));
    let free_before = contract.free_pool;
    let locked_before = contract.locked_pool;
    // carol holds the debt token and is no borrower
    assert_eq!(contract.convert_usdnear(&id("carol"), 50 * NEAR), Ok(()));
    assert_eq!(contract.debt_pool, SharePool { total_amount: 950 * NEAR, total_shares: 1000 * NEAR });
    assert_eq!(contract.get_usdnear_balance(&id("carol")), 0);
    // bob owes 5% less and nothing else has changed
    let bob = contract.get_account_info(&id("bob")).unwrap();
    assert_eq!(bob.outstanding_loans_usdnear, 950 * NEAR);
    assert_eq!(bob.usdnear, 950 * NEAR);
    assert_eq!(contract.internal_get_account(&id("bob")), bob_before);
    assert_eq!(contract.free_pool, free_before);
    assert_eq!(contract.locked_pool, locked_before);
    assert_eq!(contract.internal_get_account(&id("carol")), BorrowingAccount::default());
    assert_eq!(contract.get_number_of_accounts(), 1);
    assert!(contract.is_valid());
}

#[test]
fn conversion_rejections() {
    let mut contract = engine();
    deposit(&mut contract, "bob", 3000 * NEAR);
    contract.take_loan(&id("bob"), 1000 * NEAR).unwrap();
    assert_eq!(
        contract.convert_usdnear(&id("carol"), NEAR),
        Err(ContractError::InsufficientBalance { available: 0 })
    );
    assert_eq!(
        contract.convert_usdnear(&id("bob"), 1000 * NEAR + 1),
        Err(ContractError::InsufficientBalance { available: 1000 * NEAR })
    );
    // more held than is in circulation: a defect of the books
    contract.usdnear_balances.insert(&id("ghost"), &(2000 * NEAR));
    assert_eq!(
        contract.convert_usdnear(&id("ghost"), 1000 * NEAR + 1),
        Err(ContractError::InvariantViolation)
    );
    assert_eq!(contract.debt_pool, SharePool { total_amount: 1000 * NEAR, total_shares: 1000 * NEAR });
    assert_eq!(contract.get_usdnear_balance(&id("ghost")), 2000 * NEAR);
}

#[test]
fn conversion_of_all_the_debt_in_circulation() {
    let mut contract = engine();
    deposit(&mut contract, "bob", 3000 * NEAR);
    contract.take_loan(&id("bob"), 1000 * NEAR).unwrap();
    assert_eq!(contract.convert_usdnear(&id("bob"), 1000 * NEAR), Ok(()));
    // the shares stay and stand for nothing: bob owes nothing
    assert_eq!(contract.debt_pool, SharePool { total_amount: 0, total_shares: 1000 * NEAR });
    assert_eq!(contract.get_usdnear_balance(&id("bob")), 0);
    let bob = contract.get_account_info(&id("bob")).unwrap();
    assert_eq!(bob.outstanding_loans_usdnear, 0);
    assert_eq!(bob.collateralization_ratio, 99_900);
    assert_eq!(bob.locked_stnear, 2000 * NEAR);
    assert!(contract.is_valid());
    assert_eq!(contract.convert_usdnear(&id("bob"), 0), Ok(()));
}

#[test]
fn conversion_goes_on_while_a_withdrawal_is_pending() {
    let mut contract = engine_with_loans();
    contract.withdraw_stnear(&id("bob"), 10 * NEAR).unwrap();
    assert_eq!(contract.convert_usdnear(&id("bob"), 10 * NEAR), Ok(()));
    assert_eq!(contract.get_total_usdnear(), 190 * NEAR);
    assert_eq!(contract.assert_not_busy(&id("bob")), Err(ContractError::GuardBusy));
}

#[test]
fn price_moves_by_a_quarter_at_most() {
    assert!(within_quarter(100, 125));
    assert!(within_quarter(100, 75));
    assert!(!within_quarter(100, 126));
    assert!(!within_quarter(100, 74));
    assert!(within_quarter(100, 100));
    assert!(within_quarter(3, 3));
    assert!(!within_quarter(3, 4));
    assert!(!within_quarter(3, 2));
    assert!(within_quarter(u128::MAX, u128::MAX));
    assert!(!within_quarter(u128::MAX, u128::MAX / 2));
    assert!(within_quarter(u128::MAX / 5 * 4, u128::MAX));
    assert!(!within_quarter(u128::MAX / 5 * 4 - 4, u128::MAX));
    let mut contract = engine();
    assert_eq!(
        contract.set_stnear_price_usd(&id("operator"), NEAR),
        Err(ContractError::Unauthorized)
    );
    assert_eq!(
        contract.set_stnear_price_usd(&id("owner"), NEAR / 100 * 74),
        Err(ContractError::InvalidParameters)
    );
    assert_eq!(contract.set_stnear_price_usd(&id("owner"), NEAR / 100 * 125), Ok(()));
    assert_eq!(contract.current_stnear_price, NEAR / 100 * 125);
}

#[test]
fn parameters_must_be_consistent() {
    let mut contract = engine();
    let good = ContractParamsJSON {
        collateral_basis_points: 25_000,
        min_collateral_basis_points: 12_000,
        borrowing_paused: true,
        min_account_balance: 2 * NEAR,
        usdnear_apr_basis_points: 300,
        epochs_per_year: 365,
        operator_fee_basis_points: 1000,
        treasury_fee_basis_points: 9000,
    };
    assert_eq!(contract.set_contract_params(&id("bob"), good), Err(ContractError::Unauthorized));
    let threshold_over_target = ContractParamsJSON { min_collateral_basis_points: 25_000, ..good };
    assert_eq!(
        contract.set_contract_params(&id("owner"), threshold_over_target),
        Err(ContractError::InvalidParameters)
    );
    let threshold_at_fee = ContractParamsJSON { min_collateral_basis_points: 11_000, ..good };
    assert_eq!(
        contract.set_contract_params(&id("owner"), threshold_at_fee),
        Err(ContractError::InvalidParameters)
    );
    let split = ContractParamsJSON { operator_fee_basis_points: 1001, ..good };
    assert_eq!(contract.set_contract_params(&id("owner"), split), Err(ContractError::InvalidParameters));
    assert_eq!(contract.get_contract_params().collateral_basis_points, 20_000);
    assert_eq!(contract.set_contract_params(&id("owner"), good), Ok(()));
    assert_eq!(contract.get_contract_params(), good);
}

#[test]
fn pause_is_for_the_owner_and_once() {
    let mut contract = engine();
    assert_eq!(contract.pause_borrowing(&id("bob")), Err(ContractError::Unauthorized));
    assert_eq!(contract.pause_borrowing(&id("owner")), Ok(()));
    assert!(contract.get_contract_params().borrowing_paused);
    assert_eq!(contract.pause_borrowing(&id("owner")), Err(ContractError::AlreadyPaused));
}

#[test]
fn no_loan_while_borrowing_is_paused() {
    let mut contract = engine();
    deposit(&mut contract, "bob", 300 * NEAR);
    contract.take_loan(&id("bob"), 10 * NEAR).unwrap();
    contract.pause_borrowing(&id("owner")).unwrap();
    assert_eq!(contract.take_loan(&id("bob"), 10 * NEAR), Err(ContractError::BorrowingPaused));
    assert_eq!(contract.get_total_usdnear(), 10 * NEAR);
    // what is owed can still be repaid
    assert_eq!(contract.repay_loan(&id("bob"), 4 * NEAR), Ok(()));
    let resumed = ContractParamsJSON { borrowing_paused: false, ..contract.get_contract_params() };
    contract.set_contract_params(&id("owner"), resumed).unwrap();
    assert_eq!(contract.take_loan(&id("bob"), 10 * NEAR), Ok(()));
    assert_eq!(contract.get_total_usdnear(), 16 * NEAR);
}

#[test]
fn full_access_key_only_while_no_account_exists() {
    let mut contract = engine();
    assert_eq!(contract.add_full_access_key(&id("bob")), Err(ContractError::Unauthorized));
    assert_eq!(contract.add_full_access_key(&id("owner")), Ok(()));
    deposit(&mut contract, "bob", NEAR);
    assert_eq!(contract.add_full_access_key(&id("owner")), Err(ContractError::AccountsExist));
}

#[test]
fn token_transfers() {
    let mut contract = engine();
    deposit(&mut contract, "bob", 300 * NEAR);
    contract.take_loan(&id("bob"), 100 * NEAR).unwrap();
    assert_eq!(
        contract.ft_transfer(&id("bob"), 0, &id("carol"), NEAR, &id(""), &id("")),
        Err(ContractError::DepositRequired)
    );
    assert_eq!(
        contract.ft_transfer(&id("bob"), 1, &id("carol"), 101 * NEAR, &id(""), &id("")),
        Err(ContractError::InsufficientBalance { available: 100 * NEAR })
    );
    assert_eq!(contract.ft_transfer(&id("bob"), 1, &id("carol"), 30 * NEAR, &id(""), &id("")), Ok(()));
    assert_eq!(contract.get_usdnear_balance(&id("bob")), 70 * NEAR);
    assert_eq!(contract.get_usdnear_balance(&id("carol")), 30 * NEAR);
    // to oneself: nothing is made
    assert_eq!(contract.ft_transfer(&id("bob"), 1, &id("bob"), 70 * NEAR, &id(""), &id("")), Ok(()));
    assert_eq!(contract.get_usdnear_balance(&id("bob")), 70 * NEAR);
    assert_eq!(contract.get_contract_state().unwrap().balances_count, 2);
    assert_eq!(contract.ft_transfer(&id("carol"), 1, &id("bob"), 30 * NEAR, &id(""), &id("")), Ok(()));
    assert_eq!(contract.get_contract_state().unwrap().balances_count, 1);
}

#[test]
fn transfer_to_a_contract_is_undone_as_far_as_unused() {
    let mut contract = engine();
    deposit(&mut contract, "bob", 300 * NEAR);
    contract.take_loan(&id("bob"), 100 * NEAR).unwrap();
    assert_eq!(
        contract.ft_transfer_call(&id("bob"), 1, &id("shop"), 40 * NEAR, &id("buy"), &id("")),
        Ok(())
    );
    assert_eq!(contract.get_usdnear_balance(&id("shop")), 40 * NEAR);
    // the shop hands 15 back
    assert_eq!(
        contract.after_ft_on_transfer_usdnear(&id("bob"), &id("shop"), 40 * NEAR, 15 * NEAR, true),
        Ok(15 * NEAR)
    );
    assert_eq!(contract.get_usdnear_balance(&id("shop")), 25 * NEAR);
    assert_eq!(contract.get_usdnear_balance(&id("bob")), 75 * NEAR);
    // more reported unused than was sent: at most what was sent
    assert_eq!(
        contract.after_ft_on_transfer_usdnear(&id("bob"), &id("shop"), 10 * NEAR, 99 * NEAR, true),
        Ok(10 * NEAR)
    );
    // nothing unused
    assert_eq!(
        contract.after_ft_on_transfer_usdnear(&id("bob"), &id("shop"), 10 * NEAR, 0, true),
        Ok(0)
    );
    // the call failed: all of it
    assert_eq!(
        contract.after_ft_on_transfer_usdnear(&id("bob"), &id("shop"), 15 * NEAR, 0, false),
        Ok(15 * NEAR)
    );
    assert_eq!(contract.get_usdnear_balance(&id("shop")), 0);
    assert_eq!(contract.get_usdnear_balance(&id("bob")), 100 * NEAR);
    assert_eq!(
        contract.after_ft_on_transfer_usdnear(&id("bob"), &id("shop"), 15 * NEAR, 0, false),
        Err(ContractError::InsufficientBalance { available: 0 })
    );
    assert_eq!(
        contract.ft_transfer_call(&id("bob"), 2, &id("shop"), 40 * NEAR, &id("buy"), &id("")),
        Err(ContractError::DepositRequired)
    );
}

#[test]
fn rewards_run_once_per_period() {
    // 400 are locked
    let mut contract = engine_with_loans();
    // the marker of a new engine is period 0
    assert_eq!(contract.compute_rewards_and_interest(0), Err(ContractError::AlreadyRun));
    assert_eq!(contract.compute_rewards_and_interest(1), Ok(()));
    assert_eq!(contract.compute_rewards_and_interest(1), Err(ContractError::GuardBusy));
    assert_eq!(contract.withdraw_stnear(&id("bob"), NEAR), Err(ContractError::GuardBusy));
    let interest: u128 = 6_849_315_068_493_150_684_931;
    assert_eq!(
        contract.after_get_meta_contract_stnear_total_balance(Some(410 * NEAR), 1),
        Ok(RewardsOutcome::Distributed { rewards: 10 * NEAR, treasury_interest: interest })
    );
    assert!(contract.guard.is_idle());
    assert_eq!(contract.last_rewards_epoch_height, 1);
    assert_eq!(
        contract.locked_pool,
        SharePool { total_amount: 410 * NEAR, total_shares: 400 * NEAR + interest }
    );
    assert_eq!(contract.internal_get_account(&id("treasury")).locked_collateral_shares, interest);
    assert_eq!(contract.compute_rewards_and_interest(1), Err(ContractError::AlreadyRun));
    assert_eq!(contract.compute_rewards_and_interest(2), Ok(()));
}

#[test]
fn rewards_inconsistent_report_is_flagged() {
    let mut contract = engine_with_loans();
    contract.compute_rewards_and_interest(5).unwrap();
    let before = contract.locked_pool;
    assert_eq!(
        contract.after_get_meta_contract_stnear_total_balance(Some(399 * NEAR), 5),
        Ok(RewardsOutcome::Inconsistent { reported: 399 * NEAR, recorded: 400 * NEAR })
    );
    assert_eq!(contract.locked_pool, before);
    assert_eq!(contract.last_rewards_epoch_height, 0);
    assert!(contract.guard.is_idle());
}

#[test]
fn rewards_query_failure_releases_the_guard() {
    let mut contract = engine_with_loans();
    contract.compute_rewards_and_interest(5).unwrap();
    assert_eq!(
        contract.after_get_meta_contract_stnear_total_balance(None, 5),
        Err(ContractError::ExternalCallFailure)
    );
    assert!(contract.guard.is_idle());
    contract.compute_rewards_and_interest(5).unwrap();
    assert_eq!(
        contract.after_get_meta_contract_stnear_total_balance(Some(400 * NEAR), 5),
        Ok(RewardsOutcome::Distributed { rewards: 0, treasury_interest: 0 })
    );
    assert_eq!(contract.last_rewards_epoch_height, 0);
}

#[test]
fn rewards_smaller_than_the_interest_are_not_split() {
    let mut contract = engine_with_loans();
    contract.compute_rewards_and_interest(5).unwrap();
    let before = contract.locked_pool;
    assert_eq!(
        contract.after_get_meta_contract_stnear_total_balance(Some(400 * NEAR + 1), 5),
        Err(ContractError::InvariantViolation)
    );
    assert_eq!(contract.locked_pool, before);
    assert!(contract.guard.is_idle());
    assert_eq!(contract.epoch_interest_stnear(), Some(6_849_315_068_493_150_684_931));
}

#[test]
fn accounts_are_listed_in_order() {
    let mut contract = engine();
    for name in ["a", "b", "c", "d", "e"] {
        deposit(&mut contract, name, NEAR);
    }
    let names = |list: Vec<usdnear::types::GetAccountInfoResult>| -> Vec<String> {
        list.into_iter().map(|info| info.account_id).collect()
    };
    assert_eq!(names(contract.get_accounts(0, 10).unwrap()), vec![id("a"), id("b"), id("c"), id("d"), id("e")]);
    assert_eq!(names(contract.get_accounts(1, 2).unwrap()), vec![id("b"), id("c")]);
    assert_eq!(names(contract.get_accounts(4, 2).unwrap()), vec![id("e")]);
    assert_eq!(names(contract.get_accounts(5, 2).unwrap()), Vec::<String>::new());
    assert_eq!(names(contract.get_accounts(u64::MAX, 9_999).unwrap()), Vec::<String>::new());
    assert_eq!(names(contract.get_accounts(0, 0).unwrap()), Vec::<String>::new());
    assert_eq!(contract.get_accounts(0, 10_000).err(), Some(ContractError::InvalidParameters));
    assert_eq!(contract.get_number_of_accounts(), 5);
}

#[test]
fn conversions_at_the_current_price() {
    let mut contract = engine();
    contract.set_stnear_price_usd(&id("owner"), NEAR / 10 * 8).unwrap();
    assert_eq!(contract.stnear_to_usd(100), Some(80));
    assert_eq!(contract.usdnear_to_stnear(80), Some(100));
    assert_eq!(contract.usdnear_to_stnear(81), Some(101));
    assert_eq!(contract.usdnear_to_stnear(u128::MAX), None);
    deposit(&mut contract, "bob", 300);
    assert_eq!(contract.amount_from_free_shares(30), Some(30));
    assert_eq!(contract.free_shares_from_amount(30), Some(30));
    assert_eq!(contract.amount_from_collateral_shares(30), Some(0));
    assert_eq!(contract.locked_shares_from_amount(30), Some(30));
    assert_eq!(contract.amount_from_usdnear_shares(30), Some(0));
    assert_eq!(contract.usdnear_shares_from_amount(30), Some(30));
}

#[test]
fn account_valuations() {
    let mut contract = engine_with_loans();
    drop_price_to_70_cents(&mut contract);
    let bob = contract.internal_get_account(&id("bob"));
    assert_eq!(bob.outstanding_loans_usdnear(&contract), Some(100 * NEAR));
    assert_eq!(bob.free_stnear(&contract), Some(100 * NEAR));
    assert_eq!(bob.locked_stnear(&contract), Some(200 * NEAR));
    assert_eq!(bob.valued_collateral_usd(&contract), Some(140 * NEAR));
    // 200 of the debt token at 0.70
    assert_eq!(bob.required_collateral_stnear(&contract), Some(285_714_285_714_285_714_285_714_285));
    // 300 of collateral at 0.70 is worth 210, at 200% that carries 105
    assert_eq!(bob.max_usdnear(&contract), Some(105 * NEAR));
    assert_eq!(bob.get_current_credit_limit(&contract), Some(5 * NEAR));
    assert_eq!(bob.get_current_collateralization_ratio(&contract), Some(14_000));
    let nobody = BorrowingAccount::default();
    assert_eq!(nobody.required_collateral_stnear(&contract), Some(0));
    assert_eq!(nobody.get_current_collateralization_ratio(&contract), Some(99_900));
}

#[test]
fn engine_stays_valid_through_operations() {
    let mut contract = engine_with_loans();
    assert!(contract.is_valid());
    drop_price_to_70_cents(&mut contract);
    contract.liquidate(&id("liquidator"), &id("bob"), 1000 * NEAR).unwrap();
    assert!(contract.is_valid());
    contract.ft_transfer(&id("bob"), 1, &id("carol"), 50 * NEAR, &id(""), &id("")).unwrap();
    contract.convert_usdnear(&id("carol"), 50 * NEAR).unwrap();
    assert!(contract.is_valid());
    contract.compute_rewards_and_interest(3).unwrap();
    let reported = contract.locked_pool.total_amount + 5 * NEAR;
    contract.after_get_meta_contract_stnear_total_balance(Some(reported), 3).unwrap();
    assert!(contract.is_valid());
    let sent = contract.withdraw_stnear(&id("liquidator"), 10 * NEAR).unwrap();
    contract.after_transfer_stnear_to_user(&id("liquidator"), sent, true).unwrap();
    contract.repay_loan(&id("bob"), 1000 * NEAR).unwrap();
    contract.repay_loan(&id("liquidator"), 30 * NEAR).unwrap();
    assert!(contract.is_valid());
}

#[test]
fn engine_with_a_broken_part_is_not_valid() {
    let mut zero_price = engine_with_loans();
    zero_price.current_stnear_price = 0;
    assert!(!zero_price.is_valid());
    let mut ratios = engine_with_loans();
    ratios.min_collateral_basis_points = 11_000;
    assert!(!ratios.is_valid());
    let mut split = engine_with_loans();
    split.treasury_fee_basis_points = 6_999;
    assert!(!split.is_valid());
    let mut pool = engine_with_loans();
    pool.locked_pool.total_amount = 0;
    assert!(!pool.is_valid());
    let mut shares = engine_with_loans();
    shares.free_pool.total_shares += 1;
    assert!(!shares.is_valid());
    let mut locked = engine_with_loans();
    locked.locked_pool.total_shares -= 1;
    assert!(!locked.is_valid());
    let mut empty_record = engine_with_loans();
    empty_record.b_accounts.insert(&id("ghost"), &BorrowingAccount::default());
    assert!(!empty_record.is_valid());
    let mut zero_balance = engine_with_loans();
    zero_balance.usdnear_balances.insert(&id("ghost"), &0);
    assert!(!zero_balance.is_valid());
    let mut overflow = engine_with_loans();
    overflow.b_accounts.insert(
        &id("whale"),
        &BorrowingAccount { free_shares: u128::MAX, ..BorrowingAccount::default() },
    );
    assert!(!overflow.is_valid());
}

#[test]
fn redemption_burns_no_more_than_the_account_holds() {
    let mut contract = engine();
    deposit(&mut contract, "bob", 100 * NEAR);
    deposit(&mut contract, "carol", 100 * NEAR);
    // a settlement for more than bob has: bob's shares are the limit
    assert_eq!(contract.after_transfer_stnear_to_user(&id("bob"), 150 * NEAR, true), Ok(()));
    assert_eq!(contract.free_pool, SharePool { total_amount: 100 * NEAR, total_shares: 100 * NEAR });
    assert_eq!(contract.internal_get_account(&id("bob")), BorrowingAccount::default());
    assert_eq!(contract.get_account_info(&id("carol")).unwrap().stnear, 100 * NEAR);
    assert!(contract.is_valid());
}

#[test]
fn liquidation_just_under_the_threshold_restores_the_target() {
    let mut contract = engine_with_loans();
    contract.set_stnear_price_usd(&id("owner"), NEAR / 100 * 75).unwrap();
    contract.set_stnear_price_usd(&id("owner"), NEAR / 100_000 * 74_995).unwrap();
    // one basis point under the threshold of 150%
    assert_eq!(contract.get_account_info(&id("bob")).unwrap().collateralization_ratio, 14_999);
    assert_eq!(contract.liquidate(&id("liquidator"), &id("bob"), 1000 * NEAR), Ok(()));
    let bob = contract.get_account_info(&id("bob")).unwrap();
    assert_eq!(bob.outstanding_loans_usdnear, 44_433_333_333_333_333_333_333_334);
    assert_eq!(bob.locked_stnear, 118_496_788_674_800_542_258_372_783);
    assert_eq!(bob.collateralization_ratio, 20_000);
    assert_eq!(
        contract.get_usdnear_balance(&id("liquidator")),
        100 * NEAR - 55_566_666_666_666_666_666_666_666
    );
    assert!(contract.is_valid());
}

#[test]
fn liquidation_of_an_underwater_loan_clears_the_debt() {
    let mut contract = engine_with_loans();
    for price in [NEAR / 100 * 75, NEAR / 10_000 * 5_625, NEAR / 100 * 45] {
        contract.set_stnear_price_usd(&id("owner"), price).unwrap();
    }
    // 200 locked are worth 90, less than the 100 owed
    assert_eq!(contract.get_account_info(&id("bob")).unwrap().collateralization_ratio, 9_000);
    assert_eq!(contract.liquidate(&id("liquidator"), &id("bob"), 1000 * NEAR), Ok(()));
    let bob = contract.get_account_info(&id("bob")).unwrap();
    assert_eq!(bob.outstanding_loans_usdnear, 0);
    assert_eq!(bob.locked_stnear, 0);
    assert_eq!(bob.stnear, 100 * NEAR);
    assert_eq!(bob.collateralization_ratio, 99_900);
    let liquidator = contract.get_account_info(&id("liquidator")).unwrap();
    assert_eq!(liquidator.usdnear, 0);
    assert_eq!(liquidator.stnear, 1000 * NEAR);
    assert_eq!(contract.get_total_usdnear(), 100 * NEAR);
    assert!(contract.is_valid());
}

#[test]
fn liquidation_can_miss_a_target_of_300_percent_by_rounding() {
    let mut contract = engine();
    let params = ContractParamsJSON {
        collateral_basis_points: 30_000,
        min_collateral_basis_points: 12_000,
        ..contract.get_contract_params()
    };
    contract.set_contract_params(&id("owner"), params).unwrap();
    // bob: 119.990000000000000000000001 locked against 100 owed, one basis point under 120%
    let locked: u128 = 119_990_000_000_000_000_000_000_001;
    contract.b_accounts.insert(
        &id("bob"),
        &BorrowingAccount {
            locked_collateral_shares: locked,
            shares_usdnear_owed: 100 * NEAR,
            ..BorrowingAccount::default()
        },
    );
    contract.b_accounts.insert(
        &id("liquidator"),
        &BorrowingAccount { locked_collateral_shares: 100 * NEAR, ..BorrowingAccount::default() },
    );
    contract.locked_pool =
        SharePool { total_amount: locked + 100 * NEAR, total_shares: locked + 100 * NEAR };
    contract.debt_pool = SharePool { total_amount: 100 * NEAR, total_shares: 100 * NEAR };
    contract.usdnear_balances.insert(&id("liquidator"), &(100 * NEAR));
    assert!(contract.is_valid());
    assert_eq!(contract.get_account_info(&id("bob")).unwrap().collateralization_ratio, 11_999);
    assert_eq!(contract.liquidate(&id("liquidator"), &id("bob"), 1000 * NEAR), Ok(()));
    let bob = contract.get_account_info(&id("bob")).unwrap();
    assert_eq!(bob.outstanding_loans_usdnear, 5_257_894_736_842_105_263_157_896);
    assert_eq!(bob.locked_stnear, 15_773_684_210_526_315_789_473_687);
    // 10000 short of three times the debt: 299.99%
    assert_eq!(bob.collateralization_ratio, 29_999);
    assert!(contract.is_valid());
}

#[test]
fn loan_against_a_sufficient_lock_moves_no_collateral() {
    let mut contract = engine();
    deposit(&mut contract, "bob", 300 * NEAR);
    contract.take_loan(&id("bob"), 100 * NEAR).unwrap();
    contract.repay_loan(&id("bob"), 100 * NEAR).unwrap();
    // 200 stay locked and cover a new loan of 50
    let before = contract.internal_get_account(&id("bob"));
    let free_before = contract.free_pool;
    let locked_before = contract.locked_pool;
    contract.take_loan(&id("bob"), 50 * NEAR).unwrap();
    assert_eq!(contract.internal_get_account(&id("bob")).locked_collateral_shares, 200 * NEAR);
    assert_eq!(contract.internal_get_account(&id("bob")).free_shares, 100 * NEAR);
    contract.repay_loan(&id("bob"), 50 * NEAR).unwrap();
    assert_eq!(contract.internal_get_account(&id("bob")), before);
    assert_eq!(contract.free_pool, free_before);
    assert_eq!(contract.locked_pool, locked_before);
    assert_eq!(contract.debt_pool, SharePool { total_amount: 0, total_shares: 0 });
}

#[test]
fn deposit_is_priced_before_it_is_added() {
    // a free pool of 100 held by 50 shares
    let mut contract = engine();
    contract.b_accounts.insert(
        &id("alice"),
        &BorrowingAccount { free_shares: 50, ..BorrowingAccount::default() },
    );
    contract.free_pool = SharePool { total_amount: 100, total_shares: 50 };
    assert!(contract.is_valid());
    deposit(&mut contract, "bob", 10);
    // floor(10 * 50 / 100), not floor(10 * 50 / 110)
    assert_eq!(contract.internal_get_account(&id("bob")).free_shares, 5);
    assert_eq!(contract.free_pool, SharePool { total_amount: 110, total_shares: 55 });
    assert!(contract.is_valid());
}

#[test]
fn rewards_bring_the_locked_total_to_the_report() {
    let mut contract = engine_with_loans();
    let bob_before = contract.internal_get_account(&id("bob"));
    let free_before = contract.free_pool;
    contract.compute_rewards_and_interest(9).unwrap();
    let outcome = contract.after_get_meta_contract_stnear_total_balance(Some(444 * NEAR), 9);
    let interest: u128 = 6_849_315_068_493_150_684_931;
    assert_eq!(
        outcome,
        Ok(RewardsOutcome::Distributed { rewards: 44 * NEAR, treasury_interest: interest })
    );
    assert_eq!(contract.locked_pool.total_amount, 444 * NEAR);
    assert_eq!(contract.locked_pool.total_shares, 400 * NEAR + interest);
    assert_eq!(contract.internal_get_account(&id("bob")), bob_before);
    assert_eq!(contract.free_pool, free_before);
    assert!(contract.get_account_info(&id("bob")).unwrap().locked_stnear >= 200 * NEAR);
    assert_eq!(contract.last_rewards_epoch_height, 9);
    assert!(contract.guard.is_idle());
    assert!(contract.is_valid());
}

#[test]
fn rewards_before_any_collateral_is_locked_wait_for_the_first_lock() {
    let mut contract = engine();
    deposit(&mut contract, "bob", 300 * NEAR);
    contract.compute_rewards_and_interest(2).unwrap();
    // no debt, no interest: all the yield enters the locked pool, and no share is issued
    assert_eq!(
        contract.after_get_meta_contract_stnear_total_balance(Some(7 * NEAR), 2),
        Ok(RewardsOutcome::Distributed { rewards: 7 * NEAR, treasury_interest: 0 })
    );
    assert_eq!(contract.locked_pool, SharePool { total_amount: 7 * NEAR, total_shares: 0 });
    assert_eq!(contract.internal_get_account(&id("treasury")), BorrowingAccount::default());
    assert_eq!(contract.last_rewards_epoch_height, 2);
    assert!(contract.is_valid());
    // the first to lock collateral owns what the pool holds
    contract.take_loan(&id("bob"), 100 * NEAR).unwrap();
    assert_eq!(contract.locked_pool, SharePool { total_amount: 207 * NEAR, total_shares: 200 * NEAR });
    assert_eq!(contract.get_account_info(&id("bob")).unwrap().locked_stnear, 207 * NEAR);
    assert!(contract.is_valid());
}

#[test]
fn loan_then_repayment_off_par_returns_the_debt_up_to_rounding() {
    let mut contract = engine_with_loans();
    deposit(&mut contract, "bob", 2700 * NEAR);
    contract.take_loan(&id("bob"), 900 * NEAR).unwrap();
    contract.ft_transfer(&id("bob"), 1, &id("carol"), 77 * NEAR, &id(""), &id("")).unwrap();
    contract.convert_usdnear(&id("carol"), 77 * NEAR).unwrap();
    // 1023 of debt held by 1100 shares: a share is worth 0.93
    assert_eq!(contract.debt_pool, SharePool { total_amount: 1023 * NEAR, total_shares: 1100 * NEAR });
    let before = contract.get_account_info(&id("bob")).unwrap();
    assert_eq!(before.outstanding_loans_usdnear, 930 * NEAR);
    contract.take_loan(&id("bob"), 10 * NEAR).unwrap();
    let lent = contract.get_account_info(&id("bob")).unwrap();
    assert_eq!(lent.outstanding_loans_usdnear, 940 * NEAR - 1);
    contract.repay_loan(&id("bob"), 10 * NEAR).unwrap();
    let after = contract.get_account_info(&id("bob")).unwrap();
    assert_eq!(after.outstanding_loans_usdnear, 930 * NEAR);
    assert_eq!(after.usdnear, before.usdnear);
    assert_eq!(contract.internal_get_account(&id("bob")).shares_usdnear_owed, 1000 * NEAR);
    // one unit of rounding stays in the pool
    assert_eq!(
        contract.debt_pool,
        SharePool { total_amount: 1023 * NEAR + 1, total_shares: 1100 * NEAR }
    );
    assert!(contract.is_valid());
}
