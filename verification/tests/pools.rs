use usdnear::share_pool::SharePool;
use usdnear::utils::{amount_from_shares, apply_pct, checked_mul_div, min, shares_from_amount};

#[test]
fn mul_div_small_values() {
    assert_eq!(checked_mul_div(6, 7, 4), Some(10));
    assert_eq!(checked_mul_div(0, 7, 4), Some(0));
    assert_eq!(checked_mul_div(7, 0, 4), Some(0));
    assert_eq!(checked_mul_div(1, 1, 2), Some(0));
    assert_eq!(checked_mul_div(10, 10, 3), Some(33));
}

#[test]
fn mul_div_by_zero_is_none() {
    assert_eq!(checked_mul_div(1, 1, 0), None);
    assert_eq!(checked_mul_div(0, 0, 0), None);
    assert_eq!(checked_mul_div(u128::MAX, u128::MAX, 0), None);
}

#[test]
fn mul_div_product_wider_than_128_bits() {
    assert_eq!(checked_mul_div(u128::MAX, u128::MAX, u128::MAX), Some(u128::MAX));
    assert_eq!(checked_mul_div(u128::MAX, u128::MAX - 1, u128::MAX), Some(u128::MAX - 1));
    assert_eq!(checked_mul_div(1u128 << 127, 6, 4), Some(255211775190703847597530955573826158592));
    assert_eq!(
        checked_mul_div(
            1_000_000_000_000_000_000_000_000_000_000,
            1_000_000_000_000_000_000_000_000_000_000,
            10_000_000_000_000_000_000_000_000
        ),
        Some(100_000_000_000_000_000_000_000_000_000_000_000)
    );
    assert_eq!(
        checked_mul_div((1u128 << 100) + 12345, (1u128 << 90) + 999, (1u128 << 70) + 1),
        Some(1329227995784915872902682245986254848)
    );
    assert_eq!(checked_mul_div(u128::MAX, 3, 3), Some(u128::MAX));
}

#[test]
fn mul_div_quotient_too_large_is_none() {
    assert_eq!(checked_mul_div(u128::MAX, 2, 1), None);
    assert_eq!(checked_mul_div(u128::MAX, u128::MAX, u128::MAX - 1), None);
    assert_eq!(
        checked_mul_div(
            123456789012345678901234567890123456,
            987654321098765432109876543210987,
            100000000700000000000000000000
        ),
        None
    );
}

#[test]
fn mul_div_is_not_the_identity() {
    // a result that differs from each of the three arguments
    let r = checked_mul_div(300, 7, 11).unwrap();
    assert_eq!(r, 190);
}

#[test]
fn min_picks_the_smaller() {
    assert_eq!(min(3, 9), 3);
    assert_eq!(min(9, 3), 3);
    assert_eq!(min(4, 4), 4);
}

#[test]
fn apply_pct_exact_values() {
    assert_eq!(apply_pct(20_000, 100), Some(200));
    assert_eq!(apply_pct(250, 1_000_000), Some(25_000));
    assert_eq!(apply_pct(11_000, 66_666_666), Some(73_333_332));
    assert_eq!(apply_pct(1, 9_999), Some(0));
    assert_eq!(apply_pct(20_000, u128::MAX), None);
}

#[test]
fn shares_are_one_to_one_while_no_share_exists() {
    assert_eq!(shares_from_amount(500, 0, 0), Some(500));
    assert_eq!(amount_from_shares(500, 0, 0), Some(0));
}

#[test]
fn shares_and_amounts_round_down() {
    // price 10 / 3
    assert_eq!(shares_from_amount(5, 10, 3), Some(1));
    assert_eq!(amount_from_shares(1, 10, 3), Some(3));
    assert_eq!(shares_from_amount(9, 10, 3), Some(2));
    assert_eq!(amount_from_shares(2, 10, 3), Some(6));
    assert_eq!(shares_from_amount(7, 0, 3), Some(0));
}

#[test]
fn round_trip_never_gains() {
    let pools: [(u128, u128); 5] = [(10, 3), (3, 10), (1_000_003, 999_983), (7, 7), (0, 0)];
    for (total_amount, total_shares) in pools.iter() {
        for amount in 0u128..200 {
            let shares = shares_from_amount(amount, *total_amount, *total_shares).unwrap();
            let back = amount_from_shares(shares, *total_amount, *total_shares).unwrap();
            assert!(back <= amount);
        }
    }
}

#[test]
fn deposit_buys_in_at_the_price_before() {
    let mut pool = SharePool::new();
    assert_eq!(pool.deposit(100), Some(100));
    assert_eq!(pool, SharePool { total_amount: 100, total_shares: 100 });
    assert!(pool.inflate(100));
    assert_eq!(pool, SharePool { total_amount: 200, total_shares: 100 });
    // price is 2: 50 buys 25 shares
    assert_eq!(pool.deposit(50), Some(25));
    assert_eq!(pool, SharePool { total_amount: 250, total_shares: 125 });
}

#[test]
fn withdraw_releases_at_the_price_before() {
    let mut pool = SharePool { total_amount: 250, total_shares: 125 };
    assert_eq!(pool.withdraw(25), Some(50));
    assert_eq!(pool, SharePool { total_amount: 200, total_shares: 100 });
    assert_eq!(pool.withdraw(100), Some(200));
    assert_eq!(pool, SharePool { total_amount: 0, total_shares: 0 });
}

#[test]
fn withdraw_stops_at_zero() {
    let mut pool = SharePool { total_amount: 10, total_shares: 5 };
    assert_eq!(pool.withdraw(8), Some(16));
    assert_eq!(pool, SharePool { total_amount: 0, total_shares: 0 });
}

#[test]
fn deposit_that_overflows_changes_nothing() {
    let mut pool = SharePool { total_amount: u128::MAX - 5, total_shares: 10 };
    assert_eq!(pool.deposit(6), None);
    assert_eq!(pool, SharePool { total_amount: u128::MAX - 5, total_shares: 10 });
    let mut cheap = SharePool { total_amount: 1, total_shares: u128::MAX };
    assert_eq!(cheap.deposit(2), None);
    assert_eq!(cheap, SharePool { total_amount: 1, total_shares: u128::MAX });
}

#[test]
fn inflate_and_deflate_keep_the_shares() {
    let mut pool = SharePool { total_amount: 1000, total_shares: 1000 };
    pool.deflate(50);
    assert_eq!(pool, SharePool { total_amount: 950, total_shares: 1000 });
    assert_eq!(pool.amount_from_shares(100), Some(95));
    assert!(pool.inflate(1050));
    assert_eq!(pool, SharePool { total_amount: 2000, total_shares: 1000 });
    pool.deflate(5000);
    assert_eq!(pool, SharePool { total_amount: 0, total_shares: 1000 });
    let mut full = SharePool { total_amount: u128::MAX, total_shares: 1 };
    assert!(!full.inflate(1));
    assert_eq!(full, SharePool { total_amount: u128::MAX, total_shares: 1 });
}

#[test]
fn price_never_falls_over_deposits_and_withdrawals() {
    let mut pool = SharePool { total_amount: 1_000_003, total_shares: 999_983 };
    let steps: [(bool, u128); 8] = [
        (true, 17),
        (false, 5),
        (true, 1_000),
        (false, 999),
        (true, 1),
        (false, 1),
        (true, 123_456),
        (false, 77_777),
    ];
    for (is_deposit, value) in steps.iter() {
        let before = pool;
        if *is_deposit {
            pool.deposit(*value).unwrap();
        } else {
            pool.withdraw(*value).unwrap();
        }
        // before.price <= after.price, compared without dividing
        assert!(before.total_amount * pool.total_shares <= pool.total_amount * before.total_shares);
    }
}

#[test]
fn pool_conversions_match_the_free_functions() {
    let pool = SharePool { total_amount: 10, total_shares: 3 };
    assert_eq!(pool.shares_from_amount(5), Some(1));
    assert_eq!(pool.amount_from_shares(2), Some(6));
    assert_eq!(pool.amount_from_shares(u128::MAX), None);
}
