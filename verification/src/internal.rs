//! Steps shared by the operations: conversions at the current price, reading and
//! storing accounts and balances, and moving amounts in and out of the pools.

use vstd::prelude::*;
use crate::account::BorrowingAccount;
use crate::contract::{State, UsdNearStableCoin};
use crate::share_pool::SharePool;
use crate::types::{ContractError, FIVE_NEAR, NEAR};
use crate::utils::{checked_mul_div, min, min_spec};

verus! {

/// Accepts an amount of at least five whole tokens.
pub fn assert_min_amount(amount: u128) -> (res: Result<(), ContractError>)
    ensures
        res == if amount >= FIVE_NEAR {
            Ok::<(), ContractError>(())
        } else {
            Err::<(), ContractError>(ContractError::AmountBelowMinimum { minimum: FIVE_NEAR })
        },
{
    if amount >= FIVE_NEAR {
        Ok(())
    } else {
        Err(ContractError::AmountBelowMinimum { minimum: FIVE_NEAR })
    }
}

/// Accepts a callback only from the contract's own account.
pub fn assert_callback_calling(predecessor_id: &String, current_id: &String) -> (res: Result<
    (),
    ContractError,
>)
    ensures
        res == if predecessor_id@ == current_id@ {
            Ok::<(), ContractError>(())
        } else {
            Err::<(), ContractError>(ContractError::Unauthorized)
        },
{
    if *predecessor_id == *current_id {
        Ok(())
    } else {
        Err(ContractError::Unauthorized)
    }
}

/// The shares and the pool after `amount` came into `pool` for a holder of `shares`.
/// `None` where a total, or the holder's shares, would leave the 128-bit range.
pub open spec fn add_amount_spec(shares: u128, pool: SharePool, amount: u128) -> Option<
    (u128, SharePool),
> {
    match pool.deposit_spec(amount) {
        Some((after, issued)) => {
            if shares + issued > u128::MAX {
                None
            } else {
                Some(((shares + issued) as u128, after))
            }
        },
        None => None,
    }
}

/// The shares, the pool and the amount released after a holder of `shares` redeemed the
/// shares that `amount` buys at the pool's price, and at most the shares it holds.
pub open spec fn remove_amount_spec(shares: u128, pool: SharePool, amount: u128) -> Option<
    (u128, SharePool, u128),
> {
    match pool.shares_from_amount_spec(amount) {
        Some(bought) => {
            let burned = min_spec(bought, shares);
            match pool.withdraw_spec(burned) {
                Some((after, released)) => Some(((shares - burned) as u128, after, released)),
                None => None,
            }
        },
        None => None,
    }
}

/// What a holder redeems leaves the pool in full: the pool loses exactly the amount
/// released and exactly the shares the holder loses.
pub proof fn lemma_remove_amount(shares: u128, pool: SharePool, amount: u128)
    requires
        shares <= pool.total_shares,
    ensures
        match remove_amount_spec(shares, pool, amount) {
            Some((left, after, released)) => {
                &&& left <= shares
                &&& after.total_shares == pool.total_shares - (shares - left)
                &&& after.total_amount == pool.total_amount - released
            },
            None => true,
        },
{
    if let Some(bought) = pool.shares_from_amount_spec(amount) {
        pool.lemma_withdraw_rounding(min_spec(bought, shares));
    }
}

/// What a holder deposits enters the pool in full: the pool gains exactly the amount
/// and exactly the shares the holder gains.
pub proof fn lemma_add_amount(shares: u128, pool: SharePool, amount: u128)
    ensures
        match add_amount_spec(shares, pool, amount) {
            Some((held, after)) => {
                &&& held >= shares
                &&& after.total_shares == pool.total_shares + (held - shares)
                &&& after.total_amount == pool.total_amount + amount
            },
            None => true,
        },
{
}

/// What `held` shares are worth in `pool`, where they are at most the pool's shares.
pub open spec fn worth(held: u128, pool: SharePool) -> int {
    if pool.total_shares == 0 {
        0
    } else {
        (held * pool.total_amount) / (pool.total_shares as int)
    }
}

/// The whole units that one share of `pool` is worth.
pub open spec fn unit_price(pool: SharePool) -> int {
    if pool.total_shares == 0 {
        0
    } else {
        (pool.total_amount as int) / (pool.total_shares as int)
    }
}

/// The arithmetic of a redemption that burns the shares bought and not all the shares
/// held: what is left is worth at most what was held, less the amount, plus the price of
/// a share and two units.
proof fn lemma_redeem_upper(h: int, p: int, s: int, a: int, b: int, rel: int, w: int, q: int, x: int)
    requires
        s > 0,
        p > 0,
        0 <= b < h <= s,
        a >= 0,
        b == (a * s) / p,
        rel == (b * p) / s,
        w == (h * p) / s,
        q == p / s,
        x == ((h - b) * (p - rel)) / (s - b),
    ensures
        x <= w - a + q + 2,
{
    let left = h - b;
    let s1 = s - b;
    let p_left = p - rel;
    assert(b * p >= a * s - p + 1 && rel * s >= b * p - s + 1 && h * p <= w * s + s - 1 && p <= q
        * s + s - 1 && x * s1 <= left * p_left) by (nonlinear_arith)
        requires
            s > 0,
            p > 0,
            s1 > 0,
            b == (a * s) / p,
            rel == (b * p) / s,
            w == (h * p) / s,
            q == p / s,
            x == (left * p_left) / s1,
    ;
    assert(p_left * s <= p * s1 + s - 1) by (nonlinear_arith)
        requires
            p_left == p - rel,
            s1 == s - b,
            rel * s >= b * p - s + 1,
    ;
    assert(x * s1 * s <= s1 * (left * p + s - 1)) by (nonlinear_arith)
        requires
            x * s1 <= left * p_left,
            p_left * s <= p * s1 + s - 1,
            0 < left <= s1,
            s > 0,
    ;
    assert(x * s <= left * p + s - 1) by (nonlinear_arith)
        requires
            x * s1 * s <= s1 * (left * p + s - 1),
            s1 > 0,
    ;
    assert(left * p <= h * p - a * s + p - 1) by (nonlinear_arith)
        requires
            left == h - b,
            b * p >= a * s - p + 1,
    ;
    assert(x < w - a + q + 3) by (nonlinear_arith)
        requires
            x * s <= left * p + s - 1,
            left * p <= h * p - a * s + p - 1,
            h * p <= w * s + s - 1,
            p <= q * s + s - 1,
            s > 0,
    ;
}

/// The arithmetic of a redemption from below: what is left is worth at least what was
/// held less the amount.
proof fn lemma_redeem_lower(h: int, p: int, s: int, a: int, b: int, rel: int, w: int, x: int)
    requires
        s > 0,
        p > 0,
        0 <= b <= h <= s,
        b < s,
        a >= 0,
        b * p <= a * s,
        rel == (b * p) / s,
        w == (h * p) / s,
        x == ((h - b) * (p - rel)) / (s - b),
    ensures
        x >= w - a,
        rel <= a,
        rel <= p,
{
    let left = h - b;
    let s1 = s - b;
    let p_left = p - rel;
    assert(rel * s <= b * p && rel <= a && rel <= p) by (nonlinear_arith)
        requires
            rel == (b * p) / s,
            b * p <= a * s,
            0 <= b < s,
            p > 0,
            s > 0,
            a >= 0,
    ;
    // the price does not fall: p_left / s1 >= p / s
    assert(left * p_left * s >= left * p * s1) by (nonlinear_arith)
        requires
            p_left == p - rel,
            s1 == s - b,
            rel * s <= b * p,
            left >= 0,
    ;
    assert(x >= w - a) by (nonlinear_arith)
        requires
            x == (left * p_left) / s1,
            w == (h * p) / s,
            left * p_left * s >= left * p * s1,
            left == h - b,
            b * p <= a * s,
            s1 > 0,
            s > 0,
            left * p_left >= 0,
    {
        // (w - a) * s <= h*p - a*s <= left * p, so (w - a) * s * s1 <= left * p_left * s
        assert(w * s <= h * p);
        assert((w - a) * s <= left * p);
        assert((w - a) * s * s1 <= left * p * s1);
        assert((w - a) * s1 * s <= left * p_left * s);
        assert((w - a) * s1 <= left * p_left);
    }
}

/// The arithmetic of a redemption as a whole: what is left and what was released are
/// together worth no more than what was held.
proof fn lemma_redeem_rest(h: int, p: int, s: int, b: int, rel: int, w: int, x: int)
    requires
        s > 0,
        p > 0,
        0 <= b <= h <= s,
        b < s,
        rel == (b * p) / s,
        w == (h * p) / s,
        x == ((h - b) * (p - rel)) / (s - b),
    ensures
        x + rel <= w,
{
    let left = h - b;
    let s1 = s - b;
    let p_left = p - rel;
    let rho = b * p - rel * s;
    assert(0 <= rho < s && x * s1 <= left * p_left && (w + 1) * s > h * p) by (nonlinear_arith)
        requires
            rho == b * p - rel * s,
            rel == (b * p) / s,
            w == (h * p) / s,
            x == (left * p_left) / s1,
            s > 0,
            s1 > 0,
    ;
    assert(p_left * s == p * s1 + rho) by (nonlinear_arith)
        requires
            p_left == p - rel,
            s1 == s - b,
            rho == b * p - rel * s,
    ;
    assert(x * s1 * s <= s1 * (left * p + rho)) by (nonlinear_arith)
        requires
            x * s1 <= left * p_left,
            p_left * s == p * s1 + rho,
            0 <= left <= s1,
            rho >= 0,
            s > 0,
    ;
    assert(x * s <= left * p + rho) by (nonlinear_arith)
        requires
            x * s1 * s <= s1 * (left * p + rho),
            s1 > 0,
    ;
    assert(x + rel <= w) by (nonlinear_arith)
        requires
            x * s <= left * p + rho,
            left == h - b,
            rho == b * p - rel * s,
            (w + 1) * s > h * p,
            s > 0,
    ;
}

/// A holder that redeems an amount it holds keeps the rest, up to rounding: what its
/// shares are worth afterwards is at least what they were worth less the amount, and at
/// most that plus the price of one share and two units. The pool releases at most the
/// amount, and what is left and what was released are together worth no more than what
/// was held.
pub proof fn lemma_redeem_bounds(held: u128, pool: SharePool, amount: u128)
    requires
        held <= pool.total_shares,
        amount <= worth(held, pool),
    ensures
        match remove_amount_spec(held, pool, amount) {
            Some((left, after, released)) => {
                &&& left <= after.total_shares
                &&& released <= amount
                &&& after.amount_from_shares_spec(left) == Some(worth(left, after) as u128)
                &&& worth(held, pool) - amount <= worth(left, after) <= worth(held, pool) - amount
                    + unit_price(pool) + 2
                &&& worth(left, after) + released <= worth(held, pool)
                &&& after.total_amount == pool.total_amount - released
            },
            None => false,
        },
{
    let h = held as int;
    let p = pool.total_amount as int;
    let s = pool.total_shares as int;
    let a = amount as int;
    if s > 0 && p > 0 {
        let w = (h * p) / s;
        assert(0 <= w <= p) by (nonlinear_arith)
            requires
                w == (h * p) / s,
                0 <= h <= s,
                s > 0,
                p > 0,
        ;
        let bought = (a * s) / p;
        assert(0 <= bought <= s && bought * p <= a * s) by (nonlinear_arith)
            requires
                bought == (a * s) / p,
                0 <= a <= p,
                s > 0,
                p > 0,
        ;
        let b = if bought <= h { bought } else { h };
        let rel = (b * p) / s;
        assert(0 <= rel <= p && (b == s ==> rel == p)) by (nonlinear_arith)
            requires
                rel == (b * p) / s,
                0 <= b <= s,
                s > 0,
                p > 0,
        ;
        assert(b * p <= a * s) by (nonlinear_arith)
            requires
                bought * p <= a * s,
                0 <= b <= bought,
                p > 0,
        ;
        if b == s {
            // everything is redeemed: the amount is all the pool holds
            assert(w == p) by (nonlinear_arith)
                requires
                    w == (h * p) / s,
                    h == s,
                    s > 0,
            ;
            assert(a >= p) by (nonlinear_arith)
                requires
                    s * p <= a * s,
                    s > 0,
            ;
        } else {
            let x = ((h - b) * (p - rel)) / (s - b);
            lemma_redeem_lower(h, p, s, a, b, rel, w, x);
            lemma_redeem_rest(h, p, s, b, rel, w, x);
            assert(0 <= x <= p - rel) by (nonlinear_arith)
                requires
                    x == ((h - b) * (p - rel)) / (s - b),
                    0 <= h - b <= s - b,
                    s - b > 0,
                    p - rel >= 0,
            ;
            if b < h {
                lemma_redeem_upper(h, p, s, a, b, rel, w, p / s, x);
            } else {
                assert(x == 0) by (nonlinear_arith)
                    requires
                        x == ((h - b) * (p - rel)) / (s - b),
                        h - b == 0,
                        s - b > 0,
                ;
                assert(p / s >= 0) by (nonlinear_arith)
                    requires
                        p > 0,
                        s > 0,
                ;
            }
        }
    } else if s > 0 {
        assert(h * p == 0 && (h * p) / s == 0) by (nonlinear_arith)
            requires
                p == 0,
                s > 0,
        ;
    }
}

/// The arithmetic of a deposit: what the holder's shares are worth afterwards is at most
/// what they were worth plus the amount, and at least that less the price of one share
/// and one unit.
proof fn lemma_deposit_arith(h: int, p: int, s: int, a: int, n: int, w: int, q: int, x: int)
    requires
        s > 0,
        p > 0,
        0 <= h <= s,
        a >= 0,
        n == (a * s) / p,
        w == (h * p) / s,
        q == p / s,
        x == ((h + n) * (p + a)) / (s + n),
    ensures
        w + a - q - 1 <= x <= w + a,
{
    let m = h + n;
    let s2 = s + n;
    let p_more = p + a;
    let rho = a * s - n * p;
    assert(0 <= rho < p && n >= 0 && x * s2 <= m * p_more && (x + 1) * s2 > m * p_more && w * s <= h * p
        && (w + 1) * s > h * p && (q + 1) * s > p) by (nonlinear_arith)
        requires
            rho == a * s - n * p,
            n == (a * s) / p,
            w == (h * p) / s,
            q == p / s,
            x == (m * p_more) / s2,
            s2 == s + n,
            s > 0,
            p > 0,
            a >= 0,
    ;
    assert(p_more * s == p * s2 + rho) by (nonlinear_arith)
        requires
            p_more == p + a,
            s2 == s + n,
            rho == a * s - n * p,
    ;
    assert(x * s2 * s <= s2 * (m * p + rho) && (x + 1) * s2 * s > s2 * (m * p)) by (nonlinear_arith)
        requires
            x * s2 <= m * p_more,
            (x + 1) * s2 > m * p_more,
            p_more * s == p * s2 + rho,
            0 <= m <= s2,
            rho >= 0,
            s > 0,
    ;
    assert(x * s <= m * p + rho && (x + 1) * s > m * p) by (nonlinear_arith)
        requires
            x * s2 * s <= s2 * (m * p + rho),
            (x + 1) * s2 * s > s2 * (m * p),
            s2 > 0,
    ;
    assert(x <= w + a && x + 1 > w + a - (q + 1)) by (nonlinear_arith)
        requires
            x * s <= m * p + rho,
            (x + 1) * s > m * p,
            m == h + n,
            rho == a * s - n * p,
            0 <= rho < p,
            w * s <= h * p,
            (w + 1) * s > h * p,
            (q + 1) * s > p,
            s > 0,
    ;
}

/// A holder that deposits an amount holds it afterwards, up to rounding: what its shares
/// are worth afterwards is at most what they were worth plus the amount, and, in a pool
/// that holds something for its shares, at least that less the price of one share and
/// one unit.
pub proof fn lemma_deposit_bounds(held: u128, pool: SharePool, amount: u128)
    requires
        held <= pool.total_shares,
        pool.owned(),
    ensures
        match add_amount_spec(held, pool, amount) {
            Some((more, after)) => {
                &&& more <= after.total_shares
                &&& after.owned()
                &&& after.amount_from_shares_spec(more) == Some(worth(more, after) as u128)
                &&& worth(more, after) <= worth(held, pool) + amount
                &&& pool.wf() ==> worth(more, after) >= worth(held, pool) + amount - unit_price(
                    pool,
                ) - 1
            },
            None => true,
        },
{
    if let Some((more, after)) = add_amount_spec(held, pool, amount) {
        let h = held as int;
        let p = pool.total_amount as int;
        let s = pool.total_shares as int;
        let a = amount as int;
        let m = more as int;
        let p_more = after.total_amount as int;
        let s2 = after.total_shares as int;
        if s > 0 && p > 0 {
            let n = (a * s) / p;
            let x = (m * p_more) / s2;
            lemma_deposit_arith(h, p, s, a, n, (h * p) / s, p / s, x);
            assert(0 <= (h * p) / s <= p) by (nonlinear_arith)
                requires
                    0 <= h <= s,
                    s > 0,
                    p > 0,
            ;
        } else if s > 0 {
            assert(h * p == 0 && (h * p) / s == 0) by (nonlinear_arith)
                requires
                    p == 0,
                    s > 0,
            ;
            assert(0 <= (m * p_more) / s2 <= p_more) by (nonlinear_arith)
                requires
                    0 <= m <= s2,
                    s2 > 0,
                    p_more >= 0,
            ;
        } else {
            if a > 0 {
                assert((a * a) / a == a) by (nonlinear_arith)
                    requires
                        a > 0,
                ;
            }
        }
    }
}

/// A pool at par stays at par when a holder deposits into it or redeems from it.
pub proof fn lemma_par_is_kept(shares: u128, pool: SharePool, amount: u128)
    requires
        pool.at_par(),
    ensures
        match add_amount_spec(shares, pool, amount) {
            Some((_, after)) => after.at_par(),
            None => true,
        },
        match remove_amount_spec(shares, pool, amount) {
            Some((_, after, _)) => after.at_par(),
            None => true,
        },
{
    pool.lemma_at_par(amount);
    if let Some(bought) = pool.shares_from_amount_spec(amount) {
        let burned = min_spec(bought, shares);
        pool.lemma_at_par(burned);
        if burned > pool.total_shares {
            pool.lemma_withdraw_more_than_all(burned);
        }
    }
}

/// Deposits `amount` into `pool` and credits the shares issued to `shares`.
/// Returns `false`, and changes nothing, where [`add_amount_spec`] is `None`.
pub fn add_amount(shares: &mut u128, pool: &mut SharePool, amount: u128) -> (done: bool)
    ensures
        match add_amount_spec(*old(shares), *old(pool), amount) {
            Some((s, p)) => done && *final(shares) == s && *final(pool) == p,
            None => !done && *final(shares) == *old(shares) && *final(pool) == *old(pool),
        },
        old(pool).wf() ==> final(pool).wf(),
        old(pool).owned() ==> final(pool).owned(),
        old(pool).backed() ==> final(pool).backed(),
        old(pool).at_par() ==> final(pool).at_par(),
{
    let mut after: SharePool = *pool;
    let issued: u128 = match after.deposit(amount) {
        Some(n) => n,
        None => return false,
    };
    match (*shares).checked_add(issued) {
        Some(s) => {
            *shares = s;
            *pool = after;
            true
        },
        None => false,
    }
}

/// Redeems from `pool` the shares that `amount` buys, and at most `shares`, debits them
/// from `shares` and returns the amount released. Returns `None`, and changes nothing, where
/// [`remove_amount_spec`] is `None`.
pub fn remove_amount(shares: &mut u128, pool: &mut SharePool, amount: u128) -> (released: Option<
    u128,
>)
    ensures
        match remove_amount_spec(*old(shares), *old(pool), amount) {
            Some((s, p, r)) => released == Some(r) && *final(shares) == s && *final(pool) == p,
            None => released.is_none() && *final(shares) == *old(shares) && *final(pool) == *old(pool),
        },
        old(pool).wf() ==> final(pool).wf(),
        old(pool).owned() ==> final(pool).owned(),
        old(pool).backed() ==> final(pool).backed(),
        old(pool).at_par() ==> final(pool).at_par(),
{
    let bought: u128 = match pool.shares_from_amount(amount) {
        Some(n) => n,
        None => return None,
    };
    let burned: u128 = min(bought, *shares);
    let amount_released: u128 = match pool.withdraw(burned) {
        Some(a) => a,
        None => return None,
    };
    *shares = *shares - burned;
    Some(amount_released)
}

impl UsdNearStableCoin {
    /// Accepts the owner only.
    pub fn assert_owner_calling(&self, caller: &String) -> (res: Result<(), ContractError>)
        ensures
            res == if caller@ == self@.owner_account_id {
                Ok::<(), ContractError>(())
            } else {
                Err::<(), ContractError>(ContractError::Unauthorized)
            },
    {
        if *caller == self.owner_account_id {
            Ok(())
        } else {
            Err(ContractError::Unauthorized)
        }
    }

    /// Accepts an operation on `account_id` only while neither it nor the contract as a
    /// whole has a transfer pending.
    pub fn assert_not_busy(&self, account_id: &String) -> (res: Result<(), ContractError>)
        requires
            self.sound(),
        ensures
            res == if self@.guard.account_idle(account_id@) {
                Ok::<(), ContractError>(())
            } else {
                Err::<(), ContractError>(ContractError::GuardBusy)
            },
    {
        if self.guard.is_account_idle(account_id) {
            Ok(())
        } else {
            Err(ContractError::GuardBusy)
        }
    }

    /// Values collateral at the current price.
    pub fn stnear_to_usd(&self, stnear: u128) -> (usd: Option<u128>)
        ensures
            usd == self@.stnear_to_usd(stnear),
    {
        checked_mul_div(stnear, self.current_stnear_price, NEAR)
    }

    /// Converts an amount of the debt token to collateral at the current price.
    pub fn usdnear_to_stnear(&self, usdnear: u128) -> (stnear: Option<u128>)
        ensures
            stnear == self@.usdnear_to_stnear(usdnear),
    {
        checked_mul_div(usdnear, NEAR, self.current_stnear_price)
    }

    /// The debt that `num_shares` of the debt pool stand for.
    pub fn amount_from_usdnear_shares(&self, num_shares: u128) -> (amount: Option<u128>)
        ensures
            amount == self@.debt_pool.amount_from_shares_spec(num_shares),
    {
        self.debt_pool.amount_from_shares(num_shares)
    }

    /// The debt shares that `usdnear_amount` buys at the debt pool's price.
    pub fn usdnear_shares_from_amount(&self, usdnear_amount: u128) -> (shares: Option<u128>)
        ensures
            shares == self@.debt_pool.shares_from_amount_spec(usdnear_amount),
    {
        self.debt_pool.shares_from_amount(usdnear_amount)
    }

    /// The collateral that `num_shares` of the free pool stand for.
    pub fn amount_from_free_shares(&self, num_shares: u128) -> (amount: Option<u128>)
        ensures
            amount == self@.free_pool.amount_from_shares_spec(num_shares),
    {
        self.free_pool.amount_from_shares(num_shares)
    }

    /// The free shares that `amount` buys at the free pool's price.
    pub fn free_shares_from_amount(&self, amount: u128) -> (shares: Option<u128>)
        ensures
            shares == self@.free_pool.shares_from_amount_spec(amount),
    {
        self.free_pool.shares_from_amount(amount)
    }

    /// The collateral that `num_shares` of the locked pool stand for.
    pub fn amount_from_collateral_shares(&self, num_shares: u128) -> (amount: Option<u128>)
        ensures
            amount == self@.locked_pool.amount_from_shares_spec(num_shares),
    {
        self.locked_pool.amount_from_shares(num_shares)
    }

    /// The locked shares that `amount` buys at the locked pool's price.
    pub fn locked_shares_from_amount(&self, amount: u128) -> (shares: Option<u128>)
        ensures
            shares == self@.locked_pool.shares_from_amount_spec(amount),
    {
        self.locked_pool.shares_from_amount(amount)
    }

    /// The borrowing account of `account_id`, or the empty record.
    pub fn internal_get_account(&self, account_id: &String) -> (acc: BorrowingAccount)
        requires
            self.sound(),
        ensures
            acc == self@.account(account_id@),
    {
        match self.b_accounts.get(account_id) {
            Some(acc) => acc,
            None => BorrowingAccount::default(),
        }
    }

    /// Stores `account` for `account_id`; an empty record is removed instead.
    pub(crate) fn internal_update_account(&mut self, account_id: &String, account: &BorrowingAccount)
        requires
            old(self).sound(),
        ensures
            final(self).sound(),
            final(self)@ == old(self)@.with_account(account_id@, *account),
    {
        if account.is_empty() {
            self.b_accounts.remove(account_id);
        } else {
            self.b_accounts.insert(account_id, account);
        }
    }

    /// The debt-token balance of `account_id`, or zero.
    pub fn get_usdnear_balance(&self, account_id: &String) -> (balance: u128)
        requires
            self.sound(),
        ensures
            balance == self@.usdnear_balance(account_id@),
    {
        match self.usdnear_balances.get(account_id) {
            Some(balance) => balance,
            None => 0,
        }
    }

    /// Stores `balance` for `account_id`; a zero balance is removed instead.
    pub(crate) fn set_usdnear_balance(&mut self, account_id: &String, balance: u128)
        requires
            old(self).sound(),
        ensures
            final(self).sound(),
            final(self)@ == old(self)@.with_usdnear_balance(account_id@, balance),
            old(self).wf() ==> final(self).wf(),
    {
        if balance == 0 {
            self.usdnear_balances.remove(account_id);
        } else {
            self.usdnear_balances.insert(account_id, &balance);
        }
    }
}

impl State {
    /// The state after `amount` of the debt token moved from `sender` to `receiver`.
    /// Fails with `InsufficientBalance` where `sender` holds less, and with
    /// `InvariantViolation` where the receiver's balance would not fit.
    pub open spec fn usdnear_transfer(self, sender: Seq<char>, receiver: Seq<char>, amount: u128)
        -> Result<State, ContractError> {
        let sender_balance = self.usdnear_balance(sender);
        if sender_balance < amount {
            Err(ContractError::InsufficientBalance { available: sender_balance })
        } else {
            let debited = self.with_usdnear_balance(sender, (sender_balance - amount) as u128);
            let receiver_balance = debited.usdnear_balance(receiver);
            if receiver_balance + amount > u128::MAX {
                Err(ContractError::InvariantViolation)
            } else {
                Ok(debited.with_usdnear_balance(receiver, (receiver_balance + amount) as u128))
            }
        }
    }
}

impl UsdNearStableCoin {
    /// Moves `amount` of the debt token from `sender_id` to `receiver_id`.
    pub(crate) fn usdnear_transfer(
        &mut self,
        sender_id: &String,
        receiver_id: &String,
        amount: u128,
    ) -> (res: Result<(), ContractError>)
        requires
            old(self).sound(),
        ensures
            final(self).sound(),
            old(self).wf() ==> final(self).wf(),
            match old(self)@.usdnear_transfer(sender_id@, receiver_id@, amount) {
                Ok(state) => res.is_ok() && final(self)@ == state,
                Err(e) => res == Err::<(), ContractError>(e) && final(self)@ == old(self)@,
            },
    {
        let sender_balance: u128 = self.get_usdnear_balance(sender_id);
        if sender_balance < amount {
            return Err(ContractError::InsufficientBalance { available: sender_balance });
        }
        let receiver_balance: u128 = if *sender_id == *receiver_id {
            sender_balance - amount
        } else {
            self.get_usdnear_balance(receiver_id)
        };
        let credited: u128 = match receiver_balance.checked_add(amount) {
            Some(b) => b,
            None => return Err(ContractError::InvariantViolation),
        };
        self.set_usdnear_balance(sender_id, sender_balance - amount);
        self.set_usdnear_balance(receiver_id, credited);
        Ok(())
    }
}

} // verus!
