//! Wide multiply-divide and the share/amount conversions built on it.

use vstd::prelude::*;
use vstd::arithmetic::div_mod::{lemma_div_is_ordered, lemma_fundamental_div_mod_converse};

verus! {

/// `floor(a * b / c)`: defined when `c` is not zero and the quotient fits in 128 bits.
/// The product itself is taken over the integers and need not fit.
pub open spec fn mul_div(a: u128, b: u128, c: u128) -> Option<u128> {
    if c == 0 || (a * b) / (c as int) > u128::MAX {
        None
    } else {
        Some(((a * b) / (c as int)) as u128)
    }
}

/// The sum of two numbers given as quotient and remainder by `c`, where the remainders
/// carry at most once.
proof fn lemma_quot_rem_sum(q1: int, r1: int, q2: int, r2: int, c: int, q: int, r: int)
    by (nonlinear_arith)
    requires
        q == q1 + q2 + (r1 + r2 - r) / c,
        r1 + r2 - r == 0 || r1 + r2 - r == c,
        c > 0,
    ensures
        q * c + r == (q1 * c + r1) + (q2 * c + r2),
{
}

/// One step of the multiplication: the lowest bit of `n` adds `a` once, the rest doubles it.
proof fn lemma_step(s: int, a: int, n: int, m: int, bit: int)
    by (nonlinear_arith)
    requires
        n == 2 * m + bit,
        bit == 0 || bit == 1,
    ensures
        s + a * n == (if bit == 1 { s + a } else { s }) + (a + a) * m,
{
}

/// A product of a number that is not negative by a positive one is at least that number.
proof fn lemma_term_le(a: int, n: int)
    by (nonlinear_arith)
    requires
        a >= 0,
        n >= 1,
    ensures
        a <= a * n,
{
}

/// Adds two numbers given as quotient and remainder by `c`.
/// Fails exactly when the quotient of the sum does not fit in 128 bits.
fn add_quot_rem(q1: u128, r1: u128, q2: u128, r2: u128, c: u128) -> (res: Option<(u128, u128)>)
    requires
        r1 < c,
        r2 < c,
    ensures
        match res {
            Some((q, r)) => r < c && q * c + r == (q1 * c + r1) + (q2 * c + r2),
            None => ((q1 * c + r1) + (q2 * c + r2)) / (c as int) > u128::MAX,
        },
{
    let carry: u128;
    let r: u128;
    if r1 >= c - r2 {
        r = r1 - (c - r2);
        carry = 1;
    } else {
        r = r1 + r2;
        carry = 0;
    }
    proof {
        lemma_quot_rem_sum(
            q1 as int,
            r1 as int,
            q2 as int,
            r2 as int,
            c as int,
            q1 + q2 + carry,
            r as int,
        );
        lemma_fundamental_div_mod_converse(
            (q1 * c + r1) + (q2 * c + r2),
            c as int,
            q1 + q2 + carry,
            r as int,
        );
    }
    match q1.checked_add(q2) {
        None => None,
        Some(q12) => match q12.checked_add(carry) {
            None => None,
            Some(q) => Some((q, r)),
        },
    }
}

/// Computes `floor(a * b / c)` without losing the high half of the product.
///
/// Returns `None` when `c` is zero or the quotient exceeds `u128::MAX`.
pub fn checked_mul_div(a: u128, b: u128, c: u128) -> (res: Option<u128>)
    ensures
        res == mul_div(a, b, c),
{
    if c == 0 {
        return None;
    }
    if let Some(p) = a.checked_mul(b) {
        return Some(p / c);
    }
    // The product needs more than 128 bits: accumulate `a * b` bit by bit of `b`,
    // holding every partial value as quotient and remainder by `c`.
    let mut q: u128 = 0;
    let mut r: u128 = 0;
    let mut qa: u128 = a / c;
    let mut ra: u128 = a % c;
    let mut n: u128 = b;
    proof {
        assert((0 * c + 0) + ((a / c) * c + a % c) * n == a * b) by (nonlinear_arith)
            requires
                c > 0,
                n == b,
                a == c * (a / c) + a % c,
        ;
    }
    while n > 0
        invariant
            c > 0,
            r < c,
            ra < c,
            (q * c + r) + (qa * c + ra) * n == a * b,
        decreases n,
    {
        let ghost s = q * c + r;
        let ghost t = qa * c + ra;
        let ghost m = n as int / 2;
        let ghost bit = n as int % 2;
        proof {
            lemma_step(s, t, n as int, m, bit);
            lemma_term_le(t, n as int);
            assert(q * c >= 0 && qa * c >= 0) by (nonlinear_arith)
                requires q >= 0, qa >= 0, c > 0;
        }
        if n % 2 == 1 {
            match add_quot_rem(q, r, qa, ra, c) {
                Some((q_new, r_new)) => {
                    q = q_new;
                    r = r_new;
                },
                None => {
                    proof {
                        lemma_div_is_ordered(s + t, a * b, c as int);
                    }
                    return None;
                },
            }
        }
        assert(q * c + r == if bit == 1 { s + t } else { s });
        n = n / 2;
        if n > 0 {
            match add_quot_rem(qa, ra, qa, ra, c) {
                Some((q_new, r_new)) => {
                    qa = q_new;
                    ra = r_new;
                    assert(qa * c + ra == t + t);
                },
                None => {
                    proof {
                        lemma_term_le(t + t, m);
                        lemma_div_is_ordered(t + t, a * b, c as int);
                    }
                    return None;
                },
            }
        } else {
            assert((qa * c + ra) * n == 0 && (t + t) * m == 0) by (nonlinear_arith)
                requires
                    n == 0,
                    m == 0,
            ;
        }
    }
    proof {
        assert((qa * c + ra) * n == 0) by (nonlinear_arith)
            requires n == 0;
        lemma_fundamental_div_mod_converse(a * b, c as int, q as int, r as int);
    }
    Some(q)
}

/// Shares that `amount` buys in a pool of `total_amount` held by `total_shares`:
/// one share per unit while no share exists, else `floor(amount * total_shares / total_amount)`.
pub open spec fn shares_from_amount_spec(amount: u128, total_amount: u128, total_shares: u128) -> Option<u128> {
    if total_shares == 0 {
        Some(amount)
    } else if total_amount == 0 {
        Some(0)
    } else {
        mul_div(amount, total_shares, total_amount)
    }
}

/// Amount that `num_shares` are worth in a pool of `total_amount` held by `total_shares`:
/// `floor(num_shares * total_amount / total_shares)`, and nothing while no share exists.
pub open spec fn amount_from_shares_spec(num_shares: u128, total_amount: u128, total_shares: u128) -> Option<u128> {
    if total_shares == 0 {
        Some(0)
    } else {
        mul_div(num_shares, total_amount, total_shares)
    }
}

/// `floor(amount * basis_points / 10000)`.
pub open spec fn apply_pct_spec(basis_points: u32, amount: u128) -> Option<u128> {
    mul_div(amount, basis_points as u128, 10_000)
}

/// The smaller of two numbers.
pub open spec fn min_spec(a: u128, b: u128) -> u128 {
    if a <= b {
        a
    } else {
        b
    }
}

/// The smaller of two numbers.
pub fn min(a: u128, b: u128) -> (m: u128)
    ensures
        m == min_spec(a, b),
{
    if a <= b {
        a
    } else {
        b
    }
}

/// Computes [`shares_from_amount_spec`].
pub fn shares_from_amount(amount: u128, total_amount: u128, total_shares: u128) -> (shares: Option<u128>)
    ensures
        shares == shares_from_amount_spec(amount, total_amount, total_shares),
{
    if total_shares == 0 {
        Some(amount)
    } else if total_amount == 0 {
        Some(0)
    } else {
        checked_mul_div(amount, total_shares, total_amount)
    }
}

/// Computes [`amount_from_shares_spec`].
pub fn amount_from_shares(num_shares: u128, total_amount: u128, total_shares: u128) -> (amount: Option<u128>)
    ensures
        amount == amount_from_shares_spec(num_shares, total_amount, total_shares),
{
    if total_shares == 0 {
        Some(0)
    } else {
        checked_mul_div(num_shares, total_amount, total_shares)
    }
}

/// Computes [`apply_pct_spec`].
pub fn apply_pct(basis_points: u32, amount: u128) -> (part: Option<u128>)
    ensures
        part == apply_pct_spec(basis_points, amount),
{
    checked_mul_div(amount, basis_points as u128, 10_000)
}

/// Converting an amount to shares and back never yields more than the amount.
pub proof fn lemma_round_trip_never_gains(amount: u128, total_amount: u128, total_shares: u128)
    ensures
        match shares_from_amount_spec(amount, total_amount, total_shares) {
            Some(shares) => match amount_from_shares_spec(shares, total_amount, total_shares) {
                Some(back) => back <= amount,
                None => false,
            },
            None => true,
        },
{
    if total_shares != 0 && total_amount != 0 {
        if let Some(shares) = mul_div(amount, total_shares, total_amount) {
            let a = amount as int;
            let t = total_amount as int;
            let s = total_shares as int;
            let n = shares as int;
            assert(n == (a * s) / t);
            assert(n * t <= a * s) by (nonlinear_arith)
                requires
                    n == (a * s) / t,
                    t > 0,
                    a >= 0,
                    s > 0,
            ;
            lemma_div_is_ordered(n * t, a * s, s);
            assert((a * s) / s == a) by (nonlinear_arith)
                requires
                    s > 0,
            ;
        }
    }
}

/// Converting shares to an amount and back never yields more than the shares.
pub proof fn lemma_round_trip_never_gains_shares(
    num_shares: u128,
    total_amount: u128,
    total_shares: u128,
)
    ensures
        match amount_from_shares_spec(num_shares, total_amount, total_shares) {
            Some(amount) => match shares_from_amount_spec(amount, total_amount, total_shares) {
                Some(back) => back <= num_shares,
                None => false,
            },
            None => true,
        },
{
    if total_shares != 0 && total_amount != 0 {
        if let Some(amount) = mul_div(num_shares, total_amount, total_shares) {
            let n = num_shares as int;
            let t = total_amount as int;
            let s = total_shares as int;
            let m = amount as int;
            assert(m == (n * t) / s);
            assert(m * s <= n * t) by (nonlinear_arith)
                requires
                    m == (n * t) / s,
                    s > 0,
                    n >= 0,
                    t > 0,
            ;
            lemma_div_is_ordered(m * s, n * t, t);
            assert((n * t) / t == n) by (nonlinear_arith)
                requires
                    t > 0,
            ;
        }
    }
}

} // verus!
