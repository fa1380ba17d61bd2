//! The shares of all accounts add up to the shares of each pool.

use vstd::prelude::*;
use crate::account::BorrowingAccount;
use crate::contract::State;
use crate::share_pool::SharePool;

verus! {

/// The three pools in which accounts hold shares.
pub enum PoolKind {
    Free,
    Locked,
    Debt,
}

impl BorrowingAccount {
    /// The shares the account holds in the pool `kind`.
    pub open spec fn shares_in(self, kind: PoolKind) -> u128 {
        match kind {
            PoolKind::Free => self.free_shares,
            PoolKind::Locked => self.locked_collateral_shares,
            PoolKind::Debt => self.shares_usdnear_owed,
        }
    }
}

/// The sum of the numbers of `values`.
pub open spec fn seq_sum(values: Seq<int>) -> int
    decreases values.len(),
{
    if values.len() == 0 {
        0
    } else {
        seq_sum(values.drop_last()) + values.last()
    }
}

/// The shares in the pool `kind` of the accounts of `order`, one after the other.
pub open spec fn share_values(
    accounts: Map<Seq<char>, BorrowingAccount>,
    order: Seq<Seq<char>>,
    kind: PoolKind,
) -> Seq<int> {
    Seq::new(order.len(), |i: int| accounts[order[i]].shares_in(kind) as int)
}

/// Replacing one number changes the sum by the difference.
proof fn lemma_seq_sum_update(values: Seq<int>, i: int, v: int)
    requires
        0 <= i < values.len(),
    ensures
        seq_sum(values.update(i, v)) == seq_sum(values) - values[i] + v,
    decreases values.len(),
{
    let updated = values.update(i, v);
    if i == values.len() - 1 {
        assert(updated.drop_last() =~= values.drop_last());
    } else {
        lemma_seq_sum_update(values.drop_last(), i, v);
        assert(updated.drop_last() =~= values.drop_last().update(i, v));
    }
}

/// Appending a number adds it to the sum.
proof fn lemma_seq_sum_push(values: Seq<int>, v: int)
    ensures
        seq_sum(values.push(v)) == seq_sum(values) + v,
{
    assert(values.push(v).drop_last() =~= values);
}

/// Among numbers that are not negative, none exceeds the sum.
proof fn lemma_seq_sum_bound(values: Seq<int>, i: int)
    requires
        0 <= i < values.len(),
        forall|j: int| 0 <= j < values.len() ==> values[j] >= 0,
    ensures
        0 <= values[i] <= seq_sum(values),
        0 <= seq_sum(values.drop_last()),
    decreases values.len(),
{
    if values.len() > 1 {
        if i < values.len() - 1 {
            lemma_seq_sum_bound(values.drop_last(), i);
        } else {
            lemma_seq_sum_bound(values.drop_last(), 0);
            reveal_with_fuel(seq_sum, 2);
        }
    } else {
        reveal_with_fuel(seq_sum, 2);
    }
}

/// The sum of the first `n` numbers of `values` is at most the sum of all.
pub proof fn lemma_seq_sum_prefix(values: Seq<int>, n: int)
    requires
        0 <= n <= values.len(),
        forall|j: int| 0 <= j < values.len() ==> values[j] >= 0,
    ensures
        0 <= seq_sum(values.subrange(0, n)) <= seq_sum(values),
        n < values.len() ==> seq_sum(values.subrange(0, n + 1)) == seq_sum(values.subrange(0, n))
            + values[n],
    decreases values.len() - n,
{
    if n < values.len() {
        lemma_seq_sum_prefix(values, n + 1);
        assert(values.subrange(0, n + 1).drop_last() =~= values.subrange(0, n));
        if n == 0 {
            assert(values.subrange(0, 0) =~= Seq::<int>::empty());
        } else {
            lemma_seq_sum_bound(values.subrange(0, n), 0);
            assert(forall|j: int| 0 <= j < n ==> values.subrange(0, n)[j] >= 0);
        }
    } else {
        assert(values.subrange(0, n) =~= values);
        if n == 0 {
        } else {
            lemma_seq_sum_bound(values, 0);
        }
    }
}

/// What the shares of each account of `order` are worth in `pool`, one after the other.
pub open spec fn amount_values(
    accounts: Map<Seq<char>, BorrowingAccount>,
    order: Seq<Seq<char>>,
    kind: PoolKind,
    pool: SharePool,
) -> Seq<int> {
    Seq::new(
        order.len(),
        |i: int|
            (accounts[order[i]].shares_in(kind) * pool.total_amount) / (pool.total_shares as int),
    )
}

/// Amounts rounded down one by one add up to no more than the whole: with `worth[i]` the
/// floor of `shares[i] * total_amount / total_shares`, the sum of `worth`, times
/// `total_shares`, is at most the sum of `shares` times `total_amount`.
proof fn lemma_floors_add_up(shares: Seq<int>, worth: Seq<int>, total_amount: int, total_shares: int)
    requires
        total_shares > 0,
        total_amount >= 0,
        shares.len() == worth.len(),
        forall|i: int| 0 <= i < shares.len() ==> shares[i] >= 0,
        forall|i: int|
            0 <= i < shares.len() ==> #[trigger] worth[i] == (shares[i] * total_amount)
                / total_shares,
    ensures
        seq_sum(worth) * total_shares <= seq_sum(shares) * total_amount,
        seq_sum(worth) >= 0,
    decreases shares.len(),
{
    if shares.len() == 0 {
        assert(0 * total_shares == 0 && 0 * total_amount == 0) by (nonlinear_arith);
    } else {
        lemma_floors_add_up(shares.drop_last(), worth.drop_last(), total_amount, total_shares);
        let w = worth.last();
        let v = shares.last();
        let ws = seq_sum(worth.drop_last());
        let vs = seq_sum(shares.drop_last());
        assert(w == (v * total_amount) / total_shares);
        assert((ws + w) * total_shares <= (vs + v) * total_amount && w >= 0) by (nonlinear_arith)
            requires
                ws * total_shares <= vs * total_amount,
                w == (v * total_amount) / total_shares,
                total_shares > 0,
                total_amount >= 0,
                v >= 0,
        ;
    }
}

impl State {
    /// The pool `kind`.
    pub open spec fn pool(self, kind: PoolKind) -> SharePool {
        match kind {
            PoolKind::Free => self.free_pool,
            PoolKind::Locked => self.locked_pool,
            PoolKind::Debt => self.debt_pool,
        }
    }

    /// All the shares that accounts hold in the pool `kind`.
    pub open spec fn shares_held(self, kind: PoolKind) -> int {
        seq_sum(share_values(self.b_accounts, self.account_order, kind))
    }

    /// The account order lists each borrowing account once, and nothing else.
    pub open spec fn listed_once(self) -> bool {
        &&& self.account_order.no_duplicates()
        &&& forall|id: Seq<char>|
            self.b_accounts.contains_key(id) <==> #[trigger] self.account_order.contains(id)
    }

    /// In each pool, the shares of all accounts add up to the shares of the pool.
    pub open spec fn balanced(self) -> bool {
        &&& self.shares_held(PoolKind::Free) == self.free_pool.total_shares
        &&& self.shares_held(PoolKind::Locked) == self.locked_pool.total_shares
        &&& self.shares_held(PoolKind::Debt) == self.debt_pool.total_shares
    }

    /// Storing a record for an account changes the shares held in a pool by the
    /// difference between the new record and the old, and no account holds more shares
    /// of a pool than all accounts together.
    pub proof fn lemma_with_account(self, id: Seq<char>, acc: BorrowingAccount, kind: PoolKind)
        requires
            self.listed_once(),
        ensures
            self.with_account(id, acc).listed_once(),
            self.with_account(id, acc).shares_held(kind) == self.shares_held(kind) - self.account(
                id,
            ).shares_in(kind) + acc.shares_in(kind),
            self.account(id).shares_in(kind) <= self.shares_held(kind),
            self.with_account(id, acc).account(id) == acc,
    {
        let order = self.account_order;
        let values = share_values(self.b_accounts, order, kind);
        let after = self.with_account(id, acc);
        let after_values = share_values(after.b_accounts, after.account_order, kind);
        if order.contains(id) {
            let i = order.index_of(id);
            assert(0 <= i < order.len() && order[i] == id);
            assert(values[i] == self.account(id).shares_in(kind));
            lemma_seq_sum_bound(values, i);
            if acc.is_empty_spec() {
                let moved = values.update(i, values.last());
                lemma_seq_sum_update(values, i, values.last());
                assert(moved.last() == values.last());
                assert(after_values =~= moved.drop_last()) by {
                    assert forall|j: int| 0 <= j < after_values.len() implies after_values[j]
                        == moved.drop_last()[j] by {
                        let j0 = if j == i { order.len() - 1 } else { j };
                        assert(after.account_order[j] == order[j0]);
                        assert(order[j0] != id);
                    }
                }
                assert forall|a: int, b: int|
                    0 <= a < after.account_order.len() && 0 <= b < after.account_order.len() && a
                        != b implies after.account_order[a] != after.account_order[b] by {
                    let a0 = if a == i { order.len() - 1 } else { a };
                    let b0 = if b == i { order.len() - 1 } else { b };
                    assert(after.account_order[a] == order[a0]);
                    assert(after.account_order[b] == order[b0]);
                }
                assert forall|k: Seq<char>|
                    after.b_accounts.contains_key(k) <==> #[trigger] after.account_order.contains(
                        k,
                    ) by {
                    if after.account_order.contains(k) {
                        let j = after.account_order.index_of(k);
                        assert(0 <= j < after.account_order.len() && after.account_order[j] == k);
                        let j0 = if j == i { order.len() - 1 } else { j };
                        assert(order[j0] == k);
                        assert(order.contains(k));
                    }
                    if order.contains(k) && k != id {
                        let j0 = order.index_of(k);
                        assert(0 <= j0 < order.len() && order[j0] == k);
                        let j = if j0 == order.len() - 1 { i } else { j0 };
                        assert(after.account_order[j] == k);
                    }
                }
            } else {
                lemma_seq_sum_update(values, i, acc.shares_in(kind) as int);
                assert(after_values =~= values.update(i, acc.shares_in(kind) as int)) by {
                    assert forall|j: int| 0 <= j < after_values.len() implies after_values[j]
                        == values.update(i, acc.shares_in(kind) as int)[j] by {
                        if j != i {
                            assert(order[j] != id);
                        }
                    }
                }
            }
        } else {
            assert(!self.b_accounts.contains_key(id));
            if values.len() > 0 {
                lemma_seq_sum_bound(values, 0);
            }
            if acc.is_empty_spec() {
                assert(after.b_accounts =~= self.b_accounts);
                assert(after_values =~= values);
            } else {
                lemma_seq_sum_push(values, acc.shares_in(kind) as int);
                assert(after_values =~= values.push(acc.shares_in(kind) as int)) by {
                    assert forall|j: int| 0 <= j < after_values.len() implies after_values[j]
                        == values.push(acc.shares_in(kind) as int)[j] by {
                        if j < order.len() {
                            assert(order.contains(order[j]));
                        }
                    }
                }
                assert forall|k: Seq<char>|
                    after.b_accounts.contains_key(k) <==> #[trigger] after.account_order.contains(
                        k,
                    ) by {
                    if after.account_order.contains(k) {
                        let j = after.account_order.index_of(k);
                        assert(0 <= j < after.account_order.len() && after.account_order[j] == k);
                        if j < order.len() {
                            assert(order[j] == k);
                            assert(order.contains(k));
                        }
                    }
                    if order.contains(k) {
                        let j = order.index_of(k);
                        assert(after.account_order[j] == k);
                    }
                    if k == id {
                        assert(after.account_order[order.len() as int] == k);
                    }
                }
            }
        }
    }

    /// Rounding never makes a pool insolvent: what the shares of all accounts are worth,
    /// each rounded down, adds up to no more than the pool holds.
    pub proof fn lemma_pool_is_solvent(self, kind: PoolKind)
        requires
            self.balanced(),
            self.pool(kind).total_shares > 0,
        ensures
            0 <= seq_sum(
                amount_values(self.b_accounts, self.account_order, kind, self.pool(kind)),
            ) <= self.pool(kind).total_amount,
    {
        let pool = self.pool(kind);
        let shares = share_values(self.b_accounts, self.account_order, kind);
        let worth = amount_values(self.b_accounts, self.account_order, kind, pool);
        lemma_floors_add_up(shares, worth, pool.total_amount as int, pool.total_shares as int);
        assert(seq_sum(shares) == pool.total_shares) by {
            match kind {
                PoolKind::Free => {},
                PoolKind::Locked => {},
                PoolKind::Debt => {},
            }
        }
        let total = seq_sum(worth);
        let t = pool.total_amount as int;
        let n = pool.total_shares as int;
        assert(total <= t) by (nonlinear_arith)
            requires
                total * n <= n * t,
                n > 0,
        ;
    }

    /// No account holds more shares of a pool than the pool has.
    pub proof fn lemma_holds_at_most(self, id: Seq<char>)
        requires
            self.listed_once(),
            self.balanced(),
        ensures
            self.account(id).free_shares <= self.free_pool.total_shares,
            self.account(id).locked_collateral_shares <= self.locked_pool.total_shares,
            self.account(id).shares_usdnear_owed <= self.debt_pool.total_shares,
    {
        self.lemma_with_account(id, self.account(id), PoolKind::Free);
        self.lemma_with_account(id, self.account(id), PoolKind::Locked);
        self.lemma_with_account(id, self.account(id), PoolKind::Debt);
    }

    /// Where the pools of `moved` differ from those of `self` by exactly what the record
    /// `acc` differs from the record kept for `id`, storing `acc` balances the shares again.
    pub proof fn lemma_rebalanced(self, moved: State, id: Seq<char>, acc: BorrowingAccount)
        requires
            self.listed_once(),
            self.balanced(),
            moved.b_accounts == self.b_accounts,
            moved.account_order == self.account_order,
            moved.free_pool.total_shares == self.free_pool.total_shares - self.account(
                id,
            ).free_shares + acc.free_shares,
            moved.locked_pool.total_shares == self.locked_pool.total_shares - self.account(
                id,
            ).locked_collateral_shares + acc.locked_collateral_shares,
            moved.debt_pool.total_shares == self.debt_pool.total_shares - self.account(
                id,
            ).shares_usdnear_owed + acc.shares_usdnear_owed,
        ensures
            moved.with_account(id, acc).listed_once(),
            moved.with_account(id, acc).balanced(),
            moved.with_account(id, acc).account(id) == acc,
    {
        moved.lemma_with_account(id, acc, PoolKind::Free);
        moved.lemma_with_account(id, acc, PoolKind::Locked);
        moved.lemma_with_account(id, acc, PoolKind::Debt);
    }
}

} // verus!
