use vstd::prelude::*;

use crate::account::Account;
use crate::account::account_in;
use crate::account::ids_distinct;
use crate::account::total_account_shares;
use crate::account::zero_account;
use crate::errors::Error;

verus! {

/// Scaling constant for the canonical first share issuance: six decimal
/// digits of nominal precision.
pub const PRECISION: u128 = 1_000_000;

/// The whole ledger: aggregate pool reserves and shares, the fixed fee rate,
/// and the per-identity account entries.
pub struct Amm {
    pub total_shares: u128,
    pub token1_total: u128,
    pub token2_total: u128,
    pub fees: u128,
    pub accounts: Vec<Account>,
}

/// The check every debit runs first: a zero quantity is refused, then a
/// quantity above the available balance.
pub open spec fn spec_amount_check(balance: u128, qty: u128) -> Result<(), Error> {
    if qty == 0 {
        Err(Error::ZeroAmount)
    } else if qty > balance {
        Err(Error::InsufficientAmount)
    } else {
        Ok(())
    }
}

/// The quantity is positive and covered by the available balance.
pub open spec fn amount_ok(balance: u128, qty: u128) -> bool {
    0 < qty <= balance
}

impl Amm {
    /// Well-formedness: account identities are distinct and the outstanding
    /// shares are exactly the sum of all account share balances.
    pub open spec fn wf(self) -> bool {
        &&& ids_distinct(self.accounts@)
        &&& total_account_shares(self.accounts@) == self.total_shares
    }

    /// The pool is either fully empty or fully active: each reserve is zero
    /// exactly when no shares are outstanding.
    pub open spec fn balanced(self) -> bool {
        &&& self.token1_total == 0 <==> self.total_shares == 0
        &&& self.token2_total == 0 <==> self.total_shares == 0
    }

    /// The ledger entry of an identity, all-zero when never seen.
    pub open spec fn account_of(self, id: u64) -> Account {
        account_in(self.accounts@, id)
    }

    /// The pricing constant K: the product of the two reserves.
    pub open spec fn k(self) -> int {
        self.token1_total * self.token2_total
    }

    /// Shares a deposit of `amount1` of the first asset is worth: its
    /// floor-rounded fraction of the first reserve, scaled by the
    /// outstanding shares.
    pub open spec fn share1_of(self, amount1: u128) -> int {
        self.total_shares * amount1 / (self.token1_total as int)
    }

    /// Shares a deposit of `amount2` of the second asset is worth.
    pub open spec fn share2_of(self, amount2: u128) -> int {
        self.total_shares * amount2 / (self.token2_total as int)
    }

    /// Shares minted for a deposit: the canonical first issuance on an empty
    /// pool, regardless of the deposited amounts; otherwise the worth of the
    /// first-asset side (the second side must agree or the deposit is
    /// refused).
    pub open spec fn minted_for(self, amount1: u128) -> int {
        if self.total_shares == 0 {
            100 * PRECISION
        } else {
            self.share1_of(amount1)
        }
    }

    /// Every validation of `provide` passes for this caller and deposit.
    pub open spec fn provide_ok(self, caller: u64, amount1: u128, amount2: u128) -> bool {
        &&& amount_ok(self.account_of(caller).token1_balance, amount1)
        &&& amount_ok(self.account_of(caller).token2_balance, amount2)
        &&& (self.total_shares == 0 || (self.share1_of(amount1) == self.share2_of(amount2)
            && self.share1_of(amount1) > 0))
    }

    /// First-asset amount paid out for burning `share` shares: the
    /// floor-rounded proportional claim on the first reserve.
    pub open spec fn withdraw_amount1(self, share: u128) -> int {
        share * self.token1_total / (self.total_shares as int)
    }

    /// Second-asset amount paid out for burning `share` shares.
    pub open spec fn withdraw_amount2(self, share: u128) -> int {
        share * self.token2_total / (self.total_shares as int)
    }

    /// Fee charged on a swap input: the fee rate in parts per thousand,
    /// floor-rounded. The fee is debited from the caller but credited
    /// nowhere: this core discards it.
    pub open spec fn swap_fee(self, amount: u128) -> int {
        self.fees * amount / 1000
    }

    /// First reserve after swapping `amount1` of the first asset in: only
    /// the fee-reduced input moves the price.
    pub open spec fn swap1_new_reserve1(self, amount1: u128) -> int {
        self.token1_total + amount1 - self.swap_fee(amount1)
    }

    /// Second reserve after the swap: the pre-swap pricing constant divided
    /// by the new first reserve, floor-rounded.
    pub open spec fn swap1_new_reserve2(self, amount1: u128) -> int {
        self.k() / self.swap1_new_reserve1(amount1)
    }

    /// Second-asset amount paid out for swapping `amount1` in: the drop of
    /// the second reserve, so the caller realizes the post-swap rate.
    pub open spec fn swap1_output(self, amount1: u128) -> int {
        self.token2_total - self.swap1_new_reserve2(amount1)
    }

    /// Every validation of `swap_token1_to_token2` passes.
    pub open spec fn swap1_ok(self, caller: u64, amount1: u128, min2: u128) -> bool {
        &&& self.k() != 0
        &&& amount_ok(self.account_of(caller).token1_balance, amount1)
        &&& amount1 < self.token1_total
        &&& self.swap1_output(amount1) >= min2
    }

    /// Second reserve after swapping `amount2` of the second asset in.
    pub open spec fn swap2_new_reserve2(self, amount2: u128) -> int {
        self.token2_total + amount2 - self.swap_fee(amount2)
    }

    /// First reserve after the swap: the pre-swap pricing constant divided
    /// by the new second reserve, floor-rounded.
    pub open spec fn swap2_new_reserve1(self, amount2: u128) -> int {
        self.k() / self.swap2_new_reserve2(amount2)
    }

    /// First-asset amount paid out for swapping `amount2` in.
    pub open spec fn swap2_output(self, amount2: u128) -> int {
        self.token1_total - self.swap2_new_reserve1(amount2)
    }

    /// Every validation of `swap_token2_to_token1` passes.
    pub open spec fn swap2_ok(self, caller: u64, amount2: u128, min1: u128) -> bool {
        &&& self.k() != 0
        &&& amount_ok(self.account_of(caller).token2_balance, amount2)
        &&& amount2 < self.token2_total
        &&& self.swap2_output(amount2) >= min1
    }

    /// Constructs an empty pool with the given fee rate, fixed for the
    /// pool's lifetime. The documented fee range is 0 to 1000 parts per
    /// thousand, but no validation is performed here.
    pub fn new(fees: u128) -> (r: Amm)
        ensures
            r.wf(),
            r.balanced(),
            r.total_shares == 0,
            r.token1_total == 0,
            r.token2_total == 0,
            r.fees == fees,
            forall|id: u64| #[trigger] r.account_of(id) == zero_account(id),
    {
        let r = Amm {
            total_shares: 0,
            token1_total: 0,
            token2_total: 0,
            fees,
            accounts: Vec::new(),
        };
        proof {
            assert forall|id: u64| #[trigger] r.account_of(id) == zero_account(id) by {
                crate::account::lemma_account_in_absent(r.accounts@, id);
            }
        }
        r
    }

    /// The index of the entry for `id`, or `None` when `id` has no entry.
    fn find_account(&self, id: u64) -> (r: Option<usize>)
        ensures
            match r {
                Some(i) => i < self.accounts@.len() && self.accounts@[i as int].id == id,
                None => forall|k: int| 0 <= k < self.accounts@.len() ==> self.accounts@[k].id != id,
            },
    {
        let n = self.accounts.len();
        let mut i: usize = 0;
        while i < n
            invariant
                i <= n,
                n == self.accounts@.len(),
                forall|k: int| 0 <= k < i ==> self.accounts@[k].id != id,
            decreases n - i,
        {
            if self.accounts[i].id == id {
                return Some(i);
            }
            i = i + 1;
        }
        None
    }

    /// A copy of the ledger entry of `id`, all-zero when `id` is unseen.
    fn get_account(&self, id: u64) -> (r: Account)
        requires
            ids_distinct(self.accounts@),
        ensures
            r == self.account_of(id),
            r.id == id,
    {
        match self.find_account(id) {
            Some(i) => {
                proof {
                    crate::account::lemma_account_in_index(self.accounts@, i as int);
                }
                self.accounts[i]
            },
            None => {
                proof {
                    crate::account::lemma_account_in_absent(self.accounts@, id);
                }
                Account { id, token1_balance: 0, token2_balance: 0, shares: 0 }
            },
        }
    }

    /// Installs `a` as the ledger entry of its identity, replacing the old
    /// entry or appending a fresh one. Only that identity's entry changes.
    fn put_account(&mut self, a: Account)
        requires
            ids_distinct(old(self).accounts@),
        ensures
            ids_distinct(final(self).accounts@),
            final(self).account_of(a.id) == a,
            forall|id: u64| id != a.id ==> #[trigger] final(self).account_of(id) == old(self).account_of(id),
            total_account_shares(final(self).accounts@) == total_account_shares(
                old(self).accounts@,
            ) - old(self).account_of(a.id).shares + a.shares,
            final(self).total_shares == old(self).total_shares,
            final(self).token1_total == old(self).token1_total,
            final(self).token2_total == old(self).token2_total,
            final(self).fees == old(self).fees,
    {
        let ghost s0 = self.accounts@;
        match self.find_account(a.id) {
            Some(i) => {
                self.accounts.set(i, a);
                proof {
                    crate::account::lemma_account_in_index(s0, i as int);
                    crate::account::lemma_total_shares_update(s0, i as int, a);
                    assert forall|id: u64| #[trigger] account_in(self.accounts@, id) == (if id
                        == a.id {
                        a
                    } else {
                        account_in(s0, id)
                    }) by {
                        crate::account::lemma_account_in_update(s0, i as int, a, id);
                    }
                    assert forall|p: int, q: int|
                        0 <= p < q < self.accounts@.len() implies self.accounts@[p].id
                        != self.accounts@[q].id by {
                        assert(self.accounts@[p].id == s0[p].id);
                        assert(self.accounts@[q].id == s0[q].id);
                    }
                }
            },
            None => {
                self.accounts.push(a);
                proof {
                    crate::account::lemma_account_in_absent(s0, a.id);
                    crate::account::lemma_total_shares_push(s0, a);
                    assert forall|id: u64| #[trigger] account_in(self.accounts@, id) == (if id
                        == a.id {
                        a
                    } else {
                        account_in(s0, id)
                    }) by {
                        crate::account::lemma_account_in_push(s0, a, id);
                    }
                    assert forall|p: int, q: int|
                        0 <= p < q < self.accounts@.len() implies self.accounts@[p].id
                        != self.accounts@[q].id by {
                        if q < s0.len() {
                        } else {
                            assert(self.accounts@[q] == a);
                            assert(s0[p].id != a.id);
                        }
                    }
                }
            },
        }
    }

    /// Current pool aggregates: both reserves, the outstanding shares and the
    /// fee rate. Reads only.
    pub fn get_pool_details(&self) -> (r: (u128, u128, u128, u128))
        ensures
            r == (self.token1_total, self.token2_total, self.total_shares, self.fees),
    {
        (self.token1_total, self.token2_total, self.total_shares, self.fees)
    }

    /// The caller's free balances and share balance. Unseen identities read
    /// as all-zero; no error, reads only.
    pub fn get_my_holdings(&self, caller: u64) -> (r: (u128, u128, u128))
        requires
            self.wf(),
        ensures
            r == (
                self.account_of(caller).token1_balance,
                self.account_of(caller).token2_balance,
                self.account_of(caller).shares,
            ),
    {
        let a = self.get_account(caller);
        (a.token1_balance, a.token2_balance, a.shares)
    }

    /// Credits the caller's free balances unconditionally: the bootstrap
    /// funding entry point, not part of the economic core.
    pub fn faucet(&mut self, caller: u64, token1_amount: u128, token2_amount: u128)
        requires
            old(self).wf(),
            old(self).account_of(caller).token1_balance + token1_amount <= u128::MAX,
            old(self).account_of(caller).token2_balance + token2_amount <= u128::MAX,
        ensures
            final(self).wf(),
            final(self).account_of(caller) == (Account {
                id: caller,
                token1_balance: (old(self).account_of(caller).token1_balance
                    + token1_amount) as u128,
                token2_balance: (old(self).account_of(caller).token2_balance
                    + token2_amount) as u128,
                shares: old(self).account_of(caller).shares,
            }),
            forall|id: u64| id != caller ==> #[trigger] final(self).account_of(id) == old(
                self,
            ).account_of(id),
            final(self).total_shares == old(self).total_shares,
            final(self).token1_total == old(self).token1_total,
            final(self).token2_total == old(self).token2_total,
            final(self).fees == old(self).fees,
    {
        let a = self.get_account(caller);
        let updated = Account {
            id: caller,
            token1_balance: a.token1_balance + token1_amount,
            token2_balance: a.token2_balance + token2_amount,
            shares: a.shares,
        };
        self.put_account(updated);
    }

    /// The pricing constant K: the product of the two reserves.
    pub fn get_k(&self) -> (r: u128)
        requires
            self.k() <= u128::MAX,
        ensures
            r == self.k(),
    {
        self.token1_total * self.token2_total
    }

    /// Succeeds exactly when the pool is active, that is when the product of
    /// the reserves is nonzero.
    pub fn active_pool(&self) -> (r: Result<(), Error>)
        requires
            self.k() <= u128::MAX,
        ensures
            r == Ok::<(), Error>(()) <==> self.k() != 0,
            r == Err::<(), Error>(Error::ZeroLiquidity) <==> self.k() == 0,
    {
        let k = self.get_k();
        if k == 0 {
            Err(Error::ZeroLiquidity)
        } else {
            Ok(())
        }
    }

    /// Moves a deposit of both assets from the caller's free balances into
    /// the reserves and mints proportional pool shares. The first provision
    /// on an empty pool sets the exchange rate and mints the canonical share
    /// count; later deposits must match the pool's ratio exactly under floor
    /// division.
    pub fn provide(&mut self, caller: u64, token1_amount: u128, token2_amount: u128) -> (r:
        Result<u128, Error>)
        requires
            old(self).wf(),
            old(self).total_shares != 0 ==> old(self).token1_total > 0 && old(
                self,
            ).token2_total > 0,
            amount_ok(old(self).account_of(caller).token1_balance, token1_amount) && amount_ok(
                old(self).account_of(caller).token2_balance,
                token2_amount,
            ) && old(self).total_shares != 0 ==> old(self).total_shares * token1_amount
                <= u128::MAX && old(self).total_shares * token2_amount <= u128::MAX,
            old(self).provide_ok(caller, token1_amount, token2_amount) ==> old(self).token1_total
                + token1_amount <= u128::MAX && old(self).token2_total + token2_amount
                <= u128::MAX && old(self).total_shares + old(self).minted_for(token1_amount)
                <= u128::MAX,
        ensures
            final(self).wf(),
            r.is_err() ==> *final(self) == *old(self),
            r == Err::<u128, Error>(Error::ZeroAmount) <==> token1_amount == 0 || (amount_ok(
                old(self).account_of(caller).token1_balance,
                token1_amount,
            ) && token2_amount == 0),
            r == Err::<u128, Error>(Error::InsufficientAmount) <==> (token1_amount > 0
                && token1_amount > old(self).account_of(caller).token1_balance) || (amount_ok(
                old(self).account_of(caller).token1_balance,
                token1_amount,
            ) && token2_amount > 0 && token2_amount > old(self).account_of(
                caller,
            ).token2_balance),
            r == Err::<u128, Error>(Error::NonEquivalentValue) <==> amount_ok(
                old(self).account_of(caller).token1_balance,
                token1_amount,
            ) && amount_ok(old(self).account_of(caller).token2_balance, token2_amount) && old(
                self,
            ).total_shares != 0 && old(self).share1_of(token1_amount) != old(self).share2_of(
                token2_amount,
            ),
            r == Err::<u128, Error>(Error::ThresholdNotReached) <==> amount_ok(
                old(self).account_of(caller).token1_balance,
                token1_amount,
            ) && amount_ok(old(self).account_of(caller).token2_balance, token2_amount) && old(
                self,
            ).total_shares != 0 && old(self).share1_of(token1_amount) == old(self).share2_of(
                token2_amount,
            ) && old(self).share1_of(token1_amount) == 0,
            r.is_ok() <==> old(self).provide_ok(caller, token1_amount, token2_amount),
            r.is_ok() ==> r == Ok::<u128, Error>((old(self).minted_for(token1_amount)) as u128),
            r.is_ok() ==> final(self).token1_total == old(self).token1_total + token1_amount,
            r.is_ok() ==> final(self).token2_total == old(self).token2_total + token2_amount,
            r.is_ok() ==> final(self).total_shares == old(self).total_shares + old(
                self,
            ).minted_for(token1_amount),
            r.is_ok() ==> final(self).account_of(caller) == (Account {
                id: caller,
                token1_balance: (old(self).account_of(caller).token1_balance
                    - token1_amount) as u128,
                token2_balance: (old(self).account_of(caller).token2_balance
                    - token2_amount) as u128,
                shares: (old(self).account_of(caller).shares + old(self).minted_for(
                    token1_amount,
                )) as u128,
            }),
            forall|id: u64| id != caller ==> #[trigger] final(self).account_of(id) == old(
                self,
            ).account_of(id),
            final(self).fees == old(self).fees,
            old(self).balanced() && r.is_ok() ==> final(self).balanced(),
    {
        let a = self.get_account(caller);
        match valid_amount_check(a.token1_balance, token1_amount) {
            Ok(()) => (),
            Err(e) => {
                return Err(e);
            },
        }
        match valid_amount_check(a.token2_balance, token2_amount) {
            Ok(()) => (),
            Err(e) => {
                return Err(e);
            },
        }
        let share: u128;
        if self.total_shares == 0 {
            share = 100 * PRECISION;
        } else {
            let share1 = self.total_shares * token1_amount / self.token1_total;
            let share2 = self.total_shares * token2_amount / self.token2_total;
            if share1 != share2 {
                return Err(Error::NonEquivalentValue);
            }
            share = share1;
        }
        if share == 0 {
            return Err(Error::ThresholdNotReached);
        }
        proof {
            crate::account::lemma_account_shares_le_total(self.accounts@, caller);
        }
        let updated = Account {
            id: caller,
            token1_balance: a.token1_balance - token1_amount,
            token2_balance: a.token2_balance - token2_amount,
            shares: a.shares + share,
        };
        self.token1_total = self.token1_total + token1_amount;
        self.token2_total = self.token2_total + token2_amount;
        self.total_shares = self.total_shares + share;
        self.put_account(updated);
        Ok(share)
    }

    /// The amounts a withdrawal of `share` shares would pay out right now:
    /// the floor-rounded proportional claim on each reserve. Reads only.
    pub fn get_withdraw_estimate(&self, share: u128) -> (r: Result<(u128, u128), Error>)
        requires
            self.k() <= u128::MAX,
            self.k() != 0 ==> self.total_shares > 0,
            self.k() != 0 && share <= self.total_shares ==> share * self.token1_total
                <= u128::MAX && share * self.token2_total <= u128::MAX,
        ensures
            r == Err::<(u128, u128), Error>(Error::ZeroLiquidity) <==> self.k() == 0,
            r == Err::<(u128, u128), Error>(Error::InvalidShare) <==> self.k() != 0 && share
                > self.total_shares,
            r.is_ok() <==> self.k() != 0 && share <= self.total_shares,
            r.is_ok() ==> r == Ok::<(u128, u128), Error>(
                ((self.withdraw_amount1(share)) as u128, (self.withdraw_amount2(share)) as u128),
            ),
    {
        match self.active_pool() {
            Ok(()) => (),
            Err(e) => {
                return Err(e);
            },
        }
        if share > self.total_shares {
            return Err(Error::InvalidShare);
        }
        let token1_amount = share * self.token1_total / self.total_shares;
        let token2_amount = share * self.token2_total / self.total_shares;
        Ok((token1_amount, token2_amount))
    }

    /// Burns `share` of the caller's pool shares and pays the proportional
    /// claim on both reserves back into the caller's free balances.
    pub fn withdraw(&mut self, caller: u64, share: u128) -> (r: Result<(u128, u128), Error>)
        requires
            old(self).wf(),
            old(self).k() <= u128::MAX,
            amount_ok(old(self).account_of(caller).shares, share) && old(self).k() != 0 ==> share
                * old(self).token1_total <= u128::MAX && share * old(self).token2_total
                <= u128::MAX && old(self).account_of(caller).token1_balance + old(
                self,
            ).withdraw_amount1(share) <= u128::MAX && old(self).account_of(caller).token2_balance
                + old(self).withdraw_amount2(share) <= u128::MAX,
        ensures
            final(self).wf(),
            r.is_err() ==> *final(self) == *old(self),
            r == Err::<(u128, u128), Error>(Error::ZeroAmount) <==> share == 0,
            r == Err::<(u128, u128), Error>(Error::InsufficientAmount) <==> share > 0 && share
                > old(self).account_of(caller).shares,
            r == Err::<(u128, u128), Error>(Error::ZeroLiquidity) <==> amount_ok(
                old(self).account_of(caller).shares,
                share,
            ) && old(self).k() == 0,
            r == Err::<(u128, u128), Error>(Error::InvalidShare) <==> amount_ok(
                old(self).account_of(caller).shares,
                share,
            ) && old(self).k() != 0 && share > old(self).total_shares,
            r.is_ok() <==> amount_ok(old(self).account_of(caller).shares, share) && old(self).k()
                != 0 && share <= old(self).total_shares,
            r.is_ok() ==> r == Ok::<(u128, u128), Error>(
                (
                    (old(self).withdraw_amount1(share)) as u128,
                    (old(self).withdraw_amount2(share)) as u128,
                ),
            ),
            r.is_ok() ==> final(self).total_shares == old(self).total_shares - share,
            r.is_ok() ==> final(self).token1_total == old(self).token1_total - old(
                self,
            ).withdraw_amount1(share),
            r.is_ok() ==> final(self).token2_total == old(self).token2_total - old(
                self,
            ).withdraw_amount2(share),
            r.is_ok() ==> final(self).account_of(caller) == (Account {
                id: caller,
                token1_balance: (old(self).account_of(caller).token1_balance + old(
                    self,
                ).withdraw_amount1(share)) as u128,
                token2_balance: (old(self).account_of(caller).token2_balance + old(
                    self,
                ).withdraw_amount2(share)) as u128,
                shares: (old(self).account_of(caller).shares - share) as u128,
            }),
            forall|id: u64| id != caller ==> #[trigger] final(self).account_of(id) == old(
                self,
            ).account_of(id),
            final(self).fees == old(self).fees,
            old(self).balanced() && r.is_ok() ==> final(self).balanced(),
    {
        let a = self.get_account(caller);
        match valid_amount_check(a.shares, share) {
            Ok(()) => (),
            Err(e) => {
                return Err(e);
            },
        }
        proof {
            crate::account::lemma_account_shares_le_total(self.accounts@, caller);
        }
        let amounts = match self.get_withdraw_estimate(share) {
            Ok(t) => t,
            Err(e) => {
                return Err(e);
            },
        };
        let (token1_amount, token2_amount) = amounts;
        proof {
            let ts = self.total_shares as int;
            let r1 = self.token1_total as int;
            let r2 = self.token2_total as int;
            let sh = share as int;
            vstd::arithmetic::mul::lemma_mul_inequality(sh, ts, r1);
            vstd::arithmetic::div_mod::lemma_multiply_divide_le(sh * r1, ts, r1);
            vstd::arithmetic::mul::lemma_mul_inequality(sh, ts, r2);
            vstd::arithmetic::div_mod::lemma_multiply_divide_le(sh * r2, ts, r2);
            if self.balanced() {
                if sh < ts {
                    vstd::arithmetic::mul::lemma_mul_strict_inequality(sh, ts, r1);
                    vstd::arithmetic::div_mod::lemma_multiply_divide_lt(sh * r1, ts, r1);
                    vstd::arithmetic::mul::lemma_mul_strict_inequality(sh, ts, r2);
                    vstd::arithmetic::div_mod::lemma_multiply_divide_lt(sh * r2, ts, r2);
                } else {
                    vstd::arithmetic::div_mod::lemma_div_multiples_vanish(r1, ts);
                    vstd::arithmetic::div_mod::lemma_div_multiples_vanish(r2, ts);
                }
            }
        }
        let updated = Account {
            id: caller,
            token1_balance: a.token1_balance + token1_amount,
            token2_balance: a.token2_balance + token2_amount,
            shares: a.shares - share,
        };
        self.total_shares = self.total_shares - share;
        self.token1_total = self.token1_total - token1_amount;
        self.token2_total = self.token2_total - token2_amount;
        self.put_account(updated);
        Ok((token1_amount, token2_amount))
    }

    /// Swaps a first-asset input against the pool for the second asset,
    /// charging the fee on the input and pricing the output against the
    /// constant product at the post-swap rate. The fee is debited from the
    /// caller but not added to the reserves.
    pub fn swap_token1_to_token2(&mut self, caller: u64, token1_amount: u128, token2_min: u128)
        -> (r: Result<u128, Error>)
        requires
            old(self).wf(),
            old(self).k() <= u128::MAX,
            old(self).k() != 0 && amount_ok(
                old(self).account_of(caller).token1_balance,
                token1_amount,
            ) && token1_amount < old(self).token1_total ==> old(self).fees * token1_amount
                <= u128::MAX && old(self).swap_fee(token1_amount) <= token1_amount && old(
                self,
            ).swap1_new_reserve1(token1_amount) <= u128::MAX,
            old(self).swap1_ok(caller, token1_amount, token2_min) ==> old(self).account_of(
                caller,
            ).token2_balance + old(self).swap1_output(token1_amount) <= u128::MAX,
        ensures
            final(self).wf(),
            r.is_err() ==> *final(self) == *old(self),
            r == Err::<u128, Error>(Error::ZeroLiquidity) <==> old(self).k() == 0,
            r == Err::<u128, Error>(Error::ZeroAmount) <==> old(self).k() != 0 && token1_amount
                == 0,
            r == Err::<u128, Error>(Error::InsufficientAmount) <==> old(self).k() != 0
                && token1_amount > 0 && token1_amount > old(self).account_of(
                caller,
            ).token1_balance,
            r == Err::<u128, Error>(Error::InsufficientLiquidity) <==> old(self).k() != 0
                && amount_ok(old(self).account_of(caller).token1_balance, token1_amount)
                && token1_amount >= old(self).token1_total,
            r == Err::<u128, Error>(Error::SlippageExceeded) <==> old(self).k() != 0 && amount_ok(
                old(self).account_of(caller).token1_balance,
                token1_amount,
            ) && token1_amount < old(self).token1_total && old(self).swap1_output(token1_amount)
                < token2_min,
            r.is_ok() <==> old(self).swap1_ok(caller, token1_amount, token2_min),
            r.is_ok() ==> r == Ok::<u128, Error>((old(self).swap1_output(token1_amount)) as u128),
            r.is_ok() ==> final(self).token1_total == old(self).swap1_new_reserve1(token1_amount),
            r.is_ok() ==> final(self).token2_total == old(self).swap1_new_reserve2(token1_amount),
            final(self).total_shares == old(self).total_shares,
            final(self).fees == old(self).fees,
            r.is_ok() ==> final(self).account_of(caller) == (Account {
                id: caller,
                token1_balance: (old(self).account_of(caller).token1_balance
                    - token1_amount) as u128,
                token2_balance: (old(self).account_of(caller).token2_balance + old(
                    self,
                ).swap1_output(token1_amount)) as u128,
                shares: old(self).account_of(caller).shares,
            }),
            forall|id: u64| id != caller ==> #[trigger] final(self).account_of(id) == old(
                self,
            ).account_of(id),
            r.is_ok() ==> final(self).token1_total * final(self).token2_total <= old(self).k(),
            r.is_ok() ==> old(self).k() - final(self).token1_total * final(self).token2_total
                < final(self).token1_total,
            old(self).balanced() && r.is_ok() && old(self).swap1_output(token1_amount) < old(
                self,
            ).token2_total ==> final(self).balanced(),
    {
        match self.active_pool() {
            Ok(()) => (),
            Err(e) => {
                return Err(e);
            },
        }
        let a = self.get_account(caller);
        match valid_amount_check(a.token1_balance, token1_amount) {
            Ok(()) => (),
            Err(e) => {
                return Err(e);
            },
        }
        if token1_amount >= self.token1_total {
            return Err(Error::InsufficientLiquidity);
        }
        let fee = self.fees * token1_amount / 1000;
        let token1_w_fee = token1_amount - fee;
        let total_token1_after = self.token1_total + token1_w_fee;
        let k = self.get_k();
        let total_token2_after = k / total_token1_after;
        proof {
            let ki = self.k();
            let r1 = self.token1_total as int;
            let r2 = self.token2_total as int;
            let n1 = total_token1_after as int;
            vstd::arithmetic::mul::lemma_mul_inequality(r1, n1, r2);
            vstd::arithmetic::div_mod::lemma_multiply_divide_le(ki, n1, r2);
            vstd::arithmetic::div_mod::lemma_fundamental_div_mod(ki, n1);
            vstd::arithmetic::div_mod::lemma_mod_division_less_than_divisor(ki, n1);
        }
        let token2_withdraw = self.token2_total - total_token2_after;
        if token2_withdraw < token2_min {
            return Err(Error::SlippageExceeded);
        }
        self.token1_total = total_token1_after;
        self.token2_total = total_token2_after;
        let updated = Account {
            id: caller,
            token1_balance: a.token1_balance - token1_amount,
            token2_balance: a.token2_balance + token2_withdraw,
            shares: a.shares,
        };
        self.put_account(updated);
        Ok(token2_withdraw)
    }

    /// The mirror image of `swap_token1_to_token2`, swapping the asset
    /// roles: a second-asset input is exchanged for the first asset.
    pub fn swap_token2_to_token1(&mut self, caller: u64, token2_amount: u128, token1_min: u128)
        -> (r: Result<u128, Error>)
        requires
            old(self).wf(),
            old(self).k() <= u128::MAX,
            old(self).k() != 0 && amount_ok(
                old(self).account_of(caller).token2_balance,
                token2_amount,
            ) && token2_amount < old(self).token2_total ==> old(self).fees * token2_amount
                <= u128::MAX && old(self).swap_fee(token2_amount) <= token2_amount && old(
                self,
            ).swap2_new_reserve2(token2_amount) <= u128::MAX,
            old(self).swap2_ok(caller, token2_amount, token1_min) ==> old(self).account_of(
                caller,
            ).token1_balance + old(self).swap2_output(token2_amount) <= u128::MAX,
        ensures
            final(self).wf(),
            r.is_err() ==> *final(self) == *old(self),
            r == Err::<u128, Error>(Error::ZeroLiquidity) <==> old(self).k() == 0,
            r == Err::<u128, Error>(Error::ZeroAmount) <==> old(self).k() != 0 && token2_amount
                == 0,
            r == Err::<u128, Error>(Error::InsufficientAmount) <==> old(self).k() != 0
                && token2_amount > 0 && token2_amount > old(self).account_of(
                caller,
            ).token2_balance,
            r == Err::<u128, Error>(Error::InsufficientLiquidity) <==> old(self).k() != 0
                && amount_ok(old(self).account_of(caller).token2_balance, token2_amount)
                && token2_amount >= old(self).token2_total,
            r == Err::<u128, Error>(Error::SlippageExceeded) <==> old(self).k() != 0 && amount_ok(
                old(self).account_of(caller).token2_balance,
                token2_amount,
            ) && token2_amount < old(self).token2_total && old(self).swap2_output(token2_amount)
                < token1_min,
            r.is_ok() <==> old(self).swap2_ok(caller, token2_amount, token1_min),
            r.is_ok() ==> r == Ok::<u128, Error>((old(self).swap2_output(token2_amount)) as u128),
            r.is_ok() ==> final(self).token2_total == old(self).swap2_new_reserve2(token2_amount),
            r.is_ok() ==> final(self).token1_total == old(self).swap2_new_reserve1(token2_amount),
            final(self).total_shares == old(self).total_shares,
            final(self).fees == old(self).fees,
            r.is_ok() ==> final(self).account_of(caller) == (Account {
                id: caller,
                token1_balance: (old(self).account_of(caller).token1_balance + old(
                    self,
                ).swap2_output(token2_amount)) as u128,
                token2_balance: (old(self).account_of(caller).token2_balance
                    - token2_amount) as u128,
                shares: old(self).account_of(caller).shares,
            }),
            forall|id: u64| id != caller ==> #[trigger] final(self).account_of(id) == old(
                self,
            ).account_of(id),
            r.is_ok() ==> final(self).token1_total * final(self).token2_total <= old(self).k(),
            r.is_ok() ==> old(self).k() - final(self).token1_total * final(self).token2_total
                < final(self).token2_total,
            old(self).balanced() && r.is_ok() && old(self).swap2_output(token2_amount) < old(
                self,
            ).token1_total ==> final(self).balanced(),
    {
        match self.active_pool() {
            Ok(()) => (),
            Err(e) => {
                return Err(e);
            },
        }
        let a = self.get_account(caller);
        match valid_amount_check(a.token2_balance, token2_amount) {
            Ok(()) => (),
            Err(e) => {
                return Err(e);
            },
        }
        if token2_amount >= self.token2_total {
            return Err(Error::InsufficientLiquidity);
        }
        let fee = self.fees * token2_amount / 1000;
        let token2_w_fee = token2_amount - fee;
        let total_token2_after = self.token2_total + token2_w_fee;
        let k = self.get_k();
        let total_token1_after = k / total_token2_after;
        proof {
            let ki = self.k();
            let r1 = self.token1_total as int;
            let r2 = self.token2_total as int;
            let n2 = total_token2_after as int;
            vstd::arithmetic::mul::lemma_mul_inequality(r2, n2, r1);
            assert(r2 * r1 == ki) by {
                vstd::arithmetic::mul::lemma_mul_is_commutative(r1, r2);
            }
            vstd::arithmetic::div_mod::lemma_multiply_divide_le(ki, n2, r1);
            vstd::arithmetic::div_mod::lemma_fundamental_div_mod(ki, n2);
            vstd::arithmetic::div_mod::lemma_mod_division_less_than_divisor(ki, n2);
        }
        let token1_withdraw = self.token1_total - total_token1_after;
        if token1_withdraw < token1_min {
            return Err(Error::SlippageExceeded);
        }
        self.token1_total = total_token1_after;
        self.token2_total = total_token2_after;
        let updated = Account {
            id: caller,
            token1_balance: a.token1_balance + token1_withdraw,
            token2_balance: a.token2_balance - token2_amount,
            shares: a.shares,
        };
        self.put_account(updated);
        Ok(token1_withdraw)
    }
}

impl Default for Amm {
    /// An empty pool with a zero fee rate.
    fn default() -> (r: Amm)
        ensures
            r.wf(),
            r.balanced(),
            r.total_shares == 0,
            r.token1_total == 0,
            r.token2_total == 0,
            r.fees == 0,
            forall|id: u64| #[trigger] r.account_of(id) == zero_account(id),
    {
        Amm::new(0)
    }
}

/// The shared precondition of every debit: refuses a zero quantity, then a
/// quantity above the available balance, and otherwise changes nothing.
fn valid_amount_check(balance: u128, qty: u128) -> (r: Result<(), Error>)
    ensures
        r == spec_amount_check(balance, qty),
        r == Ok::<(), Error>(()) <==> amount_ok(balance, qty),
{
    if qty == 0 {
        Err(Error::ZeroAmount)
    } else if qty > balance {
        Err(Error::InsufficientAmount)
    } else {
        Ok(())
    }
}

} // verus!
