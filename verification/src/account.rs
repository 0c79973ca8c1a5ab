use vstd::prelude::*;

verus! {

/// One participant's ledger entry: free balances of the two assets and the
/// pool shares held, keyed by an opaque caller identity.
#[derive(Clone, Copy)]
pub struct Account {
    pub id: u64,
    pub token1_balance: u128,
    pub token2_balance: u128,
    pub shares: u128,
}

/// The entry an identity holds before it is ever funded: all balances zero.
pub open spec fn zero_account(id: u64) -> Account {
    Account { id, token1_balance: 0, token2_balance: 0, shares: 0 }
}

/// The entry for `id` in `s`, defaulting to the all-zero entry when `id` has
/// never been seen: unfunded accounts exist implicitly.
pub open spec fn account_in(s: Seq<Account>, id: u64) -> Account
    decreases s.len(),
{
    if s.len() == 0 {
        zero_account(id)
    } else if s[0].id == id {
        s[0]
    } else {
        account_in(s.drop_first(), id)
    }
}

/// No two entries share an identity.
pub open spec fn ids_distinct(s: Seq<Account>) -> bool {
    forall|i: int, j: int| 0 <= i < j < s.len() ==> s[i].id != s[j].id
}

/// The sum of the share balances over all entries.
pub open spec fn total_account_shares(s: Seq<Account>) -> int
    decreases s.len(),
{
    if s.len() == 0 {
        0
    } else {
        s[0].shares + total_account_shares(s.drop_first())
    }
}

pub proof fn lemma_total_shares_nonneg(s: Seq<Account>)
    ensures
        total_account_shares(s) >= 0,
    decreases s.len(),
{
    if s.len() > 0 {
        lemma_total_shares_nonneg(s.drop_first());
    }
}

/// An entry found at an index is the entry `account_in` selects for its id.
pub proof fn lemma_account_in_index(s: Seq<Account>, i: int)
    requires
        ids_distinct(s),
        0 <= i < s.len(),
    ensures
        account_in(s, s[i].id) == s[i],
    decreases s.len(),
{
    if i > 0 {
        assert(s[0].id != s[i].id);
        assert(ids_distinct(s.drop_first()));
        lemma_account_in_index(s.drop_first(), i - 1);
        assert(s.drop_first()[i - 1] == s[i]);
    }
}

/// An identity that appears at no index holds the all-zero entry.
pub proof fn lemma_account_in_absent(s: Seq<Account>, id: u64)
    requires
        forall|k: int| 0 <= k < s.len() ==> s[k].id != id,
    ensures
        account_in(s, id) == zero_account(id),
    decreases s.len(),
{
    if s.len() > 0 {
        lemma_account_in_absent(s.drop_first(), id);
    }
}

/// Replacing the entry at one index, keeping its identity, changes only that
/// identity's entry.
pub proof fn lemma_account_in_update(s: Seq<Account>, i: int, a: Account, id: u64)
    requires
        ids_distinct(s),
        0 <= i < s.len(),
        a.id == s[i].id,
    ensures
        account_in(s.update(i, a), id) == (if id == a.id {
            a
        } else {
            account_in(s, id)
        }),
    decreases s.len(),
{
    let t = s.update(i, a);
    if i == 0 {
        if id != a.id {
            assert(t.drop_first() =~= s.drop_first());
        }
    } else {
        assert(t[0] == s[0]);
        assert(s[0].id != s[i].id);
        if id == s[0].id {
        } else {
            assert(ids_distinct(s.drop_first()));
            assert(t.drop_first() =~= s.drop_first().update(i - 1, a));
            assert(s.drop_first()[i - 1] == s[i]);
            lemma_account_in_update(s.drop_first(), i - 1, a, id);
        }
    }
}

/// Replacing the entry at one index changes the share sum by the difference
/// of the share balances.
pub proof fn lemma_total_shares_update(s: Seq<Account>, i: int, a: Account)
    requires
        0 <= i < s.len(),
    ensures
        total_account_shares(s.update(i, a)) == total_account_shares(s) - s[i].shares + a.shares,
    decreases s.len(),
{
    let t = s.update(i, a);
    if i == 0 {
        assert(t.drop_first() =~= s.drop_first());
    } else {
        assert(t[0] == s[0]);
        assert(t.drop_first() =~= s.drop_first().update(i - 1, a));
        lemma_total_shares_update(s.drop_first(), i - 1, a);
    }
}

/// Appending an entry with an unseen identity creates that identity's entry
/// and leaves every other entry and the distinctness of identities intact.
pub proof fn lemma_account_in_push(s: Seq<Account>, a: Account, id: u64)
    requires
        forall|k: int| 0 <= k < s.len() ==> s[k].id != a.id,
    ensures
        account_in(s.push(a), id) == (if id == a.id {
            a
        } else {
            account_in(s, id)
        }),
    decreases s.len(),
{
    let t = s.push(a);
    assert(t.len() == s.len() + 1);
    if s.len() == 0 {
        assert(t[0] == a);
        if id == a.id {
            assert(account_in(t, id) == a);
        } else {
            assert(t.drop_first() =~= Seq::<Account>::empty());
            assert(account_in(t, id) == account_in(t.drop_first(), id));
            assert(account_in(t.drop_first(), id) == zero_account(id));
            assert(account_in(s, id) == zero_account(id));
        }
    } else {
        assert(t[0] == s[0]);
        assert(s[0].id != a.id);
        if id == s[0].id {
            assert(account_in(t, id) == t[0]);
            assert(account_in(s, id) == s[0]);
        } else {
            assert(t.drop_first() =~= s.drop_first().push(a));
            lemma_account_in_push(s.drop_first(), a, id);
            assert(account_in(t, id) == account_in(t.drop_first(), id));
            assert(account_in(s, id) == account_in(s.drop_first(), id));
        }
    }
}

pub proof fn lemma_total_shares_push(s: Seq<Account>, a: Account)
    ensures
        total_account_shares(s.push(a)) == total_account_shares(s) + a.shares,
    decreases s.len(),
{
    let t = s.push(a);
    assert(t.len() == s.len() + 1);
    if s.len() == 0 {
        assert(t[0] == a);
        assert(t.drop_first() =~= Seq::<Account>::empty());
        assert(total_account_shares(t) == t[0].shares + total_account_shares(t.drop_first()));
        assert(total_account_shares(t.drop_first()) == 0);
    } else {
        assert(t[0] == s[0]);
        assert(t.drop_first() =~= s.drop_first().push(a));
        lemma_total_shares_push(s.drop_first(), a);
        assert(total_account_shares(t) == t[0].shares + total_account_shares(t.drop_first()));
        assert(total_account_shares(s) == s[0].shares + total_account_shares(s.drop_first()));
    }
}

/// No single entry holds more shares than the sum over all entries.
pub proof fn lemma_account_shares_le_total(s: Seq<Account>, id: u64)
    ensures
        account_in(s, id).shares <= total_account_shares(s),
    decreases s.len(),
{
    if s.len() > 0 {
        lemma_total_shares_nonneg(s.drop_first());
        if s[0].id == id {
        } else {
            lemma_account_shares_le_total(s.drop_first(), id);
        }
    }
}

} // verus!
