use vstd::prelude::*;

use crate::pool::Amm;

verus! {

/// Round trip: after a successful deposit on an otherwise untouched pool,
/// withdrawing exactly the shares it minted pays back at most the deposited
/// amounts; floor rounding is the only possible loss, and after a first
/// provision the amounts come back exactly.
pub proof fn lemma_provide_withdraw_round_trip(
    pre: Amm,
    post: Amm,
    caller: u64,
    amount1: u128,
    amount2: u128,
)
    requires
        pre.wf(),
        pre.balanced(),
        pre.provide_ok(caller, amount1, amount2),
        post.token1_total == pre.token1_total + amount1,
        post.token2_total == pre.token2_total + amount2,
        post.total_shares == pre.total_shares + pre.minted_for(amount1),
    ensures
        post.withdraw_amount1((pre.minted_for(amount1)) as u128) <= amount1,
        post.withdraw_amount2((pre.minted_for(amount1)) as u128) <= amount2,
        pre.total_shares == 0 ==> post.withdraw_amount1((pre.minted_for(amount1)) as u128)
            == amount1 && post.withdraw_amount2((pre.minted_for(amount1)) as u128) == amount2,
{
    let s = pre.minted_for(amount1);
    let ts = pre.total_shares as int;
    let r1 = pre.token1_total as int;
    let r2 = pre.token2_total as int;
    let a1 = amount1 as int;
    let a2 = amount2 as int;
    let nts = post.total_shares as int;
    assert(0 <= s <= u128::MAX);
    assert(post.withdraw_amount1((s) as u128) == s * (r1 + a1) / nts);
    assert(post.withdraw_amount2((s) as u128) == s * (r2 + a2) / nts);
    if ts == 0 {
        assert(r1 == 0 && r2 == 0);
        assert(s == 100 * crate::pool::PRECISION);
        vstd::arithmetic::div_mod::lemma_div_multiples_vanish(a1, s);
        vstd::arithmetic::div_mod::lemma_div_multiples_vanish(a2, s);
    } else {
        assert(r1 > 0 && r2 > 0);
        assert(s == ts * a1 / r1);
        assert(s == ts * a2 / r2);
        vstd::arithmetic::div_mod::lemma_fundamental_div_mod(ts * a1, r1);
        vstd::arithmetic::div_mod::lemma_mod_division_less_than_divisor(ts * a1, r1);
        assert(r1 * s <= ts * a1);
        vstd::arithmetic::div_mod::lemma_fundamental_div_mod(ts * a2, r2);
        vstd::arithmetic::div_mod::lemma_mod_division_less_than_divisor(ts * a2, r2);
        assert(r2 * s <= ts * a2);
        assert(s * (r1 + a1) == s * r1 + s * a1) by {
            vstd::arithmetic::mul::lemma_mul_is_distributive_add(s, r1, a1);
        }
        assert(s * r1 == r1 * s) by {
            vstd::arithmetic::mul::lemma_mul_is_commutative(s, r1);
        }
        assert(ts * a1 == a1 * ts && s * a1 == a1 * s) by {
            vstd::arithmetic::mul::lemma_mul_is_commutative(ts, a1);
            vstd::arithmetic::mul::lemma_mul_is_commutative(s, a1);
        }
        assert(nts * a1 == a1 * ts + a1 * s) by {
            vstd::arithmetic::mul::lemma_mul_is_commutative(nts, a1);
            vstd::arithmetic::mul::lemma_mul_is_distributive_add(a1, ts, s);
        }
        assert(s * (r1 + a1) <= nts * a1);
        vstd::arithmetic::div_mod::lemma_multiply_divide_le(s * (r1 + a1), nts, a1);
        assert(s * (r2 + a2) == s * r2 + s * a2) by {
            vstd::arithmetic::mul::lemma_mul_is_distributive_add(s, r2, a2);
        }
        assert(s * r2 == r2 * s) by {
            vstd::arithmetic::mul::lemma_mul_is_commutative(s, r2);
        }
        assert(ts * a2 == a2 * ts && s * a2 == a2 * s) by {
            vstd::arithmetic::mul::lemma_mul_is_commutative(ts, a2);
            vstd::arithmetic::mul::lemma_mul_is_commutative(s, a2);
        }
        assert(nts * a2 == a2 * ts + a2 * s) by {
            vstd::arithmetic::mul::lemma_mul_is_commutative(nts, a2);
            vstd::arithmetic::mul::lemma_mul_is_distributive_add(a2, ts, s);
        }
        assert(s * (r2 + a2) <= nts * a2);
        vstd::arithmetic::div_mod::lemma_multiply_divide_le(s * (r2 + a2), nts, a2);
    }
}

/// A successful swap of the first asset in can shrink the pricing constant
/// K only by the floor rounding of the post-swap reserve division: whenever
/// that division is exact, K is preserved. (That K never decreases in
/// general does not hold: the rounding loss is bounded by the new first
/// reserve, as the swap's own contract states.)
pub proof fn lemma_swap1_preserves_k_when_exact(pre: Amm, amount1: u128)
    requires
        0 < pre.swap1_new_reserve1(amount1),
        pre.k() % pre.swap1_new_reserve1(amount1) == 0,
    ensures
        pre.swap1_new_reserve1(amount1) * pre.swap1_new_reserve2(amount1) == pre.k(),
{
    vstd::arithmetic::div_mod::lemma_fundamental_div_mod(
        pre.k(),
        pre.swap1_new_reserve1(amount1),
    );
}

/// The mirror of `lemma_swap1_preserves_k_when_exact` for a swap of the
/// second asset in.
pub proof fn lemma_swap2_preserves_k_when_exact(pre: Amm, amount2: u128)
    requires
        0 < pre.swap2_new_reserve2(amount2),
        pre.k() % pre.swap2_new_reserve2(amount2) == 0,
    ensures
        pre.swap2_new_reserve2(amount2) * pre.swap2_new_reserve1(amount2) == pre.k(),
{
    vstd::arithmetic::div_mod::lemma_fundamental_div_mod(
        pre.k(),
        pre.swap2_new_reserve2(amount2),
    );
}

} // verus!
