//! The sum of the balances of a ledger, and how it changes when one entry does.
use vstd::prelude::*;

verus! {

/// The balance of `a` in `m`: its entry, or zero where it has none.
pub open spec fn balance_in(m: Map<ink_env::AccountId, u128>, a: ink_env::AccountId) -> nat {
    if m.contains_key(a) {
        m[a] as nat
    } else {
        0
    }
}

/// The sum of the balances in `m` of the accounts in `s`.
pub open spec fn sum_over(m: Map<ink_env::AccountId, u128>, s: Set<ink_env::AccountId>) -> int
    decreases s.len(),
    when s.finite()
{
    if s.len() == 0 {
        0
    } else {
        let k = s.choose();
        balance_in(m, k) + sum_over(m, s.remove(k))
    }
}

/// The sum of all balances in `m`.
pub open spec fn ledger_sum(m: Map<ink_env::AccountId, u128>) -> int {
    sum_over(m, m.dom())
}

/// A sum of balances is never negative.
pub proof fn lemma_sum_nonneg(m: Map<ink_env::AccountId, u128>, s: Set<ink_env::AccountId>)
    requires
        s.finite(),
    ensures
        sum_over(m, s) >= 0,
    decreases s.len(),
{
    if s.len() != 0 {
        let k = s.choose();
        lemma_sum_nonneg(m, s.remove(k));
    }
}

/// Any account of `s` can be taken out of the sum first.
pub proof fn lemma_sum_remove(m: Map<ink_env::AccountId, u128>, s: Set<ink_env::AccountId>, k: ink_env::AccountId)
    requires
        s.finite(),
        s.contains(k),
    ensures
        sum_over(m, s) == balance_in(m, k) + sum_over(m, s.remove(k)),
    decreases s.len(),
{
    let c = s.choose();
    if c != k {
        lemma_sum_remove(m, s.remove(c), k);
        lemma_sum_remove(m, s.remove(k), c);
        assert(s.remove(c).remove(k) =~= s.remove(k).remove(c));
    }
}

/// Two maps that agree on the accounts of `s` have the same sum over `s`.
pub proof fn lemma_sum_agree(m1: Map<ink_env::AccountId, u128>, m2: Map<ink_env::AccountId, u128>, s: Set<ink_env::AccountId>)
    requires
        s.finite(),
        forall|a: ink_env::AccountId| s.contains(a) ==> balance_in(m1, a) == balance_in(m2, a),
    ensures
        sum_over(m1, s) == sum_over(m2, s),
    decreases s.len(),
{
    if s.len() != 0 {
        let k = s.choose();
        lemma_sum_agree(m1, m2, s.remove(k));
    }
}

/// Setting the entry of `k` to `v` changes the sum of all balances by the
/// difference between `v` and the balance that `k` had.
pub proof fn lemma_ledger_sum_insert(m: Map<ink_env::AccountId, u128>, k: ink_env::AccountId, v: u128)
    requires
        m.dom().finite(),
    ensures
        m.insert(k, v).dom().finite(),
        ledger_sum(m.insert(k, v)) == ledger_sum(m) - balance_in(m, k) + v,
{
    let m2 = m.insert(k, v);
    let s = m.dom();
    let rest = s.remove(k);
    assert(m2.dom() =~= s.insert(k));
    assert(m2.dom().remove(k) =~= rest);
    lemma_sum_agree(m, m2, rest);
    lemma_sum_remove(m2, m2.dom(), k);
    if s.contains(k) {
        lemma_sum_remove(m, s, k);
    } else {
        assert(rest =~= s);
    }
}

/// The balances of two distinct accounts together never exceed the sum of all.
pub proof fn lemma_two_balances_le_sum(m: Map<ink_env::AccountId, u128>, a: ink_env::AccountId, b: ink_env::AccountId)
    requires
        m.dom().finite(),
        a != b,
    ensures
        balance_in(m, a) + balance_in(m, b) <= ledger_sum(m),
{
    let s = m.dom();
    let sa = if s.contains(a) {
        lemma_sum_remove(m, s, a);
        s.remove(a)
    } else {
        s
    };
    assert(sum_over(m, s) == balance_in(m, a) + sum_over(m, sa));
    if sa.contains(b) {
        lemma_sum_remove(m, sa, b);
        lemma_sum_nonneg(m, sa.remove(b));
    } else {
        lemma_sum_nonneg(m, sa);
    }
}

} // verus!
