//! The account store: a map from addresses to accounts, held as a vector
//! sorted strictly by address. Keeping the vector sorted makes the store's
//! serialization canonical: two stores holding the same logical map are the
//! same vector (`lemma_sorted_canonical`), whatever order built them.

use vstd::prelude::*;
use vstd::pervasive::VecAdditionalExecFns;
use crate::address::Address;

verus! {

/// One account: a balance and the nonce of the last applied transaction from
/// it. The nonce starts at 0 and increases by exactly one per applied
/// transaction.
#[derive(Clone, Copy, Debug, Default, PartialEq, Eq, Structural)]
pub struct Account {
    pub balance: u64,
    pub nonce: u64,
}

/// The entries are strictly ordered by address.
pub open spec fn sorted(s: Seq<(Address, Account)>) -> bool {
    forall|i: int, j: int|
        0 <= i < j < s.len() ==> (#[trigger] s[i]).0.lt((#[trigger] s[j]).0)
}

/// No two entries share an address.
pub open spec fn distinct_keys(s: Seq<(Address, Account)>) -> bool {
    forall|i: int, j: int|
        0 <= i < j < s.len() ==> (#[trigger] s[i]).0 != (#[trigger] s[j]).0
}

/// Some entry carries address `a`.
pub open spec fn has_key(s: Seq<(Address, Account)>, a: Address) -> bool {
    exists|i: int| 0 <= i < s.len() && (#[trigger] s[i]).0 == a
}

/// The map an entry sequence stands for; a later entry for an address wins.
pub open spec fn seq_to_map(s: Seq<(Address, Account)>) -> Map<Address, Account>
    decreases s.len(),
{
    if s.len() == 0 {
        Map::empty()
    } else {
        seq_to_map(s.drop_last()).insert(s.last().0, s.last().1)
    }
}

/// The sum of all balances in the store.
pub open spec fn sum_balances(s: Seq<(Address, Account)>) -> int
    decreases s.len(),
{
    if s.len() == 0 {
        0
    } else {
        sum_balances(s.drop_last()) + s.last().1.balance
    }
}

/// Strictly ordered entries have distinct addresses.
pub proof fn lemma_sorted_distinct(s: Seq<(Address, Account)>)
    requires
        sorted(s),
    ensures
        distinct_keys(s),
{
    assert forall|i: int, j: int| 0 <= i < j < s.len() implies (#[trigger] s[i]).0 != (
    #[trigger] s[j]).0 by {
        assert(s[i].0.lt(s[j].0));
    }
}

/// Dropping the last entry keeps the rest ordered.
pub proof fn lemma_sorted_drop_last(s: Seq<(Address, Account)>)
    requires
        sorted(s),
        s.len() > 0,
    ensures
        sorted(s.drop_last()),
        distinct_keys(s.drop_last()),
{
    let d = s.drop_last();
    assert forall|i: int, j: int| 0 <= i < j < d.len() implies (#[trigger] d[i]).0.lt(
        (#[trigger] d[j]).0,
    ) by {
        assert(d[i] == s[i]);
        assert(d[j] == s[j]);
    }
    lemma_sorted_distinct(d);
}

/// The map's domain is exactly the addresses the entries carry.
pub proof fn lemma_map_domain(s: Seq<(Address, Account)>)
    ensures
        forall|a: Address| #[trigger] seq_to_map(s).contains_key(a) <==> has_key(s, a),
    decreases s.len(),
{
    if s.len() == 0 {
        assert forall|a: Address| !(#[trigger] seq_to_map(s).contains_key(a)) && !has_key(s, a) by {
            if has_key(s, a) {
                let i = choose|i: int| 0 <= i < s.len() && (#[trigger] s[i]).0 == a;
                assert(false);
            }
        }
    } else {
        lemma_map_domain(s.drop_last());
        assert forall|a: Address| #[trigger] seq_to_map(s).contains_key(a) <==> has_key(s, a) by {
            if a == s.last().0 {
                assert(seq_to_map(s).contains_key(a));
                assert(0 <= s.len() - 1 < s.len() && s[s.len() - 1].0 == a);
                assert(has_key(s, a));
            } else {
                if has_key(s, a) {
                    let i = choose|i: int| 0 <= i < s.len() && (#[trigger] s[i]).0 == a;
                    assert(i < s.len() - 1);
                    assert(s.drop_last()[i].0 == a);
                    assert(has_key(s.drop_last(), a));
                    assert(seq_to_map(s.drop_last()).contains_key(a));
                    assert(seq_to_map(s).contains_key(a));
                }
                if seq_to_map(s).contains_key(a) {
                    assert(seq_to_map(s.drop_last()).contains_key(a));
                    assert(has_key(s.drop_last(), a));
                    let i = choose|i: int|
                        0 <= i < s.drop_last().len() && (#[trigger] s.drop_last()[i]).0 == a;
                    assert(s[i].0 == a);
                    assert(has_key(s, a));
                }
            }
        }
    }
}

/// With distinct addresses, each entry is what the map holds at its address.
pub proof fn lemma_map_values(s: Seq<(Address, Account)>)
    requires
        distinct_keys(s),
    ensures
        forall|i: int|
            0 <= i < s.len() ==> seq_to_map(s).contains_key((#[trigger] s[i]).0)
                && seq_to_map(s)[s[i].0] == s[i].1,
    decreases s.len(),
{
    if s.len() > 0 {
        let d = s.drop_last();
        assert forall|i: int, j: int| 0 <= i < j < d.len() implies (#[trigger] d[i]).0 != (
        #[trigger] d[j]).0 by {
            assert(d[i] == s[i]);
            assert(d[j] == s[j]);
        }
        lemma_map_values(d);
        assert forall|i: int|
            0 <= i < s.len() implies seq_to_map(s).contains_key((#[trigger] s[i]).0)
            && seq_to_map(s)[s[i].0] == s[i].1 by {
            if i == s.len() - 1 {
                assert(seq_to_map(s)[s.last().0] == s.last().1);
            } else {
                assert(d[i] == s[i]);
                assert(s[i].0 != s[s.len() - 1].0);
                assert(seq_to_map(s)[s[i].0] == seq_to_map(d)[s[i].0]);
            }
        }
    }
}

/// Dropping the last entry removes exactly its address from the map.
pub proof fn lemma_drop_last_map(s: Seq<(Address, Account)>)
    requires
        distinct_keys(s),
        s.len() > 0,
    ensures
        seq_to_map(s.drop_last()) == seq_to_map(s).remove(s.last().0),
{
    let d = s.drop_last();
    lemma_map_domain(d);
    if has_key(d, s.last().0) {
        let i = choose|i: int| 0 <= i < d.len() && (#[trigger] d[i]).0 == s.last().0;
        assert(s[i].0 == s[s.len() - 1].0);
        assert(false);
    }
    assert(!seq_to_map(d).contains_key(s.last().0));
    let m1 = seq_to_map(s.drop_last());
    let m2 = seq_to_map(s).remove(s.last().0);
    assert(m1 =~= m2);
}

/// Replacing one entry changes the sum by the difference of the balances.
pub proof fn lemma_sum_update(s: Seq<(Address, Account)>, i: int, e: (Address, Account))
    requires
        0 <= i < s.len(),
    ensures
        sum_balances(s.update(i, e)) == sum_balances(s) - s[i].1.balance + e.1.balance,
    decreases s.len(),
{
    let s2 = s.update(i, e);
    if i == s.len() - 1 {
        assert(s2.drop_last() =~= s.drop_last());
        assert(s2.last() == e);
    } else {
        assert(s2.drop_last() =~= s.drop_last().update(i, e));
        lemma_sum_update(s.drop_last(), i, e);
        assert(s2.last() == s.last());
    }
}

/// Inserting an entry grows the sum by its balance.
pub proof fn lemma_sum_insert(s: Seq<(Address, Account)>, i: int, e: (Address, Account))
    requires
        0 <= i <= s.len(),
    ensures
        sum_balances(s.insert(i, e)) == sum_balances(s) + e.1.balance,
    decreases s.len(),
{
    let s2 = s.insert(i, e);
    s.insert_ensures(i, e);
    if i == s.len() {
        assert(s2.drop_last() =~= s);
        assert(s2.last() == e);
    } else {
        assert(s2.drop_last() =~= s.drop_last().insert(i, e));
        lemma_sum_insert(s.drop_last(), i, e);
        assert(s2.last() == s[s.len() - 1]);
    }
}

/// The sum of balances is never negative.
pub proof fn lemma_sum_nonneg(s: Seq<(Address, Account)>)
    ensures
        sum_balances(s) >= 0,
    decreases s.len(),
{
    if s.len() > 0 {
        lemma_sum_nonneg(s.drop_last());
    }
}

/// Each single balance is at most the sum of all balances.
pub proof fn lemma_balance_le_sum(s: Seq<(Address, Account)>, i: int)
    requires
        0 <= i < s.len(),
    ensures
        s[i].1.balance <= sum_balances(s),
    decreases s.len(),
{
    if i == s.len() - 1 {
        lemma_sum_nonneg(s.drop_last());
    } else {
        assert(s.drop_last()[i] == s[i]);
        lemma_balance_le_sum(s.drop_last(), i);
    }
}

/// Two sorted stores for the same map are the same vector: sorting makes the
/// representation canonical.
pub proof fn lemma_sorted_canonical(s1: Seq<(Address, Account)>, s2: Seq<(Address, Account)>)
    requires
        sorted(s1),
        sorted(s2),
        seq_to_map(s1) == seq_to_map(s2),
    ensures
        s1 == s2,
    decreases s1.len(),
{
    lemma_sorted_distinct(s1);
    lemma_sorted_distinct(s2);
    lemma_map_domain(s1);
    lemma_map_domain(s2);
    lemma_map_values(s1);
    lemma_map_values(s2);
    if s1.len() == 0 {
        if s2.len() > 0 {
            assert(0 <= s2.len() - 1 < s2.len() && s2[s2.len() - 1].0 == s2.last().0);
            assert(has_key(s2, s2.last().0));
            assert(seq_to_map(s1).contains_key(s2.last().0));
            let i = choose|i: int| 0 <= i < s1.len() && (#[trigger] s1[i]).0 == s2.last().0;
            assert(false);
        }
        assert(s1 =~= s2);
    } else if s2.len() == 0 {
        assert(0 <= s1.len() - 1 < s1.len() && s1[s1.len() - 1].0 == s1.last().0);
        assert(has_key(s1, s1.last().0));
        assert(seq_to_map(s2).contains_key(s1.last().0));
        let i = choose|i: int| 0 <= i < s2.len() && (#[trigger] s2[i]).0 == s1.last().0;
        assert(false);
    } else {
        let k1 = s1.last().0;
        let k2 = s2.last().0;
        assert(s1[s1.len() - 1].0 == k1);
        assert(seq_to_map(s1).contains_key(k1));
        assert(has_key(s2, k1));
        let i = choose|i: int| 0 <= i < s2.len() && (#[trigger] s2[i]).0 == k1;
        assert(s2[s2.len() - 1].0 == k2);
        assert(seq_to_map(s2).contains_key(k2));
        assert(has_key(s1, k2));
        let j = choose|j: int| 0 <= j < s1.len() && (#[trigger] s1[j]).0 == k2;
        if i < s2.len() - 1 && j < s1.len() - 1 {
            assert(s2[i].0.lt(s2[s2.len() - 1].0));
            assert(s1[j].0.lt(s1[s1.len() - 1].0));
            assert(false);
        }
        assert(k1 == k2);
        assert(s1.last().1 == seq_to_map(s1)[k1]);
        assert(s2.last().1 == seq_to_map(s2)[k1]);
        assert(s1.last() == s2.last());
        lemma_drop_last_map(s1);
        lemma_drop_last_map(s2);
        assert(seq_to_map(s1.drop_last()) == seq_to_map(s2.drop_last()));
        lemma_sorted_drop_last(s1);
        lemma_sorted_drop_last(s2);
        lemma_sorted_canonical(s1.drop_last(), s2.drop_last());
        assert(s1.len() == s2.len());
        assert forall|i: int| 0 <= i < s1.len() implies s1[i] == s2[i] by {
            if i < s1.len() - 1 {
                assert(s1.drop_last()[i] == s2.drop_last()[i]);
            } else {
                assert(s1[i] == s1.last());
                assert(s2[i] == s2.last());
            }
        }
        assert(s1 =~= s2);
    }
}

/// Find the index of the entry holding address `a`, if any.
pub fn find_account(v: &Vec<(Address, Account)>, a: &Address) -> (r: Option<usize>)
    ensures
        (match r {
            Some(i) => i < v@.len() && v@[i as int].0 == *a,
            None => !has_key(v@, *a),
        }),
{
    let mut i: usize = 0;
    while i < v.len()
        invariant
            i <= v@.len(),
            forall|j: int| 0 <= j < i ==> (#[trigger] v@[j]).0 != *a,
        decreases v@.len() - i,
    {
        if v[i].0 == *a {
            return Some(i);
        }
        i += 1;
    }
    proof {
        if has_key(v@, *a) {
            let w = choose|w: int| 0 <= w < v@.len() && (#[trigger] v@[w]).0 == *a;
            assert(false);
        }
    }
    None
}

/// Replacing the entry at an address's own index is, on the map view,
/// exactly `insert` at that address, and it keeps the store sorted.
pub proof fn lemma_update_entry(s: Seq<(Address, Account)>, i: int, a: Address, acct: Account)
    requires
        sorted(s),
        0 <= i < s.len(),
        s[i].0 == a,
    ensures
        sorted(s.update(i, (a, acct))),
        seq_to_map(s.update(i, (a, acct))) == seq_to_map(s).insert(a, acct),
{
    lemma_sorted_distinct(s);
    lemma_map_domain(s);
    lemma_map_values(s);
    let s2 = s.update(i, (a, acct));
    assert forall|k: int| 0 <= k < s2.len() implies (#[trigger] s2[k]).0 == s[k].0 by {}
    assert forall|x: int, j: int| 0 <= x < j < s2.len() implies (#[trigger] s2[x]).0.lt(
        (#[trigger] s2[j]).0,
    ) by {
        assert(s[x].0.lt(s[j].0));
    }
    lemma_sorted_distinct(s2);
    lemma_map_domain(s2);
    lemma_map_values(s2);
    assert forall|b: Address|
        #[trigger] seq_to_map(s2).contains_key(b) == seq_to_map(s).insert(a, acct).contains_key(
            b,
        ) && (seq_to_map(s2).contains_key(b) ==> seq_to_map(s2)[b] == seq_to_map(s).insert(
            a,
            acct,
        )[b]) by {
        if b == a {
            assert(s2[i].0 == a);
            assert(has_key(s2, a));
            assert(seq_to_map(s2)[a] == acct);
            assert(has_key(s, a));
        } else {
            if seq_to_map(s).contains_key(b) {
                let w = choose|w: int| 0 <= w < s.len() && (#[trigger] s[w]).0 == b;
                assert(w != i);
                assert(s2[w].0 == b);
                assert(has_key(s2, b));
                assert(s2[w] == s[w]);
                assert(seq_to_map(s2)[b] == s2[w].1);
                assert(seq_to_map(s)[b] == s[w].1);
            }
            if seq_to_map(s2).contains_key(b) {
                let w = choose|w: int| 0 <= w < s2.len() && (#[trigger] s2[w]).0 == b;
                assert(w != i);
                assert(s[w].0 == b);
                assert(has_key(s, b));
                assert(seq_to_map(s).contains_key(b));
            }
        }
    }
    assert(seq_to_map(s2) =~= seq_to_map(s).insert(a, acct));
}

/// Inserting an entry for a fresh address at its split position keeps the
/// store sorted and is, on the map view, exactly `insert`.
pub proof fn lemma_insert_entry(s: Seq<(Address, Account)>, p: int, a: Address, acct: Account)
    requires
        sorted(s),
        0 <= p <= s.len(),
        forall|j: int| 0 <= j < p ==> (#[trigger] s[j]).0.lt(a),
        forall|j: int| p <= j < s.len() ==> a.lt((#[trigger] s[j]).0),
    ensures
        sorted(s.insert(p, (a, acct))),
        seq_to_map(s.insert(p, (a, acct))) == seq_to_map(s).insert(a, acct),
        !seq_to_map(s).contains_key(a),
{
    lemma_sorted_distinct(s);
    lemma_map_domain(s);
    lemma_map_values(s);
    if has_key(s, a) {
        let w = choose|w: int| 0 <= w < s.len() && (#[trigger] s[w]).0 == a;
        if w < p {
            assert(s[w].0.lt(a));
        } else {
            assert(a.lt(s[w].0));
        }
        assert(false);
    }
    let s2 = s.insert(p, (a, acct));
    s.insert_ensures(p, (a, acct));
    assert forall|x: int, j: int| 0 <= x < j < s2.len() implies (#[trigger] s2[x]).0.lt(
        (#[trigger] s2[j]).0,
    ) by {
        if x < p && j < p {
            assert(s2[x] == s[x] && s2[j] == s[j]);
        } else if x < p && j == p {
            assert(s2[x] == s[x] && s2[j] == (a, acct));
        } else if x < p && j > p {
            assert(s2[x] == s[x] && s2[j] == s[j - 1]);
            if x < j - 1 {
                assert(s[x].0.lt(s[j - 1].0));
            }
        } else if x == p {
            assert(s2[x] == (a, acct) && s2[j] == s[j - 1]);
            assert(a.lt(s[j - 1].0));
        } else {
            assert(s2[x] == s[x - 1] && s2[j] == s[j - 1]);
            assert(s[x - 1].0.lt(s[j - 1].0));
        }
    }
    lemma_sorted_distinct(s2);
    lemma_map_domain(s2);
    lemma_map_values(s2);
    assert forall|b: Address|
        #[trigger] seq_to_map(s2).contains_key(b) == seq_to_map(s).insert(a, acct).contains_key(
            b,
        ) && (seq_to_map(s2).contains_key(b) ==> seq_to_map(s2)[b] == seq_to_map(s).insert(
            a,
            acct,
        )[b]) by {
        if b == a {
            assert(s2[p].0 == a);
            assert(has_key(s2, a));
            assert(seq_to_map(s2)[a] == acct);
        } else {
            if seq_to_map(s).contains_key(b) {
                let w = choose|w: int| 0 <= w < s.len() && (#[trigger] s[w]).0 == b;
                if w < p {
                    assert(s2[w] == s[w]);
                    assert(has_key(s2, b));
                    assert(seq_to_map(s2)[b] == s2[w].1);
                } else {
                    assert(s2[w + 1] == s[w]);
                    assert(has_key(s2, b));
                    assert(seq_to_map(s2)[b] == s2[w + 1].1);
                }
                assert(seq_to_map(s)[b] == s[w].1);
            }
            if seq_to_map(s2).contains_key(b) {
                let w = choose|w: int| 0 <= w < s2.len() && (#[trigger] s2[w]).0 == b;
                assert(w != p);
                if w < p {
                    assert(s[w].0 == b);
                } else {
                    assert(s[w - 1].0 == b);
                }
                assert(has_key(s, b));
                assert(seq_to_map(s).contains_key(b));
            }
        }
    }
    assert(seq_to_map(s2) =~= seq_to_map(s).insert(a, acct));
}

/// Where a fresh address splits a sorted store: every entry before the
/// position is smaller, every entry after it larger.
pub proof fn lemma_split_position(s: Seq<(Address, Account)>, a: Address) -> (p: int)
    requires
        sorted(s),
        !has_key(s, a),
    ensures
        0 <= p <= s.len(),
        forall|j: int| 0 <= j < p ==> (#[trigger] s[j]).0.lt(a),
        forall|j: int| p <= j < s.len() ==> a.lt((#[trigger] s[j]).0),
    decreases s.len(),
{
    if s.len() == 0 {
        0
    } else {
        let last = s[s.len() - 1];
        if last.0 == a {
            assert(has_key(s, a));
        }
        crate::address::lemma_address_order_total(last.0, a, a);
        if last.0.lt(a) {
            assert forall|j: int| 0 <= j < s.len() implies (#[trigger] s[j]).0.lt(a) by {
                if j < s.len() - 1 {
                    assert(s[j].0.lt(last.0));
                    crate::address::lemma_address_order_total(s[j].0, last.0, a);
                }
            }
            s.len() as int
        } else {
            lemma_sorted_drop_last(s);
            if has_key(s.drop_last(), a) {
                let w = choose|w: int|
                    0 <= w < s.drop_last().len() && (#[trigger] s.drop_last()[w]).0 == a;
                assert(s[w].0 == a);
                assert(has_key(s, a));
            }
            let p = lemma_split_position(s.drop_last(), a);
            assert forall|j: int| 0 <= j < p implies (#[trigger] s[j]).0.lt(a) by {
                assert(s.drop_last()[j] == s[j]);
            }
            assert forall|j: int| p <= j < s.len() implies a.lt((#[trigger] s[j]).0) by {
                if j < s.len() - 1 {
                    assert(s.drop_last()[j] == s[j]);
                }
            }
            p
        }
    }
}

/// On sorted stores, `insert` on the map view moves the sum of balances by
/// the difference between the new balance and the one it replaces —
/// whatever sorted store holds the result.
pub proof fn lemma_sum_map_insert(
    v: Seq<(Address, Account)>,
    w: Seq<(Address, Account)>,
    a: Address,
    acct: Account,
)
    requires
        sorted(v),
        sorted(w),
        seq_to_map(w) == seq_to_map(v).insert(a, acct),
    ensures
        sum_balances(w) == sum_balances(v) - (if seq_to_map(v).contains_key(a) {
            seq_to_map(v)[a].balance as int
        } else {
            0
        }) + acct.balance,
{
    lemma_sorted_distinct(v);
    lemma_map_domain(v);
    lemma_map_values(v);
    if seq_to_map(v).contains_key(a) {
        let i = choose|i: int| 0 <= i < v.len() && (#[trigger] v[i]).0 == a;
        lemma_update_entry(v, i, a, acct);
        lemma_sorted_canonical(w, v.update(i, (a, acct)));
        lemma_sum_update(v, i, (a, acct));
        assert(seq_to_map(v)[a] == v[i].1);
    } else {
        let p = lemma_split_position(v, a);
        lemma_insert_entry(v, p, a, acct);
        lemma_sorted_canonical(w, v.insert(p, (a, acct)));
        lemma_sum_insert(v, p, (a, acct));
    }
}

/// Insert or update the account at `a`, keeping the vector sorted. On the
/// map view this is exactly `insert`; the sum of balances changes by the
/// difference between the new balance and the one it replaces.
pub fn upsert_account(v: &mut Vec<(Address, Account)>, a: Address, acct: Account)
    requires
        sorted(old(v)@),
    ensures
        sorted(final(v)@),
        seq_to_map(final(v)@) == seq_to_map(old(v)@).insert(a, acct),
        sum_balances(final(v)@) == sum_balances(old(v)@) - (if seq_to_map(
            old(v)@,
        ).contains_key(a) {
            seq_to_map(old(v)@)[a].balance as int
        } else {
            0
        }) + acct.balance,
{
    let ghost s = old(v)@;
    proof {
        lemma_sorted_distinct(s);
        lemma_map_domain(s);
        lemma_map_values(s);
    }
    let mut pos: usize = 0;
    while pos < v.len() && v[pos].0.is_lt(&a)
        invariant
            pos <= v@.len(),
            v@ == s,
            forall|j: int| 0 <= j < pos ==> (#[trigger] s[j]).0.lt(a),
        decreases v@.len() - pos,
    {
        pos += 1;
    }
    if pos < v.len() && v[pos].0 == a {
        // The address is present: replace its account in place.
        v.set(pos, (a, acct));
        proof {
            assert(v@ == s.update(pos as int, (a, acct)));
            lemma_update_entry(s, pos as int, a, acct);
            assert(seq_to_map(s)[a] == s[pos as int].1);
            lemma_sum_update(s, pos as int, (a, acct));
        }
    } else {
        // The address is absent: insert a fresh entry at its sorted position.
        proof {
            assert forall|j: int| pos <= j < s.len() implies a.lt((#[trigger] s[j]).0) by {
                crate::address::lemma_address_order_total(a, s[pos as int].0, s[j].0);
                if (pos as int) < j {
                    assert(s[pos as int].0.lt(s[j].0));
                }
            }
        }
        v.insert(pos, (a, acct));
        proof {
            assert(v@ == s.insert(pos as int, (a, acct)));
            lemma_insert_entry(s, pos as int, a, acct);
            lemma_sum_insert(s, pos as int, (a, acct));
        }
    }
}

} // verus!
