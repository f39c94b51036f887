//! Ranking by single-precision keys: orders, and the greatest.

use crate::single::{Single, LEAST};
use vstd::prelude::*;

verus! {

/// Whether a key goes before another, in ascending or in descending order.
pub open spec fn goes_before(a: Single, b: Single, descending: bool) -> bool {
    if descending {
        b.lt(a)
    } else {
        a.lt(b)
    }
}

/// Where the index `k` is inserted into the first `n` places of an order: behind
/// the last one that its key does not go before.
pub open spec fn place(
    keys: Seq<Single>,
    order: Seq<int>,
    k: int,
    n: nat,
    descending: bool,
) -> nat
    decreases n,
{
    if n == 0 {
        0
    } else if goes_before(keys[k], keys[order[n - 1]], descending) {
        place(keys, order, k, (n - 1) as nat, descending)
    } else {
        n
    }
}

/// The first `n` indices in the order of their keys. Equal keys keep the order of
/// their indices. A key that is no number goes before nothing, and nothing before
/// it.
pub open spec fn ordered(keys: Seq<Single>, n: nat, descending: bool) -> Seq<int>
    decreases n,
{
    if n == 0 {
        Seq::empty()
    } else {
        let rest = ordered(keys, (n - 1) as nat, descending);
        rest.insert(place(keys, rest, n - 1, (n - 1) as nat, descending) as int, n - 1)
    }
}

/// Indices as mathematical numbers.
pub open spec fn indices(v: Seq<usize>) -> Seq<int> {
    Seq::new(v.len(), |i: int| v[i] as int)
}

/// An order is a rearrangement.
pub proof fn order_is_a_rearrangement(keys: Seq<Single>, n: nat, descending: bool)
    ensures
        ordered(keys, n, descending).len() == n,
        forall|i: int|
            0 <= i < n ==> 0 <= #[trigger] ordered(keys, n, descending)[i] < n,
        forall|i: int, j: int|
            0 <= i < j < n ==> ordered(keys, n, descending)[i] != ordered(keys, n, descending)[j],
        forall|k: int| 0 <= k < n ==> ordered(keys, n, descending).contains(k),
    decreases n,
{
    if n > 0 {
        let rest = ordered(keys, (n - 1) as nat, descending);
        let p = place(keys, rest, n - 1, (n - 1) as nat, descending) as int;
        let all = ordered(keys, n, descending);
        order_is_a_rearrangement(keys, (n - 1) as nat, descending);
        lemma_place_bound(keys, rest, n - 1, (n - 1) as nat, descending);
        assert forall|i: int, j: int| 0 <= i < j < n implies all[i] != all[j] by {
            let a = if i < p {
                i
            } else {
                i - 1
            };
            let b = if j < p {
                j
            } else {
                j - 1
            };
            if i != p && j != p {
                assert(rest[a] != rest[b]);
            }
        }
        assert forall|k: int| 0 <= k < n implies all.contains(k) by {
            if k == n - 1 {
                assert(all[p] == k);
            } else {
                assert(rest.contains(k));
                let i = choose|i: int| 0 <= i < rest.len() && rest[i] == k;
                assert(all[if i < p {
                    i
                } else {
                    i + 1
                }] == k);
            }
        }
    }
}

proof fn lemma_place_bound(
    keys: Seq<Single>,
    order: Seq<int>,
    k: int,
    n: nat,
    descending: bool,
)
    ensures
        place(keys, order, k, n, descending) <= n,
        forall|i: int|
            place(keys, order, k, n, descending) <= i < n ==> goes_before(
                keys[k],
                keys[#[trigger] order[i]],
                descending,
            ),
        place(keys, order, k, n, descending) > 0 ==> !goes_before(
            keys[k],
            keys[order[place(keys, order, k, n, descending) - 1]],
            descending,
        ),
    decreases n,
{
    if n > 0 && goes_before(keys[k], keys[order[n - 1]], descending) {
        lemma_place_bound(keys, order, k, (n - 1) as nat, descending);
    }
}

/// An order of numbers is sorted, and stable: of two places the later never goes
/// before the earlier, and equal keys keep the order of their indices.
pub proof fn order_is_sorted(keys: Seq<Single>, n: nat, descending: bool)
    requires
        n <= keys.len(),
        forall|i: int| 0 <= i < keys.len() ==> !(#[trigger] keys[i]).nan(),
    ensures
        forall|i: int, j: int|
            0 <= i < j < n ==> {
                let a = #[trigger] ordered(keys, n, descending)[i];
                let b = #[trigger] ordered(keys, n, descending)[j];
                !goes_before(keys[b], keys[a], descending) && (keys[a].same(keys[b]) ==> a < b)
            },
    decreases n,
{
    if n > 0 {
        let m = (n - 1) as nat;
        let rest = ordered(keys, m, descending);
        let p = place(keys, rest, n - 1, m, descending) as int;
        let all = ordered(keys, n, descending);
        order_is_sorted(keys, m, descending);
        order_is_a_rearrangement(keys, m, descending);
        lemma_place_bound(keys, rest, n - 1, m, descending);
        assert forall|i: int, j: int| 0 <= i < j < n implies {
            let a = #[trigger] all[i];
            let b = #[trigger] all[j];
            !goes_before(keys[b], keys[a], descending) && (keys[a].same(keys[b]) ==> a < b)
        } by {
            let a = all[i];
            let b = all[j];
            if j == p {
                assert(a == rest[i]);
                assert(b == n - 1);
                let e = rest[p - 1];
                assert(!goes_before(keys[b], keys[e], descending));
                if i < p - 1 {
                    assert(!goes_before(keys[e], keys[a], descending));
                }
                assert(!keys[a].nan() && !keys[b].nan() && !keys[e].nan());
            } else if i == p {
                assert(b == rest[j - 1]);
                assert(a == n - 1);
                assert(goes_before(keys[a], keys[b], descending));
            } else {
                assert(a == rest[if i < p {
                    i
                } else {
                    i - 1
                }]);
                assert(b == rest[if j < p {
                    j
                } else {
                    j - 1
                }]);
            }
        }
    }
}

/// The numbers that keys stand for.
pub open spec fn ranks(keys: Seq<Single>) -> Seq<int> {
    Seq::new(keys.len(), |i: int| keys[i].rank())
}

/// The numbers that the first `n` keys stand for, in ascending order.
pub open spec fn sorted_ranks(keys: Seq<Single>, n: nat) -> Seq<int> {
    Seq::new(n, |i: int| keys[ordered(keys, n, false)[i]].rank())
}

/// Whether numbers are in ascending order.
pub open spec fn ascending(s: Seq<int>) -> bool {
    forall|i: int, j: int| 0 <= i <= j < s.len() ==> s[i] <= s[j]
}

/// Ordering keys keeps their numbers, each as often as it was there.
pub proof fn order_keeps_the_numbers(keys: Seq<Single>, n: nat)
    requires
        n <= keys.len(),
    ensures
        sorted_ranks(keys, n).to_multiset() == ranks(keys).take(n as int).to_multiset(),
    decreases n,
{
    let all = sorted_ranks(keys, n);
    if n == 0 {
        assert(all =~= ranks(keys).take(0));
    } else {
        let m = (n - 1) as nat;
        let rest = ordered(keys, m, false);
        let p = place(keys, rest, n - 1, m, false) as int;
        let x = keys[n - 1].rank();
        order_keeps_the_numbers(keys, m);
        order_is_a_rearrangement(keys, m, false);
        lemma_place_bound(keys, rest, n - 1, m, false);
        assert(all =~= sorted_ranks(keys, m).insert(p, x));
        vstd::seq_lib::to_multiset_insert(sorted_ranks(keys, m), p, x);
        assert(ranks(keys).take(n as int) =~= ranks(keys).take(m as int).push(x));
        vstd::seq_lib::to_multiset_build(ranks(keys).take(m as int), x);
    }
}

/// The numbers of ordered keys are in ascending order.
pub proof fn ordered_numbers_ascend(keys: Seq<Single>)
    requires
        forall|i: int| 0 <= i < keys.len() ==> !(#[trigger] keys[i]).nan(),
    ensures
        ascending(sorted_ranks(keys, keys.len())),
{
    let n = keys.len();
    let order = ordered(keys, n, false);
    let s = sorted_ranks(keys, n);
    order_is_a_rearrangement(keys, n, false);
    order_is_sorted(keys, n, false);
    assert forall|i: int, j: int| 0 <= i <= j < s.len() implies s[i] <= s[j] by {
        if i < j {
            assert(!goes_before(keys[order[j]], keys[order[i]], false));
            assert(!keys[order[i]].nan() && !keys[order[j]].nan());
        }
    }
}

/// The same numbers have one ascending order.
pub proof fn ascending_order_is_unique(a: Seq<int>, b: Seq<int>)
    requires
        ascending(a),
        ascending(b),
        a.to_multiset() == b.to_multiset(),
    ensures
        a == b,
    decreases a.len(),
{
    vstd::seq_lib::to_multiset_len(a);
    vstd::seq_lib::to_multiset_len(b);
    if a.len() == 0 {
        assert(a =~= b);
    } else {
        let n = a.len() as int;
        vstd::seq_lib::to_multiset_contains(a, b[n - 1]);
        vstd::seq_lib::to_multiset_contains(b, b[n - 1]);
        vstd::seq_lib::to_multiset_contains(a, a[n - 1]);
        vstd::seq_lib::to_multiset_contains(b, a[n - 1]);
        assert(b.contains(b[n - 1]) && a.contains(a[n - 1]));
        let i = choose|i: int| 0 <= i < n && a[i] == b[n - 1];
        let j = choose|j: int| 0 <= j < n && b[j] == a[n - 1];
        assert(a[i] <= a[n - 1] && b[j] <= b[n - 1]);
        vstd::seq_lib::to_multiset_remove(a, n - 1);
        vstd::seq_lib::to_multiset_remove(b, n - 1);
        assert(a.remove(n - 1) =~= a.drop_last());
        assert(b.remove(n - 1) =~= b.drop_last());
        ascending_order_is_unique(a.drop_last(), b.drop_last());
        assert(a =~= a.drop_last().push(a[n - 1]));
        assert(b =~= b.drop_last().push(b[n - 1]));
    }
}

/// Replacing one number takes it out and puts the other in.
proof fn lemma_update_multiset(s: Seq<int>, i: int, x: int)
    requires
        0 <= i < s.len(),
    ensures
        s.update(i, x).to_multiset() == s.to_multiset().remove(s[i]).insert(x),
{
    assert(s.update(i, x) =~= s.remove(i).insert(i, x));
    vstd::seq_lib::to_multiset_remove(s, i);
    vstd::seq_lib::to_multiset_insert(s.remove(i), i, x);
}

/// Raising a greatest number and lowering a least one moves no other in the ascending
/// order, in whatever order the numbers came. `u` holds the numbers of `v`, and
/// `w` differs from `u` in the raised and the lowered one.
pub proof fn extremes_move_alone(
    v: Seq<Single>,
    u: Seq<Single>,
    w: Seq<Single>,
    most: int,
    least: int,
)
    requires
        v.len() == u.len() == w.len(),
        forall|i: int| 0 <= i < v.len() ==> !(#[trigger] v[i]).nan(),
        forall|i: int| 0 <= i < w.len() ==> !(#[trigger] w[i]).nan(),
        ranks(u).to_multiset() == ranks(v).to_multiset(),
        0 <= most < u.len(),
        0 <= least < u.len(),
        most != least,
        forall|i: int|
            0 <= i < u.len() ==> u[least].rank() <= (#[trigger] u[i]).rank() <= u[most].rank(),
        w[most].rank() >= u[most].rank(),
        w[least].rank() <= u[least].rank(),
        forall|i: int| 0 <= i < u.len() && i != most && i != least ==> w[i] == u[i],
    ensures
        forall|i: int|
            1 <= i < v.len() - 1 ==> #[trigger] sorted_ranks(w, w.len())[i] == sorted_ranks(
                v,
                v.len(),
            )[i],
{
    let n = v.len() as int;
    let s = sorted_ranks(v, v.len());
    let r = ranks(u);
    let (hi, lo) = (w[most].rank(), w[least].rank());
    order_keeps_the_numbers(v, v.len());
    order_keeps_the_numbers(w, w.len());
    assert(ranks(v).take(n) =~= ranks(v));
    assert(ranks(w).take(n) =~= ranks(w));
    ordered_numbers_ascend(v);
    ordered_numbers_ascend(w);
    // The ends of the ascending order are the extremes.
    vstd::seq_lib::to_multiset_contains(s, r[most]);
    vstd::seq_lib::to_multiset_contains(r, r[most]);
    vstd::seq_lib::to_multiset_contains(s, r[least]);
    vstd::seq_lib::to_multiset_contains(r, r[least]);
    vstd::seq_lib::to_multiset_contains(s, s[0]);
    vstd::seq_lib::to_multiset_contains(r, s[0]);
    vstd::seq_lib::to_multiset_contains(s, s[n - 1]);
    vstd::seq_lib::to_multiset_contains(r, s[n - 1]);
    assert(r.contains(r[most]) && r.contains(r[least]) && s.contains(s[0]) && s.contains(s[n - 1]));
    let i1 = choose|i: int| 0 <= i < n && s[i] == r[most];
    let i2 = choose|i: int| 0 <= i < n && s[i] == r[least];
    let j1 = choose|j: int| 0 <= j < n && r[j] == s[0];
    let j2 = choose|j: int| 0 <= j < n && r[j] == s[n - 1];
    assert(s[0] <= s[i2] && s[i1] <= s[n - 1]);
    assert(u[j1].rank() == s[0] && u[j2].rank() == s[n - 1]);
    assert(s[n - 1] == r[most] && s[0] == r[least]);
    // Both are replaced alike.
    let t1 = s.update(n - 1, hi);
    let t = t1.update(0, lo);
    let r1 = r.update(most, hi);
    assert(ranks(w) =~= r1.update(least, lo));
    lemma_update_multiset(s, n - 1, hi);
    lemma_update_multiset(t1, 0, lo);
    lemma_update_multiset(r, most, hi);
    lemma_update_multiset(r1, least, lo);
    assert(ascending(t)) by {
        assert forall|i: int, j: int| 0 <= i <= j < t.len() implies t[i] <= t[j] by {
            assert(s[0] <= s[i] && s[i] <= s[j] && s[j] <= s[n - 1]);
        }
    }
    ascending_order_is_unique(sorted_ranks(w, w.len()), t);
}

/// The order of all keys.
pub fn order_of(keys: &[Single], descending: bool) -> (order: Vec<usize>)
    ensures
        indices(order@) == ordered(keys@, keys@.len(), descending),
{
    let mut order: Vec<usize> = Vec::new();
    let mut k: usize = 0;
    proof {
        assert(indices(order@) =~= Seq::empty());
    }
    while k < keys.len()
        invariant
            k <= keys@.len(),
            order@.len() == k,
            indices(order@) == ordered(keys@, k as nat, descending),
        decreases keys@.len() - k,
    {
        let ghost rest = indices(order@);
        let mut p: usize = k;
        let mut go: bool = true;
        proof {
            order_is_a_rearrangement(keys@, k as nat, descending);
        }
        while p > 0 && go
            invariant
                k < keys@.len(),
                p <= k,
                order@.len() == k,
                rest == indices(order@),
                forall|i: int| 0 <= i < k ==> 0 <= #[trigger] rest[i] < k,
                go ==> place(keys@, rest, k as int, p as nat, descending) == place(
                    keys@,
                    rest,
                    k as int,
                    k as nat,
                    descending,
                ),
                !go ==> p == place(keys@, rest, k as int, k as nat, descending),
            decreases
                p + (if go {
                    1int
                } else {
                    0int
                }),
        {
            assert(rest[p - 1] == order@[p - 1]);
            let (a, b) = (keys[k], keys[order[p - 1]]);
            let before = if descending {
                b.less(a)
            } else {
                a.less(b)
            };
            if before {
                p = p - 1;
            } else {
                go = false;
            }
        }
        order.insert(p, k);
        proof {
            assert(indices(order@) =~= rest.insert(p as int, k as int));
        }
        k = k + 1;
    }
    order
}

/// The first of the first `n` keys that is greater than all before it and than the
/// least finite number, and that key; place 0 and the least finite number where
/// there is none.
pub open spec fn greatest(keys: Seq<Single>, n: nat) -> (int, Single)
    decreases n,
{
    if n == 0 {
        (0, Single { bits: LEAST })
    } else {
        let (i, best) = greatest(keys, (n - 1) as nat);
        if best.lt(keys[n - 1]) {
            (n - 1, keys[n - 1])
        } else {
            (i, best)
        }
    }
}

/// The first of the greatest keys, and the key itself.
pub fn greatest_of(keys: &[Single]) -> (res: (usize, Single))
    ensures
        (res.0 as int, res.1) == greatest(keys@, keys@.len()),
{
    let mut at: usize = 0;
    let mut best = Single::from_bits(LEAST);
    let mut i: usize = 0;
    while i < keys.len()
        invariant
            i <= keys@.len(),
            (at as int, best) == greatest(keys@, i as nat),
        decreases keys@.len() - i,
    {
        if best.less(keys[i]) {
            at = i;
            best = keys[i];
        }
        i = i + 1;
    }
    (at, best)
}

/// Where some key is greater than the least finite number, what is found is one of
/// the keys, no key is greater, and none before it is as great.
pub proof fn greatest_is_first_maximum(keys: Seq<Single>, n: nat)
    requires
        n <= keys.len(),
        forall|i: int| 0 <= i < keys.len() ==> !(#[trigger] keys[i]).nan(),
    ensures
        ({
            let (at, best) = greatest(keys, n);
            let least = Single { bits: LEAST };
            &&& !best.nan()
            &&& n > 0 ==> 0 <= at < n
            &&& forall|i: int| 0 <= i < n ==> !best.lt(#[trigger] keys[i])
            &&& (exists|i: int| 0 <= i < n && least.lt(#[trigger] keys[i])) ==> {
                &&& best == keys[at]
                &&& forall|i: int| 0 <= i < at ==> (#[trigger] keys[i]).lt(best)
            }
            &&& !(exists|i: int| 0 <= i < n && least.lt(#[trigger] keys[i])) ==> best == least
                && at == 0
        }),
    decreases n,
{
    if n > 0 {
        greatest_is_first_maximum(keys, (n - 1) as nat);
        let least = Single { bits: LEAST };
        assert(!keys[n - 1].nan());
        let (at0, best0) = greatest(keys, (n - 1) as nat);
        let (at, best) = greatest(keys, n);
        if best0.lt(keys[n - 1]) {
            assert forall|i: int| 0 <= i < at implies (#[trigger] keys[i]).lt(best) by {
                assert(!keys[i].nan());
                assert(!best0.lt(keys[i]));
            }
            if !(exists|i: int| 0 <= i < n - 1 && least.lt(#[trigger] keys[i])) {
                assert(best0 == least);
                assert(least.lt(keys[n - 1]));
            } else {
                let i = choose|i: int| 0 <= i < n - 1 && least.lt(#[trigger] keys[i]);
                assert(!best0.lt(keys[i]));
                assert(least.lt(keys[n - 1]));
            }
        } else {
            if exists|i: int| 0 <= i < n && least.lt(#[trigger] keys[i]) {
                let i = choose|i: int| 0 <= i < n && least.lt(#[trigger] keys[i]);
                if i == n - 1 && !(exists|i: int|
                    0 <= i < n - 1 && least.lt(#[trigger] keys[i])) {
                    assert(best0 == least);
                }
            }
        }
    }
}

/// A key that is no number never wins, and does not keep another from winning: what is found
/// is a number, no key is greater, and no key before it is the same.
pub proof fn only_numbers_win(keys: Seq<Single>, n: nat, i: int)
    requires
        n <= keys.len(),
    ensures
        ({
            let (at, best) = greatest(keys, n);
            &&& !best.nan()
            &&& 0 <= i < n ==> !best.lt(keys[i])
            &&& best == (Single { bits: 0xFF7F_FFFF }) && at == 0 || 0 <= at < n && best == keys[at]
            &&& 0 <= i < at ==> !best.same(keys[i])
        }),
    decreases n,
{
    if n > 0 {
        only_numbers_win(keys, (n - 1) as nat, i);
    }
}

} // verus!
