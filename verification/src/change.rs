//! Coin selection for the wallet.
//!
//! `find_utxo` picks unspent outputs that cover a requested amount plus a
//! fee.  It prefers a single output of exactly the right amount, then an
//! exact greedy cover without change, and otherwise pays the higher
//! change-bearing fee and returns the overshoot as change.

use vstd::prelude::*;
use vstd::seq_lib::lemma_multiset_commutative;
use crate::error::WalletError;

verus! {

/// The amounts of a sequence of (output, amount) pairs.
pub open spec fn amounts_of<T>(s: Seq<(T, i64)>) -> Seq<int> {
    s.map_values(|p: (T, i64)| p.1 as int)
}

/// The outputs of a sequence of (output, amount) pairs.
pub open spec fn picks_of<T>(s: Seq<(T, i64)>) -> Seq<T> {
    s.map_values(|p: (T, i64)| p.0)
}

/// Sum of a sequence of integers.
pub open spec fn sum_of(s: Seq<int>) -> int
    decreases s.len(),
{
    if s.len() == 0 {
        0
    } else {
        s[0] + sum_of(s.drop_first())
    }
}

/// Every element is nonnegative.
pub open spec fn nonneg(s: Seq<int>) -> bool {
    forall|i: int| 0 <= i < s.len() ==> s[i] >= 0
}

/// The sequence is in ascending order.
pub open spec fn ascending(s: Seq<int>) -> bool {
    forall|i: int, j: int| 0 <= i <= j < s.len() ==> s[i] <= s[j]
}

/// Insert `x` into an ascending sequence, keeping the order.
pub open spec fn insert_asc(x: int, s: Seq<int>) -> Seq<int>
    decreases s.len(),
{
    if s.len() == 0 {
        seq![x]
    } else if x <= s[0] {
        seq![x] + s
    } else {
        seq![s[0]] + insert_asc(x, s.drop_first())
    }
}

/// Sort a sequence ascending by repeated insertion.
pub open spec fn sort_asc(s: Seq<int>) -> Seq<int>
    decreases s.len(),
{
    if s.len() == 0 {
        Seq::empty()
    } else {
        insert_asc(s.last(), sort_asc(s.drop_last()))
    }
}

/// How many leading elements the greedy pass consumes before the running
/// total reaches `target`.  It always consumes at least one element when any
/// are left, as the pass subtracts before it tests.
pub open spec fn greedy_take(s: Seq<int>, target: int) -> int
    decreases s.len(),
{
    if s.len() == 0 {
        0
    } else if s[0] >= target {
        1
    } else {
        1 + greedy_take(s.drop_first(), target - s[0])
    }
}

/// Index of the first pair whose amount is `v`, or -1 if none.
pub open spec fn find_amount<T>(s: Seq<(T, i64)>, v: int) -> int
    decreases s.len(),
{
    if s.len() == 0 {
        -1
    } else if s[0].1 == v {
        0
    } else if find_amount(s.drop_first(), v) < 0 {
        -1
    } else {
        1 + find_amount(s.drop_first(), v)
    }
}

/// `spent` lists the outputs of some sub-multiset of `u` whose amounts,
/// in order, are `amts`.
pub open spec fn selection_of<T>(u: Seq<(T, i64)>, spent: Seq<T>, amts: Seq<int>) -> bool {
    exists|sel: Seq<(T, i64)>|
        #[trigger] sel.to_multiset().subset_of(u.to_multiset()) && picks_of(sel) == spent
            && amounts_of(sel) == amts
}

/// What a successful coin selection returns, by case: the first output of
/// exactly `sum + fee`; else the greedy cover when it lands exactly on
/// `sum + fee` (no change, low fee); else the greedy cover of
/// `sum + fee_change` with the overshoot returned as change.
pub open spec fn find_utxo_ok<T>(
    u: Seq<(T, i64)>,
    sum: int,
    fee: int,
    fee_change: int,
    spent: Seq<T>,
    fee_used: int,
    change: int,
) -> bool {
    let t1 = sum + fee;
    let srt = sort_asc(amounts_of(u));
    let idx = find_amount(u, t1);
    if idx >= 0 {
        spent == seq![u[idx].0] && fee_used == fee && change == 0
    } else {
        let k1 = greedy_take(srt, t1);
        if sum_of(srt.take(k1)) == t1 {
            selection_of(u, spent, srt.take(k1)) && fee_used == fee && change == 0
        } else {
            let t2 = sum + fee_change;
            let k2 = greedy_take(srt, t2);
            sum_of(srt.take(k2)) >= t2 && selection_of(u, spent, srt.take(k2)) && fee_used
                == fee_change && change == sum_of(srt.take(k2)) - t2
        }
    }
}

/// Exactly when coin selection fails: no single output matches `sum + fee`,
/// the greedy pass does not land exactly on `sum + fee`, and all outputs
/// together cannot cover `sum + fee_change`.
pub open spec fn find_utxo_err<T>(u: Seq<(T, i64)>, sum: int, fee: int, fee_change: int) -> bool {
    let t1 = sum + fee;
    let srt = sort_asc(amounts_of(u));
    &&& find_amount(u, t1) < 0
    &&& sum_of(srt.take(greedy_take(srt, t1))) != t1
    &&& sum_of(amounts_of(u)) < sum + fee_change
}

/// The sum of a one-element sequence is that element.
pub proof fn lemma_sum_singleton(x: int)
    ensures
        sum_of(seq![x]) == x,
{
    assert(seq![x].drop_first() =~= Seq::<int>::empty());
    assert(seq![x][0] == x);
    assert(sum_of(Seq::<int>::empty()) == 0);
}

/// Appending an element adds its value to the sum.
pub proof fn lemma_sum_push(s: Seq<int>, x: int)
    ensures
        sum_of(s.push(x)) == sum_of(s) + x,
    decreases s.len(),
{
    if s.len() == 0 {
        assert(s.push(x) =~= seq![x]);
        lemma_sum_singleton(x);
    } else {
        assert(s.push(x).drop_first() =~= s.drop_first().push(x));
        assert(s.push(x)[0] == s[0]);
        lemma_sum_push(s.drop_first(), x);
    }
}

/// The sum of a nonnegative sequence is nonnegative.
pub proof fn lemma_sum_nonneg(s: Seq<int>)
    requires
        nonneg(s),
    ensures
        sum_of(s) >= 0,
    decreases s.len(),
{
    if s.len() > 0 {
        assert(nonneg(s.drop_first())) by {
            assert(forall|j: int|
                0 <= j < s.drop_first().len() ==> #[trigger] s.drop_first()[j] == s[j + 1]);
        }
        lemma_sum_nonneg(s.drop_first());
    }
}

/// The sum of one more leading element grows by that element.
pub proof fn lemma_sum_take_succ(s: Seq<int>, k: int)
    requires
        0 <= k < s.len(),
    ensures
        sum_of(s.take(k + 1)) == sum_of(s.take(k)) + s[k],
{
    assert(s.take(k + 1) =~= s.take(k).push(s[k]));
    lemma_sum_push(s.take(k), s[k]);
}

/// Leading sums of a nonnegative sequence lie between zero and the total.
pub proof fn lemma_sum_take_bounds(s: Seq<int>, k: int)
    requires
        nonneg(s),
        0 <= k <= s.len(),
    ensures
        0 <= sum_of(s.take(k)),
        sum_of(s.take(k)) <= sum_of(s),
    decreases s.len() - k,
{
    assert(nonneg(s.take(k))) by {
        assert(forall|j: int| 0 <= j < k ==> #[trigger] s.take(k)[j] == s[j]);
    }
    lemma_sum_nonneg(s.take(k));
    if k == s.len() {
        assert(s.take(k) =~= s);
    } else {
        lemma_sum_take_succ(s, k);
        lemma_sum_take_bounds(s, k + 1);
    }
}

/// Inserting in order adds the value to the sum, keeps the order and the
/// sign, grows the length by one, and adds the value to the multiset.
pub proof fn lemma_insert_asc_props(x: int, s: Seq<int>)
    requires
        ascending(s),
    ensures
        insert_asc(x, s).len() == s.len() + 1,
        sum_of(insert_asc(x, s)) == x + sum_of(s),
        ascending(insert_asc(x, s)),
        insert_asc(x, s).to_multiset() == s.to_multiset().insert(x),
        nonneg(s) && x >= 0 ==> nonneg(insert_asc(x, s)),
    decreases s.len(),
{
    broadcast use vstd::seq_lib::group_to_multiset_ensures;
    broadcast use vstd::multiset::group_multiset_axioms;

    if s.len() == 0 {
        let r = seq![x];
        assert(r =~= Seq::<int>::empty().push(x));
        assert(r.to_multiset() =~= s.to_multiset().insert(x));
        lemma_sum_singleton(x);
    } else if x <= s[0] {
        let r = seq![x] + s;
        assert(r.drop_first() =~= s);
        assert(sum_of(r) == x + sum_of(s));
        lemma_multiset_commutative(seq![x], s);
        assert(seq![x] =~= Seq::<int>::empty().push(x));
        assert(r.to_multiset() =~= s.to_multiset().insert(x));
    } else {
        let d = s.drop_first();
        lemma_insert_asc_props(x, d);
        let rest = insert_asc(x, d);
        let r = seq![s[0]] + rest;
        assert(r.drop_first() =~= rest);
        assert(sum_of(r) == s[0] + sum_of(rest));
        assert(sum_of(s) == s[0] + sum_of(d));
        // every element of rest is x or an element of d, hence at least s[0]
        assert(forall|i: int| 0 <= i < rest.len() ==> s[0] <= #[trigger] rest[i]) by {
            assert(forall|i: int|
                0 <= i < rest.len() ==> rest.to_multiset().count(#[trigger] rest[i]) > 0);
            assert(forall|i: int|
                0 <= i < rest.len() && rest[i] != x ==> d.to_multiset().count(
                    #[trigger] rest[i],
                ) > 0);
            assert(forall|i: int| 0 <= i < rest.len() && rest[i] != x ==> d.contains(
                #[trigger] rest[i],
            ));
        }
        assert(ascending(r)) by {
            assert(forall|i: int| 1 <= i < r.len() ==> r[i] == #[trigger] rest[i - 1]);
        }
        lemma_multiset_commutative(seq![s[0]], rest);
        lemma_multiset_commutative(seq![s[0]], d);
        assert(seq![s[0]] + d =~= s);
        assert(r.to_multiset() =~= s.to_multiset().insert(x));
    }
}

/// Sorting keeps the length, the sum, the sign and the multiset, and yields
/// an ascending sequence.
pub proof fn lemma_sort_asc_props(s: Seq<int>)
    ensures
        sort_asc(s).len() == s.len(),
        sum_of(sort_asc(s)) == sum_of(s),
        ascending(sort_asc(s)),
        sort_asc(s).to_multiset() == s.to_multiset(),
        nonneg(s) ==> nonneg(sort_asc(s)),
    decreases s.len(),
{
    broadcast use vstd::seq_lib::group_to_multiset_ensures;

    if s.len() == 0 {
    } else {
        let d = s.drop_last();
        lemma_sort_asc_props(d);
        lemma_insert_asc_props(s.last(), sort_asc(d));
        assert(s =~= d.push(s.last()));
        lemma_sum_push(d, s.last());
        assert(s.to_multiset() =~= d.to_multiset().insert(s.last()));
        assert(nonneg(s) ==> nonneg(d) && s.last() >= 0);
    }
}

/// A prefix of a sequence is a sub-multiset of it.
pub proof fn lemma_take_submultiset<T>(s: Seq<T>, k: int)
    requires
        0 <= k <= s.len(),
    ensures
        s.take(k).to_multiset().subset_of(s.to_multiset()),
{
    broadcast use vstd::multiset::group_multiset_axioms;

    assert(s =~= s.take(k) + s.skip(k));
    lemma_multiset_commutative(s.take(k), s.skip(k));
}

/// What `find_amount` returns: the least index holding the amount, or -1
/// when no pair holds it.
pub proof fn lemma_find_amount_props<T>(s: Seq<(T, i64)>, v: int)
    ensures
        find_amount(s, v) >= 0 ==> 0 <= find_amount(s, v) < s.len() && s[find_amount(s, v)].1 == v
            && (forall|j: int| 0 <= j < find_amount(s, v) ==> s[j].1 != v),
        find_amount(s, v) < 0 ==> forall|j: int| 0 <= j < s.len() ==> s[j].1 != v,
    decreases s.len(),
{
    if s.len() == 0 {
    } else if s[0].1 == v {
    } else {
        let d = s.drop_first();
        lemma_find_amount_props(d, v);
        let f = find_amount(s, v);
        if f >= 0 {
            assert(s[f] == d[f - 1]);
            assert forall|j: int| 0 <= j < f implies s[j].1 != v by {
                if j >= 1 {
                    assert(s[j] == d[j - 1]);
                }
            }
        } else {
            assert forall|j: int| 0 <= j < s.len() implies s[j].1 != v by {
                if j >= 1 {
                    assert(s[j] == d[j - 1]);
                }
            }
        }
    }
}

/// The greedy pass covers its target exactly when the whole sequence does.
pub proof fn lemma_greedy_covers(s: Seq<int>, target: int)
    requires
        nonneg(s),
    ensures
        0 <= greedy_take(s, target) <= s.len(),
        sum_of(s.take(greedy_take(s, target))) >= target <==> sum_of(s) >= target,
    decreases s.len(),
{
    if s.len() == 0 {
        assert(s.take(0) =~= s);
    } else if s[0] >= target {
        assert(s.take(1) =~= seq![s[0]]);
        lemma_sum_singleton(s[0]);
        lemma_sum_take_bounds(s, 1);
    } else {
        let d = s.drop_first();
        assert(nonneg(d)) by {
            assert(forall|j: int| 0 <= j < d.len() ==> #[trigger] d[j] == s[j + 1]);
        }
        lemma_greedy_covers(d, target - s[0]);
        let k = greedy_take(d, target - s[0]);
        assert(s.take(1 + k) =~= seq![s[0]] + d.take(k));
        assert((seq![s[0]] + d.take(k)).drop_first() =~= d.take(k));
        assert((seq![s[0]] + d.take(k))[0] == s[0]);
        assert(sum_of(s.take(1 + k)) == s[0] + sum_of(d.take(k)));
        assert(sum_of(s) == s[0] + sum_of(d));
    }
}

/// Insertion at the first position whose element is not below `x` realizes
/// the recursive `insert_asc`.
proof fn lemma_insert_asc_at(x: int, s: Seq<int>, j: int)
    requires
        ascending(s),
        0 <= j <= s.len(),
        forall|k: int| 0 <= k < j ==> s[k] < x,
        j < s.len() ==> x <= s[j],
    ensures
        insert_asc(x, s) == s.take(j) + seq![x] + s.skip(j),
    decreases j,
{
    if j == 0 {
        assert(insert_asc(x, s) =~= s.take(0) + seq![x] + s.skip(0));
    } else {
        let d = s.drop_first();
        assert(forall|k: int| 0 <= k < d.len() ==> #[trigger] d[k] == s[k + 1]);
        lemma_insert_asc_at(x, d, j - 1);
        assert(s[0] < x);
        assert(insert_asc(x, s) == seq![s[0]] + insert_asc(x, d));
        assert(seq![s[0]] + (d.take(j - 1) + seq![x] + d.skip(j - 1)) =~= s.take(j) + seq![x]
            + s.skip(j));
    }
}

/// One greedy pass: consume ascending outputs until the running remainder
/// reaches zero.  Returns the picked outputs, the final remainder (positive
/// when the outputs ran out first), and the count consumed.
fn greedy_cover<T: Copy>(sorted: &Vec<(T, i64)>, target: i64, Ghost(u): Ghost<Seq<(T, i64)>>) -> (r:
    (Vec<T>, i64, Ghost<int>))
    requires
        target >= 0,
        nonneg(amounts_of(sorted@)),
        sum_of(amounts_of(sorted@)) <= i64::MAX,
        amounts_of(sorted@) == sort_asc(amounts_of(u)),
        sorted@.to_multiset() == u.to_multiset(),
    ensures
        ({
            let srt = sort_asc(amounts_of(u));
            &&& r.2@ == greedy_take(srt, target as int)
            &&& 0 <= r.2@ <= srt.len()
            &&& r.1 == target - sum_of(srt.take(r.2@))
            &&& selection_of(u, r.0@, srt.take(r.2@))
        }),
{
    let ghost srt = sort_asc(amounts_of(u));
    let ghost gt = greedy_take(srt, target as int);
    let mut spent: Vec<T> = Vec::new();
    let mut change: i64 = target;
    let mut k: usize = 0;
    proof {
        assert(srt.skip(0) =~= srt);
        assert(srt.take(0) =~= Seq::<int>::empty());
        assert(spent@ =~= picks_of(sorted@.take(0)));
    }
    while k < sorted.len()
        invariant_except_break
            0 <= k <= sorted@.len(),
            amounts_of(sorted@) == srt,
            nonneg(srt),
            sum_of(srt) <= i64::MAX,
            target >= 0,
            change == target - sum_of(srt.take(k as int)),
            k > 0 ==> change > 0,
            gt == k + greedy_take(srt.skip(k as int), change as int),
            spent@ == picks_of(sorted@.take(k as int)),
        ensures
            k == gt,
            k <= sorted@.len(),
            change == target - sum_of(srt.take(k as int)),
            spent@ == picks_of(sorted@.take(k as int)),
        decreases sorted@.len() - k,
    {
        let a = sorted[k].1;
        proof {
            assert(srt[k as int] == a);
            lemma_sum_take_bounds(srt, k as int);
            lemma_sum_take_succ(srt, k as int);
            lemma_sum_take_bounds(srt, k + 1);
            let sk = srt.skip(k as int);
            assert(sk.len() > 0);
            assert(sk[0] == a);
            assert(sk.drop_first() =~= srt.skip(k + 1));
        }
        change = change - a;
        spent.push(sorted[k].0);
        proof {
            assert(sorted@.take(k + 1) =~= sorted@.take(k as int).push(sorted@[k as int]));
            assert(spent@ =~= picks_of(sorted@.take(k + 1)));
        }
        k += 1;
        if change <= 0 {
            break;
        }
    }
    proof {
        if k == sorted@.len() {
            assert(srt.skip(k as int) =~= Seq::<int>::empty());
        }
        lemma_take_submultiset(sorted@, k as int);
        let sel = sorted@.take(k as int);
        assert(amounts_of(sel) =~= srt.take(k as int));
        assert(sel.to_multiset().subset_of(u.to_multiset()));
        assert(selection_of(u, spent@, srt.take(k as int)));
    }
    (spent, change, Ghost(k as int))
}

/// Find outputs covering `sum` plus a fee.
///
/// Tries three strategies in order: a single output of exactly `sum + fee`;
/// a greedy ascending cover that lands exactly on `sum + fee` (fee without
/// change); and a greedy ascending cover of `sum + fee_change`, returning
/// the overshoot as change.  Fails only when all outputs together cannot
/// cover `sum + fee_change`.
#[verifier::loop_isolation(false)]
pub fn find_utxo<T: Copy>(unspent: &Vec<(T, i64)>, sum: i64, fee: i64, fee_change: i64) -> (r:
    Result<(Vec<T>, i64, i64), WalletError>)
    requires
        sum >= 0,
        fee >= 0,
        fee_change >= 0,
        nonneg(amounts_of(unspent@)),
        sum_of(amounts_of(unspent@)) <= i64::MAX,
        sum + fee <= i64::MAX,
        sum + fee_change <= i64::MAX,
    ensures
        match r {
            Ok((spent, fee_used, change)) => {
                &&& find_utxo_ok(
                    unspent@,
                    sum as int,
                    fee as int,
                    fee_change as int,
                    spent@,
                    fee_used as int,
                    change as int,
                )
                &&& change >= 0
                &&& fee_used == fee || fee_used == fee_change
                &&& fee_used == fee && fee != fee_change ==> change == 0
                &&& !find_utxo_err(unspent@, sum as int, fee as int, fee_change as int)
            },
            Err(e) => e == WalletError::NotEnoughMoney && find_utxo_err(
                unspent@,
                sum as int,
                fee as int,
                fee_change as int,
            ),
        },
{
    let ghost u = unspent@;
    let ghost amts = amounts_of(u);
    let t1 = sum + fee;

    // A single output of exactly the right amount.
    let mut i: usize = 0;
    while i < unspent.len()
        invariant
            0 <= i <= u.len(),
            u == unspent@,
            t1 == sum + fee,
            forall|j: int| 0 <= j < i ==> u[j].1 != t1,
        decreases u.len() - i,
    {
        if unspent[i].1 == t1 {
            proof {
                lemma_find_amount_props(u, t1 as int);
                let f = find_amount(u, t1 as int);
                if f < 0 {
                    assert(u[i as int].1 != t1);
                }
                if 0 <= f < i {
                    assert(u[f].1 != t1);
                }
                if f > i {
                    assert(u[i as int].1 != t1);
                }
                assert(f == i);
            }
            let mut spent: Vec<T> = Vec::new();
            spent.push(unspent[i].0);
            proof {
                assert(spent@ =~= seq![u[find_amount(u, t1 as int)].0]);
            }
            return Ok((spent, fee, 0i64));
        }
        i += 1;
    }
    proof {
        lemma_find_amount_props(u, t1 as int);
        let f = find_amount(u, t1 as int);
        if f >= 0 {
            assert(u[f].1 != t1);
        }
        assert(f < 0);
    }

    // Sort ascending to eliminate as many small outputs as possible.
    let mut sorted: Vec<(T, i64)> = Vec::new();
    let mut i: usize = 0;
    proof {
        assert(amounts_of(sorted@) =~= Seq::<int>::empty());
        assert(amounts_of(u.take(0)) =~= Seq::<int>::empty());
        assert(sorted@ =~= u.take(0));
    }
    while i < unspent.len()
        invariant
            0 <= i <= u.len(),
            u == unspent@,
            amounts_of(sorted@) == sort_asc(amounts_of(u.take(i as int))),
            sorted@.to_multiset() == u.take(i as int).to_multiset(),
        decreases u.len() - i,
    {
        broadcast use vstd::seq_lib::group_to_multiset_ensures;

        let x = unspent[i];
        let ghost prev = sorted@;
        let ghost pamts = amounts_of(prev);
        proof {
            lemma_sort_asc_props(amounts_of(u.take(i as int)));
        }
        let mut j: usize = 0;
        while j < sorted.len() && sorted[j].1 < x.1
            invariant
                0 <= j <= sorted@.len(),
                forall|k: int| 0 <= k < j ==> #[trigger] pamts[k] < x.1,
            decreases sorted@.len() - j,
        {
            proof {
                assert(pamts[j as int] == prev[j as int].1);
            }
            j += 1;
        }
        proof {
            if j < sorted.len() {
                assert(pamts[j as int] == prev[j as int].1);
            }
        }
        sorted.insert(j, x);
        proof {
            lemma_insert_asc_at(x.1 as int, pamts, j as int);
            lemma_insert_asc_props(x.1 as int, pamts);
            assert(sorted@ =~= prev.take(j as int) + seq![x] + prev.skip(j as int));
            assert(amounts_of(sorted@) =~= pamts.take(j as int) + seq![x.1 as int] + pamts.skip(
                j as int,
            ));
            assert(amounts_of(sorted@) == insert_asc(x.1 as int, pamts));
            let a2 = amounts_of(u.take(i + 1));
            assert(a2.drop_last() =~= amounts_of(u.take(i as int)));
            assert(a2.last() == x.1);
            assert(sort_asc(a2) == insert_asc(x.1 as int, sort_asc(amounts_of(u.take(i as int)))));
            // the multiset gains the new pair on both sides
            assert(sorted@.to_multiset() =~= prev.to_multiset().insert(x)) by {
                assert(sorted@ =~= prev.take(j as int) + (seq![x] + prev.skip(j as int)));
                lemma_multiset_commutative(prev.take(j as int), seq![x] + prev.skip(j as int));
                lemma_multiset_commutative(seq![x], prev.skip(j as int));
                lemma_multiset_commutative(prev.take(j as int), prev.skip(j as int));
                assert(prev.take(j as int) + prev.skip(j as int) =~= prev);
                assert(seq![x] =~= Seq::<(T, i64)>::empty().push(x));
                broadcast use vstd::multiset::group_multiset_axioms;
            }
            assert(u.take(i + 1) =~= u.take(i as int).push(u[i as int]));
            assert(u.take(i + 1).to_multiset() =~= u.take(i as int).to_multiset().insert(
                u[i as int],
            ));
        }
        i += 1;
    }
    proof {
        assert(u.take(u.len() as int) =~= u);
        lemma_sort_asc_props(amts);
    }
    let ghost srt = sort_asc(amts);

    // Greedy pass aiming at an exact cover, fee without change.
    let (spent, change, Ghost(k1)) = greedy_cover(&sorted, t1, Ghost(u));
    if change == 0 {
        return Ok((spent, fee, 0i64));
    }

    // Greedy pass paying the change-bearing fee.
    let t2 = sum + fee_change;
    let (spent, change, Ghost(k2)) = greedy_cover(&sorted, t2, Ghost(u));
    proof {
        lemma_greedy_covers(srt, t2 as int);
        lemma_sum_take_bounds(srt, k2);
    }
    if change > 0 {
        return Err(WalletError::NotEnoughMoney);
    }
    Ok((spent, fee_change, -change))
}

} // verus!
