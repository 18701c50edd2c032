//! Validator sets and deterministic leader election.
//!
//! A validator set is an ordered sequence of (public key, stake) pairs,
//! strictly ascending by key so that bit positions in signature bitmaps are
//! stable.  The leader for a view is selected by mixing the chain's last
//! randomness with the view and walking the cumulative stakes, so that a
//! validator's chance is proportional to its stake.

use vstd::prelude::*;
use crate::crypto::{Pk, spec_mix, mix};

verus! {

/// A canonical validator set: strictly ascending keys, positive stakes.
pub open spec fn wf_validators(v: Seq<(Pk, i64)>) -> bool {
    &&& forall|i: int, j: int| 0 <= i < j < v.len() ==> v[i].0.val < v[j].0.val
    &&& forall|i: int| 0 <= i < v.len() ==> v[i].1 > 0
}

/// Total stake of the first `n` validators.
pub open spec fn total_stake_upto(v: Seq<(Pk, i64)>, n: int) -> int
    decreases n,
{
    if n <= 0 {
        0
    } else {
        total_stake_upto(v, n - 1) + v[n - 1].1
    }
}

/// Total stake of the whole set.
pub open spec fn total_stake(v: Seq<(Pk, i64)>) -> int {
    total_stake_upto(v, v.len() as int)
}

/// The key belongs to the validator set.
pub open spec fn is_validator_in(v: Seq<(Pk, i64)>, pk: Pk) -> bool {
    exists|i: int| 0 <= i < v.len() && v[i].0 == pk
}

/// Index of the validator whose cumulative stake interval contains the
/// ticket `t`.
pub open spec fn leader_index(v: Seq<(Pk, i64)>, t: int) -> int
    decreases v.len(),
{
    if v.len() == 0 {
        0
    } else if t < v[0].1 {
        0
    } else {
        1 + leader_index(v.drop_first(), t - v[0].1)
    }
}

/// The ticket drawn for `(random, view)` over a total stake.
pub open spec fn spec_ticket(random: u64, view: u32, total: int) -> int {
    (spec_mix(random, view as u64) as int) % total
}

/// The leader selected for `(random, view)`.
pub open spec fn spec_select_leader(v: Seq<(Pk, i64)>, random: u64, view: u32) -> Pk {
    v[leader_index(v, spec_ticket(random, view, total_stake(v)))].0
}

/// Cumulative stakes of a well-formed set are nonnegative.
proof fn lemma_total_stake_nonneg(v: Seq<(Pk, i64)>, n: int)
    requires
        wf_validators(v),
        0 <= n <= v.len(),
    ensures
        0 <= total_stake_upto(v, n),
    decreases n,
{
    if n > 0 {
        lemma_total_stake_nonneg(v, n - 1);
    }
}

/// Stakes are positive, so cumulative stakes grow and stay nonnegative.
pub proof fn lemma_total_stake_bounds(v: Seq<(Pk, i64)>, n: int)
    requires
        wf_validators(v),
        0 <= n <= v.len(),
    ensures
        0 <= total_stake_upto(v, n),
        total_stake_upto(v, n) <= total_stake(v),
        n < v.len() ==> total_stake_upto(v, n) < total_stake(v),
    decreases v.len() - n,
{
    lemma_total_stake_nonneg(v, n);
    if n == v.len() {
    } else {
        lemma_total_stake_bounds(v, n + 1);
    }
}

/// A ticket below the total stake lands on a validator.
pub proof fn lemma_leader_index_in_range(v: Seq<(Pk, i64)>, t: int)
    requires
        wf_validators(v),
        v.len() > 0,
        0 <= t < total_stake(v),
    ensures
        0 <= leader_index(v, t) < v.len(),
    decreases v.len(),
{
    if t < v[0].1 {
    } else {
        let d = v.drop_first();
        assert(forall|j: int| 0 <= j < d.len() ==> #[trigger] d[j] == v[j + 1]);
        assert(wf_validators(d));
        assert(total_stake_upto(d, d.len() as int) == total_stake(v) - v[0].1) by {
            lemma_total_stake_drop_first(v, v.len() as int);
        }
        assert(d.len() > 0) by {
            if d.len() == 0 {
                assert(total_stake(v) == v[0].1);
            }
        }
        lemma_leader_index_in_range(d, t - v[0].1);
    }
}

/// Cumulative stakes of the tail shift by the head's stake.
proof fn lemma_total_stake_drop_first(v: Seq<(Pk, i64)>, n: int)
    requires
        1 <= n <= v.len(),
    ensures
        total_stake_upto(v, n) == v[0].1 + total_stake_upto(v.drop_first(), n - 1),
    decreases n,
{
    if n == 1 {
        assert(total_stake_upto(v, 0) == 0);
        assert(total_stake_upto(v.drop_first(), 0) == 0);
    } else {
        lemma_total_stake_drop_first(v, n - 1);
        assert(v.drop_first()[n - 2] == v[n - 1]);
        assert(total_stake_upto(v.drop_first(), n - 1) == total_stake_upto(v.drop_first(), n - 2)
            + v.drop_first()[n - 2].1);
    }
}

/// The selected leader always belongs to the validator set.
pub proof fn lemma_select_leader_is_validator(v: Seq<(Pk, i64)>, random: u64, view: u32)
    requires
        wf_validators(v),
        v.len() > 0,
    ensures
        is_validator_in(v, spec_select_leader(v, random, view)),
{
    lemma_total_stake_bounds(v, 0);
    let total = total_stake(v);
    let t = spec_ticket(random, view, total);
    vstd::arithmetic::div_mod::lemma_mod_bound(spec_mix(random, view as u64) as int, total);
    lemma_leader_index_in_range(v, t);
    let i = leader_index(v, t);
    assert(v[i].0 == spec_select_leader(v, random, view));
}

/// Total stake of the first `n` validators.
#[verifier::loop_isolation(false)]
pub fn total_slots(validators: &Vec<(Pk, i64)>) -> (r: i64)
    requires
        wf_validators(validators@),
        total_stake(validators@) <= i64::MAX,
    ensures
        r == total_stake(validators@),
{
    let mut acc: i64 = 0;
    let mut i: usize = 0;
    while i < validators.len()
        invariant
            0 <= i <= validators@.len(),
            acc == total_stake_upto(validators@, i as int),
        decreases validators@.len() - i,
    {
        proof {
            lemma_total_stake_bounds(validators@, i as int);
            lemma_total_stake_bounds(validators@, i + 1);
        }
        acc = acc + validators[i].1;
        i += 1;
    }
    acc
}

/// Whether the key belongs to the validator set.
#[verifier::loop_isolation(false)]
pub fn is_validator(validators: &Vec<(Pk, i64)>, pk: &Pk) -> (r: bool)
    ensures
        r == is_validator_in(validators@, *pk),
{
    let mut i: usize = 0;
    while i < validators.len()
        invariant
            0 <= i <= validators@.len(),
            forall|j: int| 0 <= j < i ==> validators@[j].0 != *pk,
        decreases validators@.len() - i,
    {
        if validators[i].0.val == pk.val {
            assert(validators@[i as int].0 == *pk);
            return true;
        }
        i += 1;
    }
    false
}

/// Select the leader for a view: draw a ticket from the chain randomness
/// mixed with the view, and walk the cumulative stakes until the ticket's
/// owner is reached.
#[verifier::loop_isolation(false)]
pub fn select_leader(validators: &Vec<(Pk, i64)>, random: u64, view: u32) -> (r: Pk)
    requires
        wf_validators(validators@),
        validators@.len() > 0,
        total_stake(validators@) <= i64::MAX,
    ensures
        r == spec_select_leader(validators@, random, view),
        is_validator_in(validators@, r),
{
    let ghost v = validators@;
    let total = total_slots(validators);
    proof {
        lemma_total_stake_bounds(v, 0);
        lemma_total_stake_bounds(v, 1);
        assert(total > 0);
    }
    let m = mix(random, view as u64);
    let ticket = (m % (total as u64)) as i64;
    let ghost t = spec_ticket(random, view, total_stake(v));
    proof {
        assert(ticket == t);
        lemma_leader_index_in_range(v, t);
    }
    let ghost li = leader_index(v, t);
    proof {
        assert(v.skip(0) =~= v);
        assert(total_stake_upto(v, 0) == 0);
    }
    let mut acc: i64 = 0;
    let mut i: usize = 0;
    while i < validators.len()
        invariant
            0 <= i <= v.len(),
            acc == total_stake_upto(v, i as int),
            acc <= t,
            li == i + leader_index(v.skip(i as int), t - acc),
        decreases v.len() - i,
    {
        proof {
            lemma_total_stake_bounds(v, i as int);
            lemma_total_stake_bounds(v, i + 1);
            let sk = v.skip(i as int);
            assert(sk.len() > 0);
            assert(sk[0] == v[i as int]);
            assert(sk.drop_first() =~= v.skip(i + 1));
        }
        let stake = validators[i].1;
        if ticket < acc + stake {
            proof {
                assert(leader_index(v.skip(i as int), t - acc) == 0);
            }
            return validators[i].0;
        }
        acc = acc + stake;
        i += 1;
    }
    proof {
        lemma_total_stake_bounds(v, v.len() as int);
        assert(false);
    }
    validators[0].0
}

} // verus!
