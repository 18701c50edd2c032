//! BLS multi-signatures: aggregation, verification and merging.
//!
//! A multi-signature is a pair of an aggregated signature and a bitmap over
//! positions in the canonical validator set.  Aggregation sums individual
//! signatures; verification sums the public keys at the set bits, demands
//! the leader's bit, a stake-weighted supermajority, and the pairing check
//! of the aggregate.  The bitmap is the `bitvector` crate's `BitVector`,
//! held behind trusted wrappers.

use vstd::prelude::*;
use bitvector::BitVector;
use crate::config::WITNESSES_MAX;
use crate::crypto::{add_mod, sign_val, spec_check_hash, check_hash, sig_add, pk_add, Digest, Pk,
    Sig};
use crate::election::{wf_validators, total_stake, total_stake_upto, is_validator_in,
    lemma_total_stake_bounds};

verus! {

//
// Trusted view of bitvector::BitVector.
//

#[verifier::external_type_specification]
#[verifier::external_body]
pub struct ExBitVector(BitVector);

/// The set of bit indices stored in a bitmap.
pub uninterp spec fn bv_bits(bv: BitVector) -> Set<int>;

/// The number of bits a bitmap can address (a multiple of 64).
pub uninterp spec fn bv_capacity(bv: BitVector) -> int;

/// Relies on bitvector::BitVector::new: an empty bitmap able to address
/// `bits` positions (rounded up to whole 64-bit words).  The bound keeps
/// the crate's internal word count far from any overflow.
#[verifier::external_body]
pub(crate) fn bv_new(bits: usize) -> (r: BitVector)
    requires
        bits <= WITNESSES_MAX,
    ensures
        bv_bits(r) == Set::<int>::empty(),
        bv_capacity(r) == ((bits + 63) / 64) * 64,
{
    BitVector::new(bits)
}

/// Relies on bitvector::BitVector::insert: sets one bit, reports whether it
/// was clear, and does not grow while the bit is within capacity.
#[verifier::external_body]
pub(crate) fn bv_insert(bv: &mut BitVector, bit: usize) -> (r: bool)
    requires
        bit < bv_capacity(*old(bv)),
    ensures
        bv_bits(*final(bv)) == bv_bits(*old(bv)).insert(bit as int),
        bv_capacity(*final(bv)) == bv_capacity(*old(bv)),
        r == !bv_bits(*old(bv)).contains(bit as int),
{
    bv.insert(bit)
}

/// Relies on bitvector::BitVector::contains: tests one bit; positions at or
/// beyond the capacity are never stored.
#[verifier::external_body]
pub(crate) fn bv_contains(bv: &BitVector, bit: usize) -> (r: bool)
    ensures
        r == bv_bits(*bv).contains(bit as int),
{
    bv.contains(bit)
}

/// Relies on bitvector::BitVector::insert_all: unions another bitmap of the
/// same capacity into this one and reports whether any new bit appeared.
#[verifier::external_body]
pub(crate) fn bv_insert_all(bv: &mut BitVector, other: &BitVector) -> (r: bool)
    requires
        bv_capacity(*old(bv)) == bv_capacity(*other),
    ensures
        bv_bits(*final(bv)) == bv_bits(*old(bv)).union(bv_bits(*other)),
        bv_capacity(*final(bv)) == bv_capacity(*old(bv)),
        r == !bv_bits(*other).subset_of(bv_bits(*old(bv))),
{
    bv.insert_all(other)
}

/// Relies on bitvector::BitVector::capacity: the number of addressable bits.
#[verifier::external_body]
pub(crate) fn bv_capacity_of(bv: &BitVector) -> (r: usize)
    ensures
        r == bv_capacity(*bv),
{
    bv.capacity()
}

/// Relies on the derived bitvector::BitVector::clone: a deep copy with the
/// same bits and capacity.
#[verifier::external_body]
pub(crate) fn bv_clone(bv: &BitVector) -> (r: BitVector)
    ensures
        bv_bits(r) == bv_bits(*bv),
        bv_capacity(r) == bv_capacity(*bv),
{
    bv.clone()
}

//
// Specification of aggregation.
//

/// The signature map holds a signature for this key.
pub open spec fn has_key(sigs: Seq<(Pk, Sig)>, pk: Pk) -> bool {
    exists|j: int| 0 <= j < sigs.len() && sigs[j].0 == pk
}

/// The signature stored for a key.
pub open spec fn sig_for(sigs: Seq<(Pk, Sig)>, pk: Pk) -> Sig {
    let j = choose|j: int| 0 <= j < sigs.len() && sigs[j].0 == pk;
    sigs[j].1
}

/// No key occurs twice in the signature map.
pub open spec fn uniq_keys(sigs: Seq<(Pk, Sig)>) -> bool {
    forall|i: int, j: int| 0 <= i < j < sigs.len() ==> sigs[i].0 != sigs[j].0
}

/// Every signature in the map was made by this key over this digest.
pub open spec fn all_signed(h: Digest, sigs: Seq<(Pk, Sig)>) -> bool {
    forall|k: int| 0 <= k < sigs.len() ==> #[trigger] sigs[k].1.val == sign_val(
        h.bits,
        sigs[k].0.val,
    )
}

/// The bit positions of the validators that contributed a signature.
pub open spec fn bits_from(v: Seq<(Pk, i64)>, sigs: Seq<(Pk, Sig)>) -> Set<int> {
    Set::new(|b: int| 0 <= b < v.len() && has_key(sigs, v[b].0))
}

/// Aggregate of the signatures contributed by the first `n` validators.
pub open spec fn agg_sig_upto(v: Seq<(Pk, i64)>, sigs: Seq<(Pk, Sig)>, n: int) -> u64
    decreases n,
{
    if n <= 0 {
        0
    } else {
        let rest = agg_sig_upto(v, sigs, n - 1);
        if has_key(sigs, v[n - 1].0) {
            add_mod(rest, sig_for(sigs, v[n - 1].0).val)
        } else {
            rest
        }
    }
}

/// Aggregate of the public keys at the set bits among the first `n`.
pub open spec fn keysum_of_bits(v: Seq<(Pk, i64)>, bits: Set<int>, n: int) -> u64
    decreases n,
{
    if n <= 0 {
        0
    } else {
        let rest = keysum_of_bits(v, bits, n - 1);
        if bits.contains(n - 1) {
            add_mod(rest, v[n - 1].0.val)
        } else {
            rest
        }
    }
}

/// Stake held by the set bits among the first `n` validators.
pub open spec fn stake_of_bits(v: Seq<(Pk, i64)>, bits: Set<int>, n: int) -> int
    decreases n,
{
    if n <= 0 {
        0
    } else {
        let rest = stake_of_bits(v, bits, n - 1);
        if bits.contains(n - 1) {
            rest + v[n - 1].1
        } else {
            rest
        }
    }
}

/// A multi-signature (σ, B) is valid against a validator set, a leader and
/// a total stake when the leader's bit is set, the stake at the set bits is
/// a supermajority (at least two thirds of the total), and σ passes the
/// pairing check against the sum of the public keys at the set bits.
pub open spec fn spec_check_multi_signature(
    h: Digest,
    sig: Sig,
    bits: Set<int>,
    v: Seq<(Pk, i64)>,
    leader: Pk,
    total: int,
) -> bool {
    &&& exists|i: int| 0 <= i < v.len() && bits.contains(i) && v[i].0 == leader
    &&& 3 * stake_of_bits(v, bits, v.len() as int) >= 2 * total
    &&& spec_check_hash(h, sig, Pk { val: keysum_of_bits(v, bits, v.len() as int) })
}

/// Stake at set bits lies between zero and the cumulative stake.
pub proof fn lemma_stake_of_bits_bounds(v: Seq<(Pk, i64)>, bits: Set<int>, n: int)
    requires
        wf_validators(v),
        0 <= n <= v.len(),
    ensures
        0 <= stake_of_bits(v, bits, n),
        stake_of_bits(v, bits, n) <= total_stake_upto(v, n),
    decreases n,
{
    if n > 0 {
        lemma_stake_of_bits_bounds(v, bits, n - 1);
    }
}

//
// Executable aggregation.
//

/// A larger set of bits holds at least as much stake.
pub proof fn lemma_stake_of_bits_monotone(v: Seq<(Pk, i64)>, b1: Set<int>, b2: Set<int>, n: int)
    requires
        wf_validators(v),
        0 <= n <= v.len(),
        b1.subset_of(b2),
    ensures
        stake_of_bits(v, b1, n) <= stake_of_bits(v, b2, n),
    decreases n,
{
    if n > 0 {
        lemma_stake_of_bits_monotone(v, b1, b2, n - 1);
    }
}

/// The bit positions of the validators whose keys are listed.
pub open spec fn keys_bits(v: Seq<(Pk, i64)>, keys: Seq<Pk>) -> Set<int> {
    Set::new(|b: int| 0 <= b < v.len() && keys.contains(v[b].0))
}

/// Stake of the validators that contributed a signature.
#[verifier::loop_isolation(false)]
pub fn signed_stake(validators: &Vec<(Pk, i64)>, signatures: &Vec<(Pk, Sig)>) -> (r: i64)
    requires
        wf_validators(validators@),
        total_stake(validators@) <= i64::MAX,
        uniq_keys(signatures@),
    ensures
        r == stake_of_bits(
            validators@,
            bits_from(validators@, signatures@),
            validators@.len() as int,
        ),
{
    let ghost v = validators@;
    let ghost bits = bits_from(v, signatures@);
    let mut stake: i64 = 0;
    let mut bit: usize = 0;
    while bit < validators.len()
        invariant
            0 <= bit <= v.len(),
            stake == stake_of_bits(v, bits, bit as int),
        decreases v.len() - bit,
    {
        proof {
            lemma_stake_of_bits_bounds(v, bits, bit as int);
            lemma_stake_of_bits_bounds(v, bits, bit + 1);
            lemma_total_stake_bounds(v, bit + 1);
        }
        match lookup_sig(signatures, &validators[bit].0) {
            Some(_) => {
                proof {
                    assert(bits.contains(bit as int));
                }
                stake = stake + validators[bit].1;
            },
            None => {
                proof {
                    assert(!bits.contains(bit as int));
                }
            },
        }
        bit += 1;
    }
    stake
}

/// Stake of the validators whose keys are listed.
#[verifier::loop_isolation(false)]
pub fn keyed_stake(validators: &Vec<(Pk, i64)>, keys: &Vec<Pk>) -> (r: i64)
    requires
        wf_validators(validators@),
        total_stake(validators@) <= i64::MAX,
    ensures
        r == stake_of_bits(validators@, keys_bits(validators@, keys@), validators@.len() as int),
{
    let ghost v = validators@;
    let ghost bits = keys_bits(v, keys@);
    let mut stake: i64 = 0;
    let mut bit: usize = 0;
    while bit < validators.len()
        invariant
            0 <= bit <= v.len(),
            stake == stake_of_bits(v, bits, bit as int),
        decreases v.len() - bit,
    {
        proof {
            lemma_stake_of_bits_bounds(v, bits, bit as int);
            lemma_stake_of_bits_bounds(v, bits, bit + 1);
            lemma_total_stake_bounds(v, bit + 1);
        }
        if key_in(keys, &validators[bit].0) {
            proof {
                assert(bits.contains(bit as int));
            }
            stake = stake + validators[bit].1;
        } else {
            proof {
                assert(!bits.contains(bit as int));
            }
        }
        bit += 1;
    }
    stake
}

/// Whether a key is listed.
#[verifier::loop_isolation(false)]
pub fn key_in(keys: &Vec<Pk>, pk: &Pk) -> (r: bool)
    ensures
        r == keys@.contains(*pk),
{
    let mut i: usize = 0;
    while i < keys.len()
        invariant
            0 <= i <= keys@.len(),
            forall|j: int| 0 <= j < i ==> keys@[j] != *pk,
        decreases keys@.len() - i,
    {
        if keys[i].val == pk.val {
            assert(keys@[i as int] == *pk);
            return true;
        }
        i += 1;
    }
    false
}

/// Look a key up in the signature map.
#[verifier::loop_isolation(false)]
pub(crate) fn lookup_sig(signatures: &Vec<(Pk, Sig)>, pk: &Pk) -> (r: Option<Sig>)
    requires
        uniq_keys(signatures@),
    ensures
        match r {
            Some(s) => has_key(signatures@, *pk) && s == sig_for(signatures@, *pk),
            None => !has_key(signatures@, *pk),
        },
{
    let mut j: usize = 0;
    while j < signatures.len()
        invariant
            0 <= j <= signatures@.len(),
            forall|k: int| 0 <= k < j ==> signatures@[k].0 != *pk,
        decreases signatures@.len() - j,
    {
        if signatures[j].0.val == pk.val {
            proof {
                assert(signatures@[j as int].0 == *pk);
                let w = choose|w: int| 0 <= w < signatures@.len() && signatures@[w].0 == *pk;
                assert(w == j);
            }
            return Some(signatures[j].1);
        }
        j += 1;
    }
    None
}

/// Create a multi-signature from individual signatures.
///
/// Walks the validator set in canonical order; for every validator that
/// contributed a signature, folds the signature into the aggregate and sets
/// the validator's bit.  Every provided signature must belong to a
/// validator.
#[verifier::loop_isolation(false)]
pub fn create_multi_signature(witnesses: &Vec<(Pk, i64)>, signatures: &Vec<(Pk, Sig)>) -> (r: (
    Sig,
    BitVector,
))
    requires
        wf_validators(witnesses@),
        witnesses@.len() <= WITNESSES_MAX,
        uniq_keys(signatures@),
        forall|k: int|
            0 <= k < signatures@.len() ==> is_validator_in(witnesses@, #[trigger] signatures@[k].0),
    ensures
        r.0.val == agg_sig_upto(witnesses@, signatures@, witnesses@.len() as int),
        bv_bits(r.1) == bits_from(witnesses@, signatures@),
        bv_capacity(r.1) == WITNESSES_MAX,
{
    let ghost v = witnesses@;
    let ghost sigs = signatures@;
    let mut multisig = Sig { val: 0 };
    let mut multisigmap = bv_new(WITNESSES_MAX);
    let mut bit: usize = 0;
    proof {
        assert(bv_bits(multisigmap) =~= Set::new(
            |b: int| 0 <= b < 0 && has_key(sigs, v[b].0),
        ));
    }
    while bit < witnesses.len()
        invariant
            0 <= bit <= v.len(),
            multisig.val == agg_sig_upto(v, sigs, bit as int),
            bv_bits(multisigmap) == Set::new(
                |b: int| 0 <= b < bit && has_key(sigs, v[b].0),
            ),
            bv_capacity(multisigmap) == WITNESSES_MAX,
        decreases v.len() - bit,
    {
        let pkey = witnesses[bit].0;
        match lookup_sig(signatures, &pkey) {
            Some(sig) => {
                multisig = sig_add(&multisig, &sig);
                let ok = bv_insert(&mut multisigmap, bit);
                proof {
                    assert(bv_bits(multisigmap) =~= Set::new(
                        |b: int| 0 <= b < bit + 1 && has_key(sigs, v[b].0),
                    ));
                }
                assert(ok);
            },
            None => {
                proof {
                    assert(bv_bits(multisigmap) =~= Set::new(
                        |b: int| 0 <= b < bit + 1 && has_key(sigs, v[b].0),
                    ));
                }
            },
        }
        bit += 1;
    }
    proof {
        assert(bv_bits(multisigmap) =~= bits_from(v, sigs));
    }
    (multisig, multisigmap)
}

/// Check a multi-signature: the leader's bit must be set, the stake at the
/// set bits must reach a supermajority of `total_slots`, and the aggregate
/// must pass the pairing check against the sum of the set public keys.
#[verifier::loop_isolation(false)]
pub fn check_multi_signature(
    hash: &Digest,
    multisig: &Sig,
    multisigmap: &BitVector,
    witnesses: &Vec<(Pk, i64)>,
    leader: &Pk,
    total_slots: i64,
) -> (r: bool)
    requires
        wf_validators(witnesses@),
        total_stake(witnesses@) <= i64::MAX,
    ensures
        r == spec_check_multi_signature(
            *hash,
            *multisig,
            bv_bits(*multisigmap),
            witnesses@,
            *leader,
            total_slots as int,
        ),
{
    let ghost v = witnesses@;
    let ghost bits = bv_bits(*multisigmap);
    let mut has_leader = false;
    let mut multisigpkey = Pk { val: 0 };
    let mut stake: i64 = 0;
    let mut bit: usize = 0;
    while bit < witnesses.len()
        invariant
            0 <= bit <= v.len(),
            multisigpkey.val == keysum_of_bits(v, bits, bit as int),
            stake == stake_of_bits(v, bits, bit as int),
            has_leader == exists|j: int| 0 <= j < bit && bits.contains(j) && v[j].0 == *leader,
        decreases v.len() - bit,
    {
        if bv_contains(multisigmap, bit) {
            proof {
                lemma_stake_of_bits_bounds(v, bits, bit as int);
                lemma_stake_of_bits_bounds(v, bits, bit + 1);
                lemma_total_stake_bounds(v, bit + 1);
            }
            let pkey = witnesses[bit].0;
            if pkey.val == leader.val {
                proof {
                    assert(v[bit as int].0 == *leader);
                }
                has_leader = true;
            }
            multisigpkey = pk_add(&multisigpkey, &pkey);
            stake = stake + witnesses[bit].1;
        }
        bit += 1;
    }
    if !has_leader {
        return false;
    }
    let supermajority = 3 * (stake as i128) >= 2 * (total_slots as i128);
    if !supermajority {
        return false;
    }
    check_hash(hash, multisig, &multisigpkey)
}

/// Merge two multi-signatures over the same validator set.
///
/// If the second bitmap adds nothing, the first is kept; if the first is
/// contained in the second, the second replaces it; if the two are
/// disjoint, the signatures are added and the bitmaps united.  It is used
/// to fold a leader's proposal signature into a collected quorum.
pub fn merge_multi_signature(
    sig: &mut Sig,
    map: &mut BitVector,
    sig2: &Sig,
    map2: &BitVector,
)
    requires
        bv_capacity(*old(map)) == bv_capacity(*map2),
    ensures
        bv_capacity(*final(map)) == bv_capacity(*old(map)),
        bv_bits(*map2).subset_of(bv_bits(*old(map))) ==> *final(sig) == *old(sig) && bv_bits(
            *final(map),
        ) == bv_bits(*old(map)),
        !bv_bits(*map2).subset_of(bv_bits(*old(map))) && bv_bits(*old(map)).subset_of(
            bv_bits(*map2),
        ) ==> *final(sig) == *sig2 && bv_bits(*final(map)) == bv_bits(*map2),
        !bv_bits(*map2).subset_of(bv_bits(*old(map))) && !bv_bits(*old(map)).subset_of(
            bv_bits(*map2),
        ) ==> final(sig).val == add_mod(old(sig).val, sig2.val) && bv_bits(*final(map)) == bv_bits(
            *old(map),
        ).union(bv_bits(*map2)),
{
    let mut probe = bv_clone(map);
    let grew = bv_insert_all(&mut probe, map2);
    if !grew {
        // everything in the second is already counted
        return ;
    }
    let mut probe2 = bv_clone(map2);
    let grew2 = bv_insert_all(&mut probe2, map);
    if !grew2 {
        // the first is contained in the second: take the second whole
        *sig = *sig2;
        *map = bv_clone(map2);
        return ;
    }
    // disjoint contributions: add signatures, unite bitmaps
    *sig = sig_add(sig, sig2);
    let _ = bv_insert_all(map, map2);
}

//
// Laws of aggregation.
//

/// The aggregate of genuine signatures is the signature under the aggregate
/// key of the contributing validators.
proof fn lemma_agg_matches_keysum(h: Digest, v: Seq<(Pk, i64)>, sigs: Seq<(Pk, Sig)>, n: int)
    requires
        all_signed(h, sigs),
        0 <= n <= v.len(),
    ensures
        agg_sig_upto(v, sigs, n) == sign_val(h.bits, keysum_of_bits(v, bits_from(v, sigs), n)),
    decreases n,
{
    let bits = bits_from(v, sigs);
    if n == 0 {
        crate::crypto::lemma_sign_zero(h.bits);
    } else {
        lemma_agg_matches_keysum(h, v, sigs, n - 1);
        let pk = v[n - 1].0;
        if has_key(sigs, pk) {
            assert(bits.contains(n - 1));
            let j = choose|j: int| 0 <= j < sigs.len() && sigs[j].0 == pk;
            assert(sigs[j].1.val == sign_val(h.bits, pk.val));
            assert(sig_for(sigs, pk).val == sign_val(h.bits, pk.val));
            crate::crypto::lemma_sign_additive(
                h.bits,
                keysum_of_bits(v, bits, n - 1),
                pk.val,
            );
        } else {
            assert(!bits.contains(n - 1));
        }
    }
}

/// Round trip: a multi-signature created from genuine signatures of a
/// supermajority that includes the leader passes `check_multi_signature`
/// over the same validators, leader and digest.
pub proof fn lemma_create_then_check(
    h: Digest,
    v: Seq<(Pk, i64)>,
    sigs: Seq<(Pk, Sig)>,
    leader: Pk,
)
    requires
        wf_validators(v),
        all_signed(h, sigs),
        forall|k: int| 0 <= k < sigs.len() ==> is_validator_in(v, #[trigger] sigs[k].0),
        has_key(sigs, leader),
        is_validator_in(v, leader),
        3 * stake_of_bits(v, bits_from(v, sigs), v.len() as int) >= 2 * total_stake(v),
    ensures
        spec_check_multi_signature(
            h,
            Sig { val: agg_sig_upto(v, sigs, v.len() as int) },
            bits_from(v, sigs),
            v,
            leader,
            total_stake(v),
        ),
{
    let bits = bits_from(v, sigs);
    let i = choose|i: int| 0 <= i < v.len() && v[i].0 == leader;
    assert(bits.contains(i));
    lemma_agg_matches_keysum(h, v, sigs, v.len() as int);
}

} // verus!
