//! Model of the hashing and pairing-based signature primitives.
//!
//! Curve arithmetic is an external collaborator that the engine assumes
//! correct, so it is modeled here by plain 64-bit values: a digest is one
//! mixing word, a secret key is a scalar, a public key is the same scalar
//! (standing for `g2^sk`), and a signature over a digest `h` is `h * sk` in
//! the ring of integers modulo 2^64.  Addition modulo 2^64 stands for the
//! group addition of G1 and G2, which keeps the one algebraic fact the
//! consensus logic relies on: the sum of individual signatures verifies
//! against the sum of the corresponding public keys.

use vstd::prelude::*;
use vstd::arithmetic::div_mod::{lemma_add_mod_noop, lemma_mod_bound, lemma_mul_mod_noop_right};
use vstd::arithmetic::mul::{lemma_mul_basics, lemma_mul_is_distributive_add, lemma_mul_upper_bound};

verus! {

/// Order of the model group: values live in `[0, 2^64)`.
pub const GROUP_ORDER: u128 = 0x1_0000_0000_0000_0000;

/// Multiplier used by the canonical hasher (the 64-bit FNV prime).
pub const HASH_PRIME: u64 = 0x100000001b3;

/// Opaque 256-bit digest, modeled as a single mixing word.
#[derive(Clone, Copy, Debug, PartialEq, Eq, Structural)]
pub struct Digest {
    pub bits: u64,
}

/// Pairing public key (an element of G2), modeled by its scalar.
#[derive(Clone, Copy, Debug, PartialEq, Eq, Structural)]
pub struct Pk {
    pub val: u64,
}

/// Pairing secret key.
#[derive(Clone, Copy, Debug, PartialEq, Eq, Structural)]
pub struct Sk {
    pub val: u64,
}

/// Signature (an element of G1), modeled by its scalar.
#[derive(Clone, Copy, Debug, PartialEq, Eq, Structural)]
pub struct Sig {
    pub val: u64,
}

/// Addition in the model group.
#[verifier::opaque]
pub open spec fn add_mod(a: u64, b: u64) -> u64 {
    ((a + b) % (GROUP_ORDER as int)) as u64
}

/// Scalar multiplication in the model group.
#[verifier::opaque]
pub open spec fn mul_mod(a: u64, b: u64) -> u64 {
    ((a * b) % (GROUP_ORDER as int)) as u64
}

/// Subtraction in the model group.
#[verifier::opaque]
pub open spec fn sub_mod(a: u64, b: u64) -> u64 {
    ((a - b) % (GROUP_ORDER as int)) as u64
}

/// The signature scalar over digest `h` under key scalar `k`.
pub open spec fn sign_val(h: u64, k: u64) -> u64 {
    mul_mod(h, k)
}

/// One step of the canonical hasher.
#[verifier::opaque]
pub open spec fn spec_mix(state: u64, v: u64) -> u64 {
    ((state * HASH_PRIME + v) % (GROUP_ORDER as int)) as u64
}

/// Fold one word into a hasher state.
pub fn mix(state: u64, v: u64) -> (r: u64)
    ensures
        r == spec_mix(state, v),
{
    proof {
        reveal(spec_mix);
        lemma_mul_upper_bound(state as int, u64::MAX as int, HASH_PRIME as int, u64::MAX as int);
        lemma_mod_bound((state * HASH_PRIME + v) as int, GROUP_ORDER as int);
    }
    let wide: u128 = (state as u128) * (HASH_PRIME as u128) + (v as u128);
    (wide % GROUP_ORDER) as u64
}

impl Digest {
    /// Canonical digest of a single word.
    pub fn digest_u64(v: u64) -> (r: Digest)
        ensures
            r == (Digest { bits: spec_mix(0, v) }),
    {
        Digest { bits: mix(0, v) }
    }

    /// Canonical digest of a signed word, as the wallet hashes amounts.
    pub fn digest_i64(v: i64) -> (r: Digest)
        ensures
            r == (Digest { bits: spec_mix(0, v as u64) }),
    {
        Digest { bits: mix(0, v as u64) }
    }

}

impl Sk {
    /// The public key that corresponds to this secret key.
    pub open spec fn spec_pk(self) -> Pk {
        Pk { val: self.val }
    }

    /// Derive the public key of a secret key.
    pub fn pk(&self) -> (r: Pk)
        ensures
            r == self.spec_pk(),
    {
        Pk { val: self.val }
    }
}

/// Deterministically derive a keypair from a seed.
pub fn make_keys(seed: u64) -> (r: (Sk, Pk))
    ensures
        r.0 == (Sk { val: seed }),
        r.1 == (Sk { val: seed }).spec_pk(),
{
    let sk = Sk { val: seed };
    let pk = sk.pk();
    (sk, pk)
}

/// Sign a digest with a secret key.
pub fn sign_hash(hash: &Digest, skey: &Sk) -> (r: Sig)
    ensures
        r == (Sig { val: sign_val(hash.bits, skey.val) }),
{
    proof {
        reveal(mul_mod);
        lemma_mul_upper_bound(hash.bits as int, u64::MAX as int, skey.val as int, u64::MAX as int);
        lemma_mod_bound((hash.bits * skey.val) as int, GROUP_ORDER as int);
    }
    let wide: u128 = (hash.bits as u128) * (skey.val as u128);
    Sig { val: (wide % GROUP_ORDER) as u64 }
}

/// Whether `sig` is a valid signature over `hash` under `pkey`.
pub open spec fn spec_check_hash(hash: Digest, sig: Sig, pkey: Pk) -> bool {
    sig.val == sign_val(hash.bits, pkey.val)
}

/// Verify a signature over a digest; the pairing check of the model.
pub fn check_hash(hash: &Digest, sig: &Sig, pkey: &Pk) -> (r: bool)
    ensures
        r == spec_check_hash(*hash, *sig, *pkey),
{
    proof {
        reveal(mul_mod);
        lemma_mul_upper_bound(hash.bits as int, u64::MAX as int, pkey.val as int, u64::MAX as int);
        lemma_mod_bound((hash.bits * pkey.val) as int, GROUP_ORDER as int);
    }
    let wide: u128 = (hash.bits as u128) * (pkey.val as u128);
    sig.val == (wide % GROUP_ORDER) as u64
}

/// Add two G1 elements (aggregate signatures).
pub fn sig_add(a: &Sig, b: &Sig) -> (r: Sig)
    ensures
        r == (Sig { val: add_mod(a.val, b.val) }),
{
    proof {
        reveal(add_mod);
        lemma_mod_bound((a.val + b.val) as int, GROUP_ORDER as int);
    }
    let wide: u128 = (a.val as u128) + (b.val as u128);
    Sig { val: (wide % GROUP_ORDER) as u64 }
}

/// Subtract one G1 element from another.
pub fn sig_sub(a: &Sig, b: &Sig) -> (r: Sig)
    ensures
        r == (Sig { val: sub_mod(a.val, b.val) }),
{
    let m = GROUP_ORDER;
    proof {
        reveal(sub_mod);
        lemma_mod_bound((a.val - b.val) as int, GROUP_ORDER as int);
        if a.val >= b.val {
            vstd::arithmetic::div_mod::lemma_small_mod(
                (a.val - b.val) as nat,
                GROUP_ORDER as nat,
            );
        } else {
            vstd::arithmetic::div_mod::lemma_mod_multiples_vanish(
                1,
                (a.val - b.val) as int,
                GROUP_ORDER as int,
            );
            vstd::arithmetic::div_mod::lemma_small_mod(
                (a.val - b.val + GROUP_ORDER) as nat,
                GROUP_ORDER as nat,
            );
        }
    }
    if a.val >= b.val {
        Sig { val: a.val - b.val }
    } else {
        let wide: u128 = (a.val as u128) + m - (b.val as u128);
        Sig { val: wide as u64 }
    }
}

/// Add two G2 elements (aggregate public keys).
pub fn pk_add(a: &Pk, b: &Pk) -> (r: Pk)
    ensures
        r == (Pk { val: add_mod(a.val, b.val) }),
{
    proof {
        reveal(add_mod);
        lemma_mod_bound((a.val + b.val) as int, GROUP_ORDER as int);
    }
    let wide: u128 = (a.val as u128) + (b.val as u128);
    Pk { val: (wide % GROUP_ORDER) as u64 }
}

/// Signing is additive: the aggregate of two signatures over the same digest
/// is the signature under the aggregate key.
pub proof fn lemma_sign_additive(h: u64, a: u64, b: u64)
    ensures
        add_mod(sign_val(h, a), sign_val(h, b)) == sign_val(h, add_mod(a, b)),
{
    let m = GROUP_ORDER as int;
    reveal(add_mod);
    reveal(mul_mod);
    lemma_mod_bound((a + b) as int, m);
    lemma_mod_bound((h * a) as int, m);
    lemma_mod_bound((h * b) as int, m);
    lemma_mod_bound((h * (a + b)) as int, m);
    lemma_mul_mod_noop_right(h as int, (a + b) as int, m);
    lemma_mul_is_distributive_add(h as int, a as int, b as int);
    lemma_add_mod_noop((h * a) as int, (h * b) as int, m);
}

/// The zero element is neutral for signing: the signature of the zero key is
/// the zero G1 element.
pub proof fn lemma_sign_zero(h: u64)
    ensures
        sign_val(h, 0) == 0,
{
    reveal(mul_mod);
    lemma_mul_basics(h as int);
}

} // verus!
