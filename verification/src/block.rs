//! Block structures: the shared header, micro and macro blocks, and the
//! compact chain-tip witness.
//!
//! Block digests cover the header, the producer key and the content, and
//! leave out the signature fields: a leader signs the digest of its micro
//! block, and a macro block's multi-signature signs the block digest, so
//! neither can be part of what is signed.

use vstd::prelude::*;
use bitvector::BitVector;
use crate::config::WITNESSES_MAX;
use crate::crypto::{spec_mix, mix, sign_hash, Digest, Pk, Sig, Sk, sign_val};
use crate::multisignature::{bv_new, bv_clone, bv_bits, bv_capacity};
use crate::tx::{Transaction, tx_eq, clone_transaction, spec_hash_transaction, hash_transaction};

verus! {

/// The header shared by both block flavors.
#[derive(Clone, Copy, Debug, PartialEq, Eq, Structural)]
pub struct BaseBlockHeader {
    pub version: u64,
    pub previous: Digest,
    pub height: u64,
    pub view_change: u32,
    pub timestamp: u64,
    pub random: u64,
}

impl BaseBlockHeader {
    /// Assemble a header.
    pub fn new(
        version: u64,
        previous: Digest,
        height: u64,
        view_change: u32,
        timestamp: u64,
        random: u64,
    ) -> (r: BaseBlockHeader)
        ensures
            r == (BaseBlockHeader { version, previous, height, view_change, timestamp, random }),
    {
        BaseBlockHeader { version, previous, height, view_change, timestamp, random }
    }
}

/// Fold a header into a hasher state.
pub open spec fn spec_mix_base(state: u64, b: BaseBlockHeader) -> u64 {
    spec_mix(
        spec_mix(
            spec_mix(
                spec_mix(spec_mix(spec_mix(state, b.version), b.previous.bits), b.height),
                b.view_change as u64,
            ),
            b.timestamp,
        ),
        b.random,
    )
}

/// Fold a header into a hasher state.
pub fn mix_base(state: u64, b: &BaseBlockHeader) -> (r: u64)
    ensures
        r == spec_mix_base(state, *b),
{
    let st = mix(state, b.version);
    let st = mix(st, b.previous.bits);
    let st = mix(st, b.height);
    let st = mix(st, b.view_change as u64);
    let st = mix(st, b.timestamp);
    mix(st, b.random)
}

/// A compact witness of a chain tip, carried in view-change votes.
#[derive(Clone, Copy, Debug, PartialEq, Eq, Structural)]
pub struct ChainInfo {
    pub height: u64,
    pub last_block: Digest,
    pub view_change: u32,
}

impl ChainInfo {
    /// The tip a block claims to extend: its height, its previous digest
    /// and its view.
    pub fn from_block(base: &BaseBlockHeader) -> (r: ChainInfo)
        ensures
            r == (ChainInfo {
                height: base.height,
                last_block: base.previous,
                view_change: base.view_change,
            }),
    {
        ChainInfo { height: base.height, last_block: base.previous, view_change: base.view_change }
    }
}

/// Canonical digest of a chain-tip witness.
#[verifier::opaque]
pub open spec fn spec_hash_chain_info(ci: ChainInfo) -> Digest {
    Digest {
        bits: spec_mix(spec_mix(spec_mix(0, ci.height), ci.last_block.bits), ci.view_change as u64),
    }
}

/// Compute the canonical digest of a chain-tip witness.
pub fn hash_chain_info(ci: &ChainInfo) -> (r: Digest)
    ensures
        r == spec_hash_chain_info(*ci),
{
    proof {
        reveal(spec_hash_chain_info);
    }
    let st = mix(0, ci.height);
    let st = mix(st, ci.last_block.bits);
    Digest { bits: mix(st, ci.view_change as u64) }
}

/// A sealed witness that a supermajority observed a stalled tip and agreed
/// to skip its view: an aggregate signature over the tip witness's digest
/// and the bitmap of the signers.
#[derive(Debug)]
pub struct ViewChangeProof {
    pub multisig: Sig,
    pub multimap: BitVector,
}

/// Two view-change proofs hold the same content.
pub open spec fn proof_eq(a: ViewChangeProof, b: ViewChangeProof) -> bool {
    &&& a.multisig == b.multisig
    &&& bv_bits(a.multimap) == bv_bits(b.multimap)
    &&& bv_capacity(a.multimap) == bv_capacity(b.multimap)
}

/// Copy a view-change proof.
pub fn clone_proof(p: &ViewChangeProof) -> (r: ViewChangeProof)
    ensures
        proof_eq(r, *p),
{
    ViewChangeProof { multisig: p.multisig, multimap: bv_clone(&p.multimap) }
}

/// The coinbase of a micro block: the reward its leader claims.
#[derive(Clone, Copy, Debug, PartialEq, Eq, Structural)]
pub struct Coinbase {
    pub block_reward: i64,
}

/// A single-leader block carrying transactions, and optionally the sealed
/// proof that its predecessor's leader was skipped.
#[derive(Debug)]
pub struct MicroBlock {
    pub base: BaseBlockHeader,
    pub view_change_proof: Option<ViewChangeProof>,
    pub coinbase: Coinbase,
    pub transactions: Vec<Transaction>,
    /// The leader that produced and signed this block.
    pub pkey: Pk,
    /// The leader's signature over the block digest.
    pub sig: Sig,
}

/// The digests of a sequence of transactions, in order.
pub open spec fn tx_hashes(s: Seq<Transaction>) -> Seq<Digest> {
    s.map_values(|t: Transaction| spec_hash_transaction(t))
}

/// Two transaction lists hold the same content pairwise.
pub open spec fn txs_eq(a: Seq<Transaction>, b: Seq<Transaction>) -> bool {
    a.len() == b.len() && forall|i: int| 0 <= i < a.len() ==> tx_eq(#[trigger] a[i], b[i])
}

/// Pairwise equal transactions have equal digests.
pub proof fn lemma_txs_eq_hashes(a: Seq<Transaction>, b: Seq<Transaction>)
    requires
        txs_eq(a, b),
    ensures
        tx_hashes(a) == tx_hashes(b),
{
    reveal(crate::tx::spec_hash_tx_body);
    assert(tx_hashes(a) =~= tx_hashes(b));
}

/// Canonical digest of a micro block: the header, the leader key, the
/// reward, then each transaction digest.  The signature and the embedded
/// view-change proof stay outside the digest.
#[verifier::opaque]
pub open spec fn spec_hash_micro_block(b: MicroBlock) -> Digest {
    Digest {
        bits: crate::tx::spec_mix_digests(
            spec_mix(
                spec_mix(spec_mix_base(0, b.base), b.pkey.val),
                b.coinbase.block_reward as u64,
            ),
            tx_hashes(b.transactions@),
        ),
    }
}

/// Compute the canonical digest of a micro block.
#[verifier::loop_isolation(false)]
pub fn hash_micro_block(b: &MicroBlock) -> (r: Digest)
    ensures
        r == spec_hash_micro_block(*b),
{
    proof {
        reveal(spec_hash_micro_block);
    }
    let st0 = mix_base(0, &b.base);
    let st0 = mix(st0, b.pkey.val);
    let st0 = mix(st0, b.coinbase.block_reward as u64);
    let ghost mid = st0;
    let mut st = st0;
    let mut i: usize = 0;
    proof {
        assert(tx_hashes(b.transactions@).skip(0) =~= tx_hashes(b.transactions@));
    }
    while i < b.transactions.len()
        invariant
            0 <= i <= b.transactions@.len(),
            crate::tx::spec_mix_digests(mid, tx_hashes(b.transactions@))
                == crate::tx::spec_mix_digests(st, tx_hashes(b.transactions@).skip(i as int)),
        decreases b.transactions@.len() - i,
    {
        proof {
            let hs = tx_hashes(b.transactions@);
            let sk = hs.skip(i as int);
            assert(sk[0] == hs[i as int]);
            assert(hs[i as int] == spec_hash_transaction(b.transactions@[i as int]));
            assert(sk.drop_first() =~= hs.skip(i + 1));
        }
        let h = hash_transaction(&b.transactions[i]);
        st = mix(st, h.bits);
        i += 1;
    }
    proof {
        let hs = tx_hashes(b.transactions@);
        assert(hs.skip(hs.len() as int) =~= Seq::<Digest>::empty());
    }
    Digest { bits: st }
}

/// Two micro blocks hold the same content.
pub open spec fn micro_eq(a: MicroBlock, b: MicroBlock) -> bool {
    &&& a.base == b.base
    &&& match (a.view_change_proof, b.view_change_proof) {
        (Some(p), Some(q)) => proof_eq(p, q),
        (None, None) => true,
        _ => false,
    }
    &&& a.coinbase == b.coinbase
    &&& txs_eq(a.transactions@, b.transactions@)
    &&& a.pkey == b.pkey
    &&& a.sig == b.sig
}

/// Copy a micro block.
#[verifier::loop_isolation(false)]
pub fn clone_micro_block(b: &MicroBlock) -> (r: MicroBlock)
    ensures
        micro_eq(r, *b),
        spec_hash_micro_block(r) == spec_hash_micro_block(*b),
{
    let view_change_proof = match &b.view_change_proof {
        Some(p) => Some(clone_proof(p)),
        None => None,
    };
    let mut transactions: Vec<Transaction> = Vec::new();
    let mut i: usize = 0;
    while i < b.transactions.len()
        invariant
            0 <= i <= b.transactions@.len(),
            transactions@.len() == i,
            forall|j: int| 0 <= j < i ==> tx_eq(#[trigger] transactions@[j], b.transactions@[j]),
        decreases b.transactions@.len() - i,
    {
        transactions.push(clone_transaction(&b.transactions[i]));
        i += 1;
    }
    let r = MicroBlock {
        base: b.base,
        view_change_proof,
        coinbase: b.coinbase,
        transactions,
        pkey: b.pkey,
        sig: b.sig,
    };
    proof {
        lemma_txs_eq_hashes(r.transactions@, b.transactions@);
        reveal(spec_hash_micro_block);
    }
    r
}

impl MicroBlock {
    /// Sign the block digest as its leader.
    pub fn sign(&mut self, skey: &Sk, pkey: &Pk)
        ensures
            final(self).base == old(self).base,
            final(self).view_change_proof == old(self).view_change_proof,
            final(self).coinbase == old(self).coinbase,
            final(self).transactions == old(self).transactions,
            final(self).pkey == *pkey,
            final(self).sig.val == sign_val(spec_hash_micro_block(*final(self)).bits, skey.val),
    {
        self.pkey = *pkey;
        let h = hash_micro_block(self);
        proof {
            reveal(spec_hash_micro_block);
        }
        self.sig = sign_hash(&h, skey);
    }
}

/// The header of a macro block: the shared header plus the epoch reward.
#[derive(Clone, Copy, Debug, PartialEq, Eq, Structural)]
pub struct MacroBlockHeader {
    pub base: BaseBlockHeader,
    pub block_reward: i64,
}

/// The body of a macro block: the aggregated supermajority signature over
/// the block digest, and the signers' bitmap.
#[derive(Debug)]
pub struct MacroBlockBody {
    pub multisig: Sig,
    pub multisigmap: BitVector,
}

/// A BFT-agreed block that closes an epoch.
#[derive(Debug)]
pub struct MacroBlock {
    pub header: MacroBlockHeader,
    pub body: MacroBlockBody,
    /// The round leader that proposed this block.
    pub pkey: Pk,
}

/// Canonical digest of a macro block: the header, the reward and the
/// proposer key; the multi-signature signs this digest and stays outside.
pub open spec fn spec_hash_macro_block(b: MacroBlock) -> Digest {
    Digest {
        bits: spec_mix(
            spec_mix(spec_mix_base(0, b.header.base), b.header.block_reward as u64),
            b.pkey.val,
        ),
    }
}

/// Compute the canonical digest of a macro block.
pub fn hash_macro_block(b: &MacroBlock) -> (r: Digest)
    ensures
        r == spec_hash_macro_block(*b),
{
    proof {
        reveal(spec_hash_macro_block);
    }
    let st = mix_base(0, &b.header.base);
    let st = mix(st, b.header.block_reward as u64);
    Digest { bits: mix(st, b.pkey.val) }
}

/// Two macro blocks hold the same content.
pub open spec fn macro_eq(a: MacroBlock, b: MacroBlock) -> bool {
    &&& a.header == b.header
    &&& a.body.multisig == b.body.multisig
    &&& bv_bits(a.body.multisigmap) == bv_bits(b.body.multisigmap)
    &&& bv_capacity(a.body.multisigmap) == bv_capacity(b.body.multisigmap)
    &&& a.pkey == b.pkey
}

/// Copy a macro block.
pub fn clone_macro_block(b: &MacroBlock) -> (r: MacroBlock)
    ensures
        macro_eq(r, *b),
        spec_hash_macro_block(r) == spec_hash_macro_block(*b),
{
    proof {
        reveal(spec_hash_macro_block);
    }
    MacroBlock {
        header: b.header,
        body: MacroBlockBody {
            multisig: b.body.multisig,
            multisigmap: bv_clone(&b.body.multisigmap),
        },
        pkey: b.pkey,
    }
}

impl MacroBlock {
    /// An empty macro block proposal with a zero multi-signature.
    pub fn empty(base: BaseBlockHeader, pkey: Pk) -> (r: MacroBlock)
        ensures
            r.header.base == base,
            r.header.block_reward == 0,
            r.pkey == pkey,
            r.body.multisig == (Sig { val: 0 }),
            bv_bits(r.body.multisigmap) == Set::<int>::empty(),
            bv_capacity(r.body.multisigmap) == WITNESSES_MAX,
    {
        MacroBlock {
            header: MacroBlockHeader { base, block_reward: 0 },
            body: MacroBlockBody { multisig: Sig { val: 0 }, multisigmap: bv_new(WITNESSES_MAX) },
            pkey,
        }
    }
}

/// Any block.
#[derive(Debug)]
pub enum Block {
    MicroBlock(MicroBlock),
    MacroBlock(MacroBlock),
}

/// Two blocks hold the same content.
pub open spec fn block_eq(a: Block, b: Block) -> bool {
    match (a, b) {
        (Block::MicroBlock(x), Block::MicroBlock(y)) => micro_eq(x, y),
        (Block::MacroBlock(x), Block::MacroBlock(y)) => macro_eq(x, y),
        _ => false,
    }
}

/// Canonical digest of any block.
pub open spec fn spec_hash_block(b: Block) -> Digest {
    match b {
        Block::MicroBlock(m) => spec_hash_micro_block(m),
        Block::MacroBlock(m) => spec_hash_macro_block(m),
    }
}

/// Compute the canonical digest of any block.
pub fn hash_block(b: &Block) -> (r: Digest)
    ensures
        r == spec_hash_block(*b),
{
    match b {
        Block::MicroBlock(m) => hash_micro_block(m),
        Block::MacroBlock(m) => hash_macro_block(m),
    }
}

/// Copy a block.
pub fn clone_block(b: &Block) -> (r: Block)
    ensures
        block_eq(r, *b),
        spec_hash_block(r) == spec_hash_block(*b),
{
    match b {
        Block::MicroBlock(m) => Block::MicroBlock(clone_micro_block(m)),
        Block::MacroBlock(m) => Block::MacroBlock(clone_macro_block(m)),
    }
}

impl Block {
    /// The shared header of either block flavor.
    pub open spec fn spec_base(self) -> BaseBlockHeader {
        match self {
            Block::MicroBlock(m) => m.base,
            Block::MacroBlock(m) => m.header.base,
        }
    }

    /// The shared header of either block flavor.
    pub fn base_header(&self) -> (r: &BaseBlockHeader)
        ensures
            *r == self.spec_base(),
    {
        match self {
            Block::MicroBlock(m) => &m.base,
            Block::MacroBlock(m) => &m.header.base,
        }
    }

    /// Whether this is a micro block.
    pub fn is_micro(&self) -> (r: bool)
        ensures
            r == (self is MicroBlock),
    {
        match self {
            Block::MicroBlock(_) => true,
            Block::MacroBlock(_) => false,
        }
    }
}

} // verus!
