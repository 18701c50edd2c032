//! The blockchain: an in-memory model of the storage layer.
//!
//! The chain holds the applied blocks, the unspent outputs, the current
//! view counter with its proof, and the validator set of the current
//! epoch.  Its well-formedness invariant is the chain-integrity property:
//! every block's height is its position and every block's previous digest
//! is the digest of the block before it, micro blocks never precede the
//! last macro block, and the epoch counts the macro blocks applied.

use vstd::prelude::*;
use crate::block::{Block, ChainInfo, MicroBlock, MacroBlock, ViewChangeProof, spec_hash_block,
    hash_block, spec_hash_macro_block, hash_macro_block, clone_proof, proof_eq};
use crate::crypto::{Digest, Pk};
use crate::election::{wf_validators, total_stake, is_validator_in, spec_select_leader,
    total_slots, is_validator, select_leader};
use crate::error::{BlockError, NodeError, TransactionError};
use crate::multisignature::{check_multi_signature, spec_check_multi_signature, bv_bits};
use crate::tx::{Output, Transaction, copy_vec, spec_hash_output, hash_output};
use crate::config::WITNESSES_MAX;

verus! {

/// A snapshot of the election state, served over the public API.
#[derive(Clone, Copy, Debug, PartialEq, Eq, Structural)]
pub struct ElectionInfo {
    pub height: u64,
    pub view_change: u32,
    pub slots_count: i64,
    pub current_leader: Pk,
}

/// A snapshot of the staking escrow, served over the public API.
#[derive(Clone, Copy, Debug, PartialEq, Eq, Structural)]
pub struct EscrowInfo {
    pub validators_count: usize,
    pub total_stake: i64,
}

/// All input digests of a list of transactions, in order.
pub open spec fn txs_inputs(txs: Seq<Transaction>) -> Seq<Digest>
    decreases txs.len(),
{
    if txs.len() == 0 {
        Seq::empty()
    } else {
        txs_inputs(txs.drop_last()) + txs.last().body.txins@
    }
}

/// All created outputs of a list of transactions, in order.
pub open spec fn txs_outputs(txs: Seq<Transaction>) -> Seq<Output>
    decreases txs.len(),
{
    if txs.len() == 0 {
        Seq::empty()
    } else {
        txs_outputs(txs.drop_last()) + txs.last().body.txouts@
    }
}

/// Index of the first unspent entry with this digest, or -1.
pub open spec fn key_index(u: Seq<(Digest, Output)>, k: Digest) -> int
    decreases u.len(),
{
    if u.len() == 0 {
        -1
    } else if u[0].0 == k {
        0
    } else if key_index(u.drop_first(), k) < 0 {
        -1
    } else {
        1 + key_index(u.drop_first(), k)
    }
}

/// Spend the listed inputs, in order, from the unspent set: each input must
/// be present when its turn comes (a duplicate input is missing the second
/// time).  Yields the remaining set and the spent outputs, or the first
/// missing digest.
pub open spec fn spend_all(u: Seq<(Digest, Output)>, ins: Seq<Digest>) -> Result<
    (Seq<(Digest, Output)>, Seq<Output>),
    Digest,
>
    decreases ins.len(),
{
    if ins.len() == 0 {
        Ok((u, Seq::empty()))
    } else {
        let i = key_index(u, ins[0]);
        if i < 0 {
            Err(ins[0])
        } else {
            match spend_all(u.remove(i), ins.drop_first()) {
                Err(d) => Err(d),
                Ok(rest) => Ok((rest.0, seq![u[i].1] + rest.1)),
            }
        }
    }
}

/// Add the created outputs to the unspent set, keyed by their digests; an
/// output whose digest is already present is a conflict.
pub open spec fn add_all(u: Seq<(Digest, Output)>, outs: Seq<Output>) -> Result<
    Seq<(Digest, Output)>,
    Digest,
>
    decreases outs.len(),
{
    if outs.len() == 0 {
        Ok(u)
    } else if key_index(u, spec_hash_output(outs[0])) >= 0 {
        Err(spec_hash_output(outs[0]))
    } else {
        add_all(u.push((spec_hash_output(outs[0]), outs[0])), outs.drop_first())
    }
}

/// Look each input digest up in the unspent set without consuming it, or
/// yield the first digest that is unknown.
pub open spec fn resolve_inputs(u: Seq<(Digest, Output)>, ins: Seq<Digest>) -> Result<
    Seq<Output>,
    Digest,
>
    decreases ins.len(),
{
    if ins.len() == 0 {
        Ok(Seq::empty())
    } else {
        let i = key_index(u, ins[0]);
        if i < 0 {
            Err(ins[0])
        } else {
            match resolve_inputs(u, ins.drop_first()) {
                Err(d) => Err(d),
                Ok(rest) => Ok(seq![u[i].1] + rest),
            }
        }
    }
}

/// Remove the entries with the listed digests, skipping absent ones (the
/// undo of `add_all`).
pub open spec fn remove_keys_guarded(u: Seq<(Digest, Output)>, ds: Seq<Digest>) -> Seq<
    (Digest, Output),
>
    decreases ds.len(),
{
    if ds.len() == 0 {
        u
    } else {
        let i = key_index(u, ds[0]);
        remove_keys_guarded(
            if i < 0 {
                u
            } else {
                u.remove(i)
            },
            ds.drop_first(),
        )
    }
}

/// Re-insert outputs, skipping ones whose digest is already present (the
/// undo of `spend_all`).
pub open spec fn insert_guarded(u: Seq<(Digest, Output)>, outs: Seq<Output>) -> Seq<
    (Digest, Output),
>
    decreases outs.len(),
{
    if outs.len() == 0 {
        u
    } else {
        let k = spec_hash_output(outs[0]);
        insert_guarded(
            if key_index(u, k) >= 0 {
                u
            } else {
                u.push((k, outs[0]))
            },
            outs.drop_first(),
        )
    }
}

/// The blockchain.
pub struct Blockchain {
    /// Applied blocks, from genesis to tip.
    pub blocks: Vec<Block>,
    /// For each block, the outputs it spent (used to undo a micro block).
    pub spent: Vec<Vec<Output>>,
    /// The unspent outputs, keyed by their digests.
    pub utxo: Vec<(Digest, Output)>,
    /// Number of macro blocks applied (the genesis included).
    pub epoch: u64,
    /// Height (= position) of the last applied macro block.
    pub last_macro_height: u64,
    /// View counter at the tip.
    pub view_change: u32,
    /// Proof recorded for the current view counter.
    pub view_change_proof: Option<ViewChangeProof>,
    /// Validator set of the current epoch.
    pub validators: Vec<(Pk, i64)>,
}

/// Number of macro blocks in a chain prefix.
pub open spec fn count_macro(s: Seq<Block>) -> int
    decreases s.len(),
{
    if s.len() == 0 {
        0
    } else {
        count_macro(s.drop_last()) + if s.last() is MacroBlock {
            1int
        } else {
            0int
        }
    }
}

impl Blockchain {
    /// The applied blocks.
    pub open spec fn spec_blocks(self) -> Seq<Block> {
        self.blocks@
    }

    /// The unspent set.
    pub open spec fn spec_utxo(self) -> Seq<(Digest, Output)> {
        self.utxo@
    }

    /// The validator set.
    pub open spec fn spec_validators(self) -> Seq<(Pk, i64)> {
        self.validators@
    }

    /// The tip height: the number of applied blocks.
    pub open spec fn spec_height(self) -> int {
        self.blocks@.len() as int
    }

    /// The current epoch.
    pub open spec fn spec_epoch(self) -> int {
        self.epoch as int
    }

    /// The height of the last applied macro block.
    pub open spec fn spec_last_macro_height(self) -> int {
        self.last_macro_height as int
    }

    /// The view counter at the tip.
    pub open spec fn spec_view_change(self) -> u32 {
        self.view_change
    }

    /// The proof recorded for the current view counter.
    pub open spec fn spec_view_change_proof(self) -> Option<ViewChangeProof> {
        self.view_change_proof
    }

    /// The digest of the tip block.
    pub open spec fn spec_last_block_hash(self) -> Digest {
        spec_hash_block(self.blocks@.last())
    }

    /// The randomness of the tip block.
    pub open spec fn spec_last_random(self) -> u64 {
        self.blocks@.last().spec_base().random
    }

    /// Chain integrity (the heart of the model): heights are positions,
    /// previous digests link each block to the one before it, the last
    /// macro block closes the immutable prefix, and the epoch counts the
    /// macro blocks.
    pub open spec fn wf(self) -> bool {
        &&& self.blocks@.len() >= 1
        &&& self.blocks@[0] is MacroBlock
        &&& forall|i: int|
            0 <= i < self.blocks@.len() ==> (#[trigger] self.blocks@[i]).spec_base().height == i
        &&& forall|i: int|
            1 <= i < self.blocks@.len() ==> (#[trigger] self.blocks@[i]).spec_base().previous
                == spec_hash_block(self.blocks@[i - 1])
        &&& 0 <= self.last_macro_height < self.blocks@.len()
        &&& self.blocks@[self.last_macro_height as int] is MacroBlock
        &&& forall|j: int|
            self.last_macro_height < j < self.blocks@.len() ==> (#[trigger] self.blocks@[j])
                is MicroBlock
        &&& self.epoch == count_macro(self.blocks@)
        &&& self.spent@.len() == self.blocks@.len()
        &&& wf_validators(self.validators@)
        &&& self.validators@.len() > 0
        &&& self.validators@.len() <= WITNESSES_MAX
        &&& total_stake(self.validators@) <= i64::MAX
    }

    /// Start a chain from a genesis macro block and the initial validators.
    pub fn new(genesis: MacroBlock, validators: Vec<(Pk, i64)>) -> (r: Blockchain)
        requires
            genesis.header.base.height == 0,
            wf_validators(validators@),
            validators@.len() > 0,
            validators@.len() <= WITNESSES_MAX,
            total_stake(validators@) <= i64::MAX,
        ensures
            r.wf(),
            r.spec_blocks().len() == 1,
            r.spec_blocks()[0] == Block::MacroBlock(genesis),
            r.spec_epoch() == 1,
            r.spec_view_change() == 0,
            r.spec_validators() == validators@,
            r.spec_utxo() == Seq::<(Digest, Output)>::empty(),
    {
        let mut blocks: Vec<Block> = Vec::new();
        blocks.push(Block::MacroBlock(genesis));
        let mut spent: Vec<Vec<Output>> = Vec::new();
        spent.push(Vec::new());
        let r = Blockchain {
            blocks,
            spent,
            utxo: Vec::new(),
            epoch: 1,
            last_macro_height: 0,
            view_change: 0,
            view_change_proof: None,
            validators,
        };
        proof {
            assert(r.blocks@ =~= Seq::empty().push(Block::MacroBlock(genesis)));
            assert(r.blocks@.drop_last() =~= Seq::<Block>::empty());
            assert(count_macro(Seq::<Block>::empty()) == 0);
            assert(count_macro(r.blocks@) == 1);
        }
        r
    }

    /// The tip height.
    pub fn height(&self) -> (r: u64)
        ensures
            r as int == self.spec_height(),
    {
        self.blocks.len() as u64
    }

    /// The current epoch.
    pub fn epoch(&self) -> (r: u64)
        ensures
            r as int == self.spec_epoch(),
    {
        self.epoch
    }

    /// How many blocks the current epoch holds so far (its macro block
    /// included).
    pub fn blocks_in_epoch(&self) -> (r: u64)
        requires
            self.wf(),
        ensures
            r as int == self.spec_height() - self.spec_last_macro_height(),
    {
        self.blocks.len() as u64 - self.last_macro_height
    }

    /// The digest of the tip block.
    pub fn last_block_hash(&self) -> (r: Digest)
        requires
            self.wf(),
        ensures
            r == self.spec_last_block_hash(),
    {
        hash_block(&self.blocks[self.blocks.len() - 1])
    }

    /// The height of the last applied macro block.
    pub fn last_macro_block_height(&self) -> (r: u64)
        ensures
            r as int == self.spec_last_macro_height(),
    {
        self.last_macro_height
    }

    /// The timestamp of the last applied macro block.
    pub fn last_macro_block_timestamp(&self) -> (r: u64)
        requires
            self.wf(),
        ensures
            r == self.spec_blocks()[self.spec_last_macro_height()].spec_base().timestamp,
    {
        let n = self.blocks.len();
        assert(self.last_macro_height < n as u64);
        self.blocks[self.last_macro_height as usize].base_header().timestamp
    }

    /// The randomness of the tip block.
    pub fn last_random(&self) -> (r: u64)
        requires
            self.wf(),
        ensures
            r == self.spec_last_random(),
    {
        self.blocks[self.blocks.len() - 1].base_header().random
    }

    /// The view counter at the tip.
    pub fn view_change(&self) -> (r: u32)
        ensures
            r == self.spec_view_change(),
    {
        self.view_change
    }

    /// The proof recorded for the current view counter, if any.
    pub fn view_change_proof(&self) -> (r: Option<ViewChangeProof>)
        ensures
            match (r, self.spec_view_change_proof()) {
                (Some(p), Some(q)) => proof_eq(p, q),
                (None, None) => true,
                _ => false,
            },
    {
        match &self.view_change_proof {
            Some(p) => Some(clone_proof(p)),
            None => None,
        }
    }

    /// The validator set of the current epoch.
    pub fn validators(&self) -> (r: &Vec<(Pk, i64)>)
        ensures
            r@ == self.spec_validators(),
    {
        &self.validators
    }

    /// The total stake of the current validators.
    pub fn total_slots(&self) -> (r: i64)
        requires
            self.wf(),
        ensures
            r == total_stake(self.spec_validators()),
    {
        total_slots(&self.validators)
    }

    /// Whether the key belongs to the current validator set.
    pub fn is_validator(&self, pk: &Pk) -> (r: bool)
        ensures
            r == is_validator_in(self.spec_validators(), *pk),
    {
        is_validator(&self.validators, pk)
    }

    /// The leader selected for a view at the current tip.
    pub fn select_leader(&self, view: u32) -> (r: Pk)
        requires
            self.wf(),
        ensures
            r == spec_select_leader(self.spec_validators(), self.spec_last_random(), view),
            is_validator_in(self.spec_validators(), r),
    {
        let random = self.last_random();
        select_leader(&self.validators, random, view)
    }

    /// The leader at the current view.
    pub fn leader(&self) -> (r: Pk)
        requires
            self.wf(),
        ensures
            r == spec_select_leader(
                self.spec_validators(),
                self.spec_last_random(),
                self.spec_view_change(),
            ),
            is_validator_in(self.spec_validators(), r),
    {
        let v = self.view_change;
        self.select_leader(v)
    }

    /// The facilitator of the current epoch (the first validator slot).
    pub fn facilitator(&self) -> (r: Pk)
        requires
            self.wf(),
        ensures
            r == self.spec_validators()[0].0,
    {
        self.validators[0].0
    }

    /// The block applied at a height.
    pub fn block_by_height(&self, height: u64) -> (r: &Block)
        requires
            self.wf(),
            0 <= height < self.spec_height(),
        ensures
            *r == self.spec_blocks()[height as int],
    {
        let n = self.blocks.len();
        assert(height < n as u64);
        &self.blocks[height as usize]
    }

    /// The compact witness of the current tip.
    pub fn chain_info(&self) -> (r: ChainInfo)
        requires
            self.wf(),
        ensures
            r == (ChainInfo {
                height: (self.spec_height() as u64),
                last_block: self.spec_last_block_hash(),
                view_change: self.spec_view_change(),
            }),
    {
        ChainInfo {
            height: self.height(),
            last_block: self.last_block_hash(),
            view_change: self.view_change,
        }
    }

    /// A snapshot of the election state.
    pub fn election_info(&self) -> (r: ElectionInfo)
        requires
            self.wf(),
        ensures
            r.height as int == self.spec_height(),
            r.view_change == self.spec_view_change(),
            r.slots_count == total_stake(self.spec_validators()),
            r.current_leader == spec_select_leader(
                self.spec_validators(),
                self.spec_last_random(),
                self.spec_view_change(),
            ),
    {
        ElectionInfo {
            height: self.height(),
            view_change: self.view_change,
            slots_count: self.total_slots(),
            current_leader: self.leader(),
        }
    }

    /// A snapshot of the staking escrow.
    pub fn escrow_info(&self) -> (r: EscrowInfo)
        requires
            self.wf(),
        ensures
            r.validators_count == self.spec_validators().len(),
            r.total_stake == total_stake(self.spec_validators()),
    {
        EscrowInfo {
            validators_count: self.validators.len(),
            total_stake: self.total_slots(),
        }
    }

    /// Look an unspent output up by its digest.
    pub fn output_by_hash(&self, d: &Digest) -> (r: Option<Output>)
        ensures
            match r {
                Some(o) => key_index(self.spec_utxo(), *d) >= 0 && self.spec_utxo()[key_index(
                    self.spec_utxo(),
                    *d,
                )].1 == o,
                None => key_index(self.spec_utxo(), *d) < 0,
            },
    {
        match find_key(&self.utxo, d) {
            Some(i) => Some(self.utxo[i].1),
            None => None,
        }
    }

    /// Record a view change at the tip: advance the view counter and keep
    /// the sealed proof that justifies it.
    pub fn set_view_change(&mut self, view_change: u32, proof: ViewChangeProof)
        requires
            old(self).wf(),
        ensures
            final(self).wf(),
            final(self).spec_view_change() == view_change,
            final(self).spec_view_change_proof() == Some(proof),
            final(self).spec_blocks() == old(self).spec_blocks(),
            final(self).spec_utxo() == old(self).spec_utxo(),
            final(self).spec_epoch() == old(self).spec_epoch(),
            final(self).spec_last_macro_height() == old(self).spec_last_macro_height(),
            final(self).spec_validators() == old(self).spec_validators(),
    {
        self.view_change = view_change;
        self.view_change_proof = Some(proof);
    }

    /// The header-level reason to reject a micro block, if any: it must sit
    /// at the tip height, carry a view no older than the chain's, and point
    /// at the tip digest.
    pub open spec fn micro_header_error(self, block: MicroBlock) -> Option<BlockError> {
        if block.base.height != self.spec_height() {
            Some(
                BlockError::InvalidPreviousHash(
                    block.base.height,
                    block.base.previous,
                    self.spec_last_block_hash(),
                ),
            )
        } else if block.base.view_change < self.spec_view_change() {
            Some(
                BlockError::InvalidViewChange(
                    block.base.height,
                    block.base.view_change,
                    self.spec_view_change(),
                ),
            )
        } else if block.base.previous != self.spec_last_block_hash() {
            Some(
                BlockError::InvalidPreviousHash(
                    block.base.height,
                    block.base.previous,
                    self.spec_last_block_hash(),
                ),
            )
        } else {
            None
        }
    }

    /// Apply a micro block at the tip.
    ///
    /// Rejects a block whose height, view or previous digest does not match
    /// the tip, a block spending an unknown or doubly spent output, and a
    /// block recreating an existing output.  On success the block joins the
    /// chain, the view counter resets, and the spent and created outputs
    /// are returned.
    #[verifier::loop_isolation(false)]
    pub fn push_micro_block(&mut self, block: MicroBlock) -> (r: Result<
        (Vec<Output>, Vec<Output>),
        NodeError,
    >)
        requires
            old(self).wf(),
        ensures
            final(self).wf(),
            match old(self).micro_header_error(block) {
                Some(e) => r == Err::<(Vec<Output>, Vec<Output>), NodeError>(NodeError::Block(e))
                    && *final(self) == *old(self),
                None => match spend_all(old(self).spec_utxo(), txs_inputs(block.transactions@)) {
                    Err(d) => r == Err::<(Vec<Output>, Vec<Output>), NodeError>(
                        NodeError::Transaction(TransactionError::MissingUtxo(d)),
                    ) && *final(self) == *old(self),
                    Ok(su) => match add_all(su.0, txs_outputs(block.transactions@)) {
                        Err(d) => r == Err::<(Vec<Output>, Vec<Output>), NodeError>(
                            NodeError::Transaction(TransactionError::ConflictingUtxo(d)),
                        ) && *final(self) == *old(self),
                        Ok(u3) => r matches Ok(io) && io.0@ == su.1
                            && io.1@ == txs_outputs(block.transactions@)
                            && final(self).spec_blocks()
                                == old(self).spec_blocks().push(Block::MicroBlock(block))
                            && final(self).spec_utxo() == u3
                            && final(self).spec_view_change() == 0
                            && final(self).spec_view_change_proof() is None
                            && final(self).spec_epoch() == old(self).spec_epoch()
                            && final(self).spec_last_macro_height()
                                == old(self).spec_last_macro_height()
                            && final(self).spec_validators() == old(self).spec_validators(),
                    },
                },
            },
    {
        let ghost prior = *self;
        let h = self.height();
        if block.base.height != h {
            let e = BlockError::InvalidPreviousHash(
                block.base.height,
                block.base.previous,
                self.last_block_hash(),
            );
            return Err(NodeError::Block(e));
        }
        if block.base.view_change < self.view_change {
            let e = BlockError::InvalidViewChange(
                block.base.height,
                block.base.view_change,
                self.view_change,
            );
            return Err(NodeError::Block(e));
        }
        let tip = self.last_block_hash();
        if block.base.previous.bits != tip.bits {
            let e = BlockError::InvalidPreviousHash(block.base.height, block.base.previous, tip);
            return Err(NodeError::Block(e));
        }
        proof {
            assert(block.base.previous == tip);
            assert(prior.micro_header_error(block) is None);
        }

        let ins = flatten_inputs(&block.transactions);
        let outs = flatten_outputs(&block.transactions);

        // spend the inputs on a scratch copy; the chain is untouched on error
        let mut utxo = copy_vec(&self.utxo);
        let mut spent: Vec<Output> = Vec::new();
        let ghost u0 = utxo@;
        let mut k: usize = 0;
        proof {
            assert(ins@.skip(0) =~= ins@);
        }
        while k < ins.len()
            invariant
                0 <= k <= ins@.len(),
                match spend_all(u0, ins@) {
                    Err(d) => spend_all(utxo@, ins@.skip(k as int)) == Err::<
                        (Seq<(Digest, Output)>, Seq<Output>),
                        Digest,
                    >(d),
                    Ok(res) => spend_all(utxo@, ins@.skip(k as int)) matches Ok(rest) && res.0
                        == rest.0 && res.1 == spent@ + rest.1,
                },
            decreases ins@.len() - k,
        {
            proof {
                let sk = ins@.skip(k as int);
                assert(sk[0] == ins@[k as int]);
                assert(sk.drop_first() =~= ins@.skip(k + 1));
            }
            match find_key(&utxo, &ins[k]) {
                None => {
                    proof {
                        assert(spend_all(utxo@, ins@.skip(k as int)) == Err::<
                            (Seq<(Digest, Output)>, Seq<Output>),
                            Digest,
                        >(ins@[k as int]));
                    }
                    return Err(NodeError::Transaction(TransactionError::MissingUtxo(ins[k])));
                },
                Some(i) => {
                    let entry = utxo.remove(i);
                    spent.push(entry.1);
                    proof {
                        assert(spent@.drop_last() + (seq![entry.1] + spend_all(
                            utxo@,
                            ins@.skip(k + 1),
                        )->Ok_0.1) =~= spent@ + spend_all(utxo@, ins@.skip(k + 1))->Ok_0.1);
                    }
                },
            }
            k += 1;
        }
        proof {
            assert(ins@.skip(ins@.len() as int) =~= Seq::<Digest>::empty());
            assert(spent@ + Seq::<Output>::empty() =~= spent@);
        }

        // add the created outputs
        let ghost u2 = utxo@;
        let mut k: usize = 0;
        proof {
            assert(outs@.skip(0) =~= outs@);
        }
        while k < outs.len()
            invariant
                0 <= k <= outs@.len(),
                add_all(u2, outs@) == add_all(utxo@, outs@.skip(k as int)),
            decreases outs@.len() - k,
        {
            proof {
                let sk = outs@.skip(k as int);
                assert(sk[0] == outs@[k as int]);
                assert(sk.drop_first() =~= outs@.skip(k + 1));
            }
            let key = hash_output(&outs[k]);
            match find_key(&utxo, &key) {
                Some(_) => {
                    return Err(NodeError::Transaction(TransactionError::ConflictingUtxo(key)));
                },
                None => {
                    utxo.push((key, outs[k]));
                },
            }
            k += 1;
        }
        proof {
            assert(outs@.skip(outs@.len() as int) =~= Seq::<Output>::empty());
        }

        // commit
        let spent_log = copy_vec(&spent);
        self.utxo = utxo;
        self.blocks.push(Block::MicroBlock(block));
        self.spent.push(spent_log);
        self.view_change = 0;
        self.view_change_proof = None;
        proof {
            let nb = self.blocks@;
            assert(nb.drop_last() =~= prior.blocks@);
            assert(forall|i: int| 0 <= i < nb.len() - 1 ==> nb[i] == #[trigger] prior.blocks@[i]);
            assert(count_macro(nb) == count_macro(prior.blocks@));
        }
        Ok((spent, outs))
    }

    /// The header-level reason to reject a macro block, if any: it must sit
    /// at the tip height and point at the tip digest.
    pub open spec fn macro_header_error(self, block: MacroBlock) -> Option<BlockError> {
        if block.header.base.height != self.spec_height() {
            Some(
                BlockError::InvalidPreviousHash(
                    block.header.base.height,
                    block.header.base.previous,
                    self.spec_last_block_hash(),
                ),
            )
        } else if block.header.base.previous != self.spec_last_block_hash() {
            Some(
                BlockError::InvalidPreviousHash(
                    block.header.base.height,
                    block.header.base.previous,
                    self.spec_last_block_hash(),
                ),
            )
        } else {
            None
        }
    }

    /// Apply a macro block at the tip, closing the epoch.
    ///
    /// Rejects a block whose height or previous digest does not match the
    /// tip.  On success the epoch advances, the block becomes the epoch
    /// boundary, and the view counter resets.
    pub fn push_macro_block(&mut self, block: MacroBlock) -> (r: Result<(), NodeError>)
        requires
            old(self).wf(),
            old(self).spec_height() < u64::MAX,
        ensures
            final(self).wf(),
            match old(self).macro_header_error(block) {
                Some(e) => r == Err::<(), NodeError>(NodeError::Block(e)) && *final(self) == *old(
                    self,
                ),
                None => r is Ok,
            },
            block.header.base.height == old(self).spec_height() && block.header.base.previous
                == old(self).spec_last_block_hash() ==> r is Ok
                && final(self).spec_blocks()
                    == old(self).spec_blocks().push(Block::MacroBlock(block))
                && final(self).spec_epoch() == old(self).spec_epoch() + 1
                && final(self).spec_last_macro_height() == old(self).spec_height()
                && final(self).spec_view_change() == 0
                && final(self).spec_view_change_proof() is None
                && final(self).spec_utxo() == old(self).spec_utxo()
                && final(self).spec_validators() == old(self).spec_validators(),
    {
        let ghost prior = *self;
        let h = self.height();
        if block.header.base.height != h {
            let e = BlockError::InvalidPreviousHash(
                block.header.base.height,
                block.header.base.previous,
                self.last_block_hash(),
            );
            return Err(NodeError::Block(e));
        }
        let tip = self.last_block_hash();
        if block.header.base.previous.bits != tip.bits {
            let e = BlockError::InvalidPreviousHash(
                block.header.base.height,
                block.header.base.previous,
                tip,
            );
            return Err(NodeError::Block(e));
        }
        proof {
            assert(block.header.base.previous == tip);
            lemma_count_macro_bounds(self.blocks@);
        }
        let new_last_macro = self.blocks.len() as u64;
        self.blocks.push(Block::MacroBlock(block));
        self.spent.push(Vec::new());
        self.epoch = self.epoch + 1;
        self.last_macro_height = new_last_macro;
        self.view_change = 0;
        self.view_change_proof = None;
        proof {
            let nb = self.blocks@;
            assert(nb.drop_last() =~= prior.blocks@);
            assert(forall|i: int| 0 <= i < nb.len() - 1 ==> nb[i] == #[trigger] prior.blocks@[i]);
            assert(count_macro(nb) == count_macro(prior.blocks@) + 1);
        }
        Ok(())
    }

    /// Undo the micro block at the tip.
    ///
    /// Refuses to cross the last macro block: epoch-finalized history is
    /// immutable.  On success the created outputs leave the unspent set,
    /// the spent ones return to it, and the view counter resets.
    #[verifier::loop_isolation(false)]
    pub fn pop_micro_block(&mut self) -> (r: Result<(Vec<Output>, Vec<Output>), NodeError>)
        requires
            old(self).wf(),
        ensures
            final(self).wf(),
            old(self).spec_height() == old(self).spec_last_macro_height() + 1 ==> r is Err
                && *final(self) == *old(self),
            old(self).spec_height() > old(self).spec_last_macro_height() + 1 ==> (
            old(self).spec_blocks().last() matches Block::MicroBlock(mb) && r matches Ok(io)
                && io.0@ == old(self).spent@.last()@ && io.1@ == txs_outputs(mb.transactions@)
                && final(self).spec_utxo() == insert_guarded(
                remove_keys_guarded(
                    old(self).spec_utxo(),
                    outputs_digests(txs_outputs(mb.transactions@)),
                ),
                old(self).spent@.last()@,
            ) && final(self).spec_blocks() == old(self).spec_blocks().drop_last()
                && final(self).spec_view_change() == 0
                && final(self).spec_view_change_proof() is None
                && final(self).spec_epoch() == old(self).spec_epoch()
                && final(self).spec_last_macro_height() == old(self).spec_last_macro_height()
                && final(self).spec_validators() == old(self).spec_validators()),
    {
        let ghost prior = *self;
        let h = self.blocks.len();
        if h as u64 == self.last_macro_height + 1 {
            let tip = self.last_block_hash();
            return Err(
                NodeError::Block(BlockError::ExpectedMicroBlock((h - 1) as u64, tip)),
            );
        }
        proof {
            assert(self.blocks@[h - 1] is MicroBlock);
        }
        let block = self.blocks.pop().unwrap();
        let spent_log = self.spent.pop().unwrap();
        let mb = match block {
            Block::MicroBlock(mb) => mb,
            Block::MacroBlock(_) => {
                proof {
                    assert(false);
                }
                return Err(
                    NodeError::Block(
                        BlockError::ExpectedMicroBlock((h - 1) as u64, Digest { bits: 0 }),
                    ),
                );
            },
        };

        // remove the block's created outputs from the unspent set
        let outs = flatten_outputs(&mb.transactions);
        let ins = flatten_inputs(&mb.transactions);
        let ghost u0 = self.utxo@;
        let mut utxo = copy_vec(&self.utxo);
        let mut k: usize = 0;
        proof {
            assert(outputs_digests(outs@).skip(0) =~= outputs_digests(outs@));
        }
        while k < outs.len()
            invariant
                0 <= k <= outs@.len(),
                outs@.len() == outputs_digests(outs@).len(),
                remove_keys_guarded(u0, outputs_digests(outs@)) == remove_keys_guarded(
                    utxo@,
                    outputs_digests(outs@).skip(k as int),
                ),
            decreases outs@.len() - k,
        {
            proof {
                let ds = outputs_digests(outs@);
                let sk = ds.skip(k as int);
                assert(sk[0] == ds[k as int]);
                assert(ds[k as int] == spec_hash_output(outs@[k as int]));
                assert(sk.drop_first() =~= ds.skip(k + 1));
            }
            let key = hash_output(&outs[k]);
            match find_key(&utxo, &key) {
                Some(i) => {
                    utxo.remove(i);
                },
                None => {},
            }
            k += 1;
        }
        proof {
            let ds = outputs_digests(outs@);
            assert(ds.skip(ds.len() as int) =~= Seq::<Digest>::empty());
        }

        // put the spent outputs back
        let ghost u1 = utxo@;
        let mut k: usize = 0;
        proof {
            assert(spent_log@.skip(0) =~= spent_log@);
        }
        while k < spent_log.len()
            invariant
                0 <= k <= spent_log@.len(),
                insert_guarded(u1, spent_log@) == insert_guarded(
                    utxo@,
                    spent_log@.skip(k as int),
                ),
            decreases spent_log@.len() - k,
        {
            proof {
                let sk = spent_log@.skip(k as int);
                assert(sk[0] == spent_log@[k as int]);
                assert(sk.drop_first() =~= spent_log@.skip(k + 1));
            }
            let key = hash_output(&spent_log[k]);
            match find_key(&utxo, &key) {
                Some(_) => {},
                None => {
                    utxo.push((key, spent_log[k]));
                },
            }
            k += 1;
        }
        proof {
            assert(spent_log@.skip(spent_log@.len() as int) =~= Seq::<Output>::empty());
        }

        self.utxo = utxo;
        self.view_change = 0;
        self.view_change_proof = None;
        proof {
            let nb = self.blocks@;
            assert(nb =~= prior.blocks@.drop_last());
            assert(forall|i: int| 0 <= i < nb.len() ==> nb[i] == #[trigger] prior.blocks@[i]);
            assert(count_macro(prior.blocks@) == count_macro(nb));
        }
        Ok((spent_log, outs))
    }

    /// Validate a macro block against the tip: it must sit at the tip
    /// height, point at the tip digest, claim no reward, and — unless it is
    /// a bare proposal — carry a multi-signature that verifies against the
    /// current validators with the leader of its view.
    pub fn validate_macro_block(&self, block: &MacroBlock, is_proposal: bool) -> (r: Result<
        (),
        NodeError,
    >)
        requires
            self.wf(),
        ensures
            r is Ok <==> {
                &&& block.header.base.height == self.spec_height()
                &&& block.header.base.previous == self.spec_last_block_hash()
                &&& block.header.block_reward == 0
                &&& (is_proposal || spec_check_multi_signature(
                    spec_hash_macro_block(*block),
                    block.body.multisig,
                    bv_bits(block.body.multisigmap),
                    self.spec_validators(),
                    spec_select_leader(
                        self.spec_validators(),
                        self.spec_last_random(),
                        block.header.base.view_change,
                    ),
                    total_stake(self.spec_validators()),
                ))
            },
    {
        let h = self.height();
        let hash = hash_macro_block(block);
        if block.header.base.height != h {
            return Err(
                NodeError::Block(
                    BlockError::InvalidPreviousHash(
                        block.header.base.height,
                        block.header.base.previous,
                        self.last_block_hash(),
                    ),
                ),
            );
        }
        let tip = self.last_block_hash();
        if block.header.base.previous.bits != tip.bits {
            return Err(
                NodeError::Block(
                    BlockError::InvalidPreviousHash(
                        block.header.base.height,
                        block.header.base.previous,
                        tip,
                    ),
                ),
            );
        }
        proof {
            assert(block.header.base.previous == tip);
        }
        if block.header.block_reward != 0 {
            return Err(
                NodeError::Block(
                    BlockError::InvalidBlockReward(
                        block.header.base.height,
                        hash,
                        block.header.block_reward,
                        0,
                    ),
                ),
            );
        }
        if !is_proposal {
            let leader = self.select_leader(block.header.base.view_change);
            let total = self.total_slots();
            if !check_multi_signature(
                &hash,
                &block.body.multisig,
                &block.body.multisigmap,
                &self.validators,
                &leader,
                total,
            ) {
                return Err(
                    NodeError::Block(
                        BlockError::InvalidBlockSignature(block.header.base.height, hash),
                    ),
                );
            }
        }
        Ok(())
    }
}

/// The digests of a sequence of outputs, in order.
pub open spec fn outputs_digests(s: Seq<Output>) -> Seq<Digest> {
    s.map_values(|o: Output| spec_hash_output(o))
}

/// Chain integrity: under the chain invariant, every applied block sits at
/// the height equal to its position and points at the digest of the block
/// before it; the tip height is the last macro height plus the number of
/// blocks the current epoch has produced so far; and nothing after the last
/// macro block is itself a macro block, so finalized history is immutable.
pub proof fn lemma_chain_integrity(c: Blockchain)
    requires
        c.wf(),
    ensures
        forall|i: int|
            0 <= i < c.spec_blocks().len() ==> (#[trigger] c.spec_blocks()[i]).spec_base().height
                == i,
        forall|i: int|
            1 <= i < c.spec_blocks().len() ==> (#[trigger] c.spec_blocks()[i]).spec_base().previous
                == spec_hash_block(c.spec_blocks()[i - 1]),
        c.spec_height() == c.spec_last_macro_height() + (c.spec_height()
            - c.spec_last_macro_height()),
        forall|j: int|
            c.spec_last_macro_height() < j < c.spec_blocks().len() ==> (#[trigger] c.spec_blocks()[j])
                is MicroBlock,
{
}

/// The number of macro blocks lies between zero and the chain length.
pub proof fn lemma_count_macro_bounds(s: Seq<Block>)
    ensures
        0 <= count_macro(s) <= s.len(),
    decreases s.len(),
{
    if s.len() > 0 {
        lemma_count_macro_bounds(s.drop_last());
    }
}

/// What `key_index` returns: the least index holding the digest, or -1.
pub proof fn lemma_key_index_props(u: Seq<(Digest, Output)>, k: Digest)
    ensures
        key_index(u, k) >= 0 ==> 0 <= key_index(u, k) < u.len() && u[key_index(u, k)].0 == k && (
        forall|j: int| 0 <= j < key_index(u, k) ==> u[j].0 != k),
        key_index(u, k) < 0 ==> forall|j: int| 0 <= j < u.len() ==> u[j].0 != k,
    decreases u.len(),
{
    if u.len() == 0 {
    } else if u[0].0 == k {
    } else {
        let d = u.drop_first();
        lemma_key_index_props(d, k);
        let f = key_index(u, k);
        if f >= 0 {
            assert(u[f] == d[f - 1]);
            assert forall|j: int| 0 <= j < f implies u[j].0 != k by {
                if j >= 1 {
                    assert(u[j] == d[j - 1]);
                }
            }
        } else {
            assert forall|j: int| 0 <= j < u.len() implies u[j].0 != k by {
                if j >= 1 {
                    assert(u[j] == d[j - 1]);
                }
            }
        }
    }
}

/// Find the first unspent entry with this digest.
#[verifier::loop_isolation(false)]
fn find_key(utxo: &Vec<(Digest, Output)>, k: &Digest) -> (r: Option<usize>)
    ensures
        match r {
            Some(i) => i == key_index(utxo@, *k) && 0 <= i < utxo@.len() && utxo@[i as int].0 == *k,
            None => key_index(utxo@, *k) < 0,
        },
{
    let mut i: usize = 0;
    while i < utxo.len()
        invariant
            0 <= i <= utxo@.len(),
            forall|j: int| 0 <= j < i ==> utxo@[j].0 != *k,
        decreases utxo@.len() - i,
    {
        if utxo[i].0.bits == k.bits {
            proof {
                assert(utxo@[i as int].0 == *k);
                lemma_key_index_props(utxo@, *k);
                let f = key_index(utxo@, *k);
                if f < 0 {
                    assert(utxo@[i as int].0 != *k);
                }
                if 0 <= f < i {
                    assert(utxo@[f].0 != *k);
                }
                if f > i {
                    assert(utxo@[i as int].0 != *k);
                }
            }
            return Some(i);
        }
        i += 1;
    }
    proof {
        lemma_key_index_props(utxo@, *k);
        let f = key_index(utxo@, *k);
        if f >= 0 {
            assert(utxo@[f].0 != *k);
        }
    }
    None
}

/// Collect every input digest of a list of transactions, in order.
#[verifier::loop_isolation(false)]
fn flatten_inputs(txs: &Vec<Transaction>) -> (r: Vec<Digest>)
    ensures
        r@ == txs_inputs(txs@),
{
    let mut r: Vec<Digest> = Vec::new();
    let mut i: usize = 0;
    proof {
        assert(r@ =~= txs_inputs(txs@.take(0)));
    }
    while i < txs.len()
        invariant
            0 <= i <= txs@.len(),
            r@ == txs_inputs(txs@.take(i as int)),
        decreases txs@.len() - i,
    {
        proof {
            assert(txs@.take(i + 1).drop_last() =~= txs@.take(i as int));
            assert(txs@.take(i + 1).last() == txs@[i as int]);
        }
        append_vec(&mut r, &txs[i].body.txins);
        i += 1;
    }
    proof {
        assert(txs@.take(txs@.len() as int) =~= txs@);
    }
    r
}

/// Collect every created output of a list of transactions, in order.
#[verifier::loop_isolation(false)]
fn flatten_outputs(txs: &Vec<Transaction>) -> (r: Vec<Output>)
    ensures
        r@ == txs_outputs(txs@),
{
    let mut r: Vec<Output> = Vec::new();
    let mut i: usize = 0;
    proof {
        assert(r@ =~= txs_outputs(txs@.take(0)));
    }
    while i < txs.len()
        invariant
            0 <= i <= txs@.len(),
            r@ == txs_outputs(txs@.take(i as int)),
        decreases txs@.len() - i,
    {
        proof {
            assert(txs@.take(i + 1).drop_last() =~= txs@.take(i as int));
            assert(txs@.take(i + 1).last() == txs@[i as int]);
        }
        append_vec(&mut r, &txs[i].body.txouts);
        i += 1;
    }
    proof {
        assert(txs@.take(txs@.len() as int) =~= txs@);
    }
    r
}

/// Append a vector of plain values to another.
#[verifier::loop_isolation(false)]
pub fn append_vec<T: Copy>(dst: &mut Vec<T>, src: &Vec<T>)
    ensures
        final(dst)@ == old(dst)@ + src@,
{
    let mut i: usize = 0;
    proof {
        assert(dst@ =~= old(dst)@ + src@.take(0));
    }
    while i < src.len()
        invariant
            0 <= i <= src@.len(),
            dst@ == old(dst)@ + src@.take(i as int),
        decreases src@.len() - i,
    {
        dst.push(src[i]);
        proof {
            assert(dst@ =~= old(dst)@ + src@.take(i + 1));
        }
        i += 1;
    }
    proof {
        assert(src@.take(src@.len() as int) =~= src@);
    }
}

} // verus!
