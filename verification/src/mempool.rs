//! The memory pool of pending transactions.
//!
//! Transactions wait here, keyed by their digests, until a leader packs
//! them into a micro block.  After a block applies, the pool drops every
//! transaction that touches one of the block's spent or created outputs.

use vstd::prelude::*;
use crate::block::{BaseBlockHeader, Coinbase, MicroBlock, ViewChangeProof, clone_proof, proof_eq};
use crate::crypto::{Digest, Pk};
use crate::tx::{Transaction, clone_transaction, tx_eq, spec_hash_output, hash_output,
    spec_hash_transaction};

verus! {

/// The transaction a pool entry holds has the entry's digest.
pub open spec fn wf_pool(pool: Seq<(Digest, Transaction)>) -> bool {
    forall|i: int|
        0 <= i < pool.len() ==> (#[trigger] pool[i]).0 == spec_hash_transaction(pool[i].1)
}

/// Whether a transaction touches any of the listed spent inputs or created
/// outputs.
pub open spec fn tx_touches(tx: Transaction, ins: Seq<Digest>, outs: Seq<Digest>) -> bool {
    (exists|j: int| 0 <= j < tx.body.txins@.len() && ins.contains(#[trigger] tx.body.txins@[j]))
        || (exists|j: int|
        0 <= j < tx.body.txouts@.len() && outs.contains(
            #[trigger] spec_hash_output(tx.body.txouts@[j]),
        ))
}

/// Total number of inputs claimed by the first `n` pool entries.
pub open spec fn pool_inputs_count(pool: Seq<(Digest, Transaction)>, n: int) -> int
    decreases n,
{
    if n <= 0 {
        0
    } else {
        pool_inputs_count(pool, n - 1) + pool[n - 1].1.body.txins@.len()
    }
}

/// Total number of outputs created by the first `n` pool entries.
pub open spec fn pool_outputs_count(pool: Seq<(Digest, Transaction)>, n: int) -> int
    decreases n,
{
    if n <= 0 {
        0
    } else {
        pool_outputs_count(pool, n - 1) + pool[n - 1].1.body.txouts@.len()
    }
}

/// A count clipped to the machine range.
pub open spec fn sat_usize(n: int) -> int {
    if n <= usize::MAX {
        n
    } else {
        usize::MAX as int
    }
}

/// Number of UTXOs a transaction touches.
pub open spec fn tx_utxo_count(tx: Transaction) -> int {
    tx.body.txins@.len() + tx.body.txouts@.len() as int
}

/// The greedy packing of pool transactions into a block: take entries in
/// arrival order while their UTXO counts fit the remaining budget, and
/// stop at the first that does not fit.
pub open spec fn select_txs(pool: Seq<(Digest, Transaction)>, budget: int) -> Seq<Transaction>
    decreases pool.len(),
{
    if pool.len() == 0 {
        Seq::empty()
    } else if tx_utxo_count(pool[0].1) <= budget {
        seq![pool[0].1] + select_txs(pool.drop_first(), budget - tx_utxo_count(pool[0].1))
    } else {
        Seq::empty()
    }
}

/// What pruning leaves behind: no kept transaction touches the listed
/// inputs or outputs, the pool can only shrink, and every old entry that
/// touches nothing is kept under its digest.
pub open spec fn pruned_from(
    newp: Seq<(Digest, Transaction)>,
    oldp: Seq<(Digest, Transaction)>,
    ins: Seq<Digest>,
    outs: Seq<Digest>,
) -> bool {
    &&& newp.len() <= oldp.len()
    &&& forall|k: int|
        0 <= k < newp.len() ==> !tx_touches((#[trigger] newp[k]).1, ins, outs)
    &&& forall|j: int|
        0 <= j < oldp.len() && !tx_touches((#[trigger] oldp[j]).1, ins, outs) ==> exists|k: int|
            0 <= k < newp.len() && (#[trigger] newp[k]).0 == oldp[j].0
}

/// The memory pool.
pub struct Mempool {
    /// Pending transactions in arrival order, keyed by their digests.
    pub pool: Vec<(Digest, Transaction)>,
}

impl Mempool {
    /// The pool's entries.
    pub open spec fn spec_pool(self) -> Seq<(Digest, Transaction)> {
        self.pool@
    }

    /// The pool's invariant: entries are keyed by their digests.
    pub open spec fn wf(self) -> bool {
        wf_pool(self.pool@)
    }

    /// An empty pool.
    pub fn new() -> (r: Mempool)
        ensures
            r.wf(),
            r.spec_pool().len() == 0,
    {
        Mempool { pool: Vec::new() }
    }

    /// Number of pending transactions.
    pub fn len(&self) -> (r: usize)
        ensures
            r == self.spec_pool().len(),
    {
        self.pool.len()
    }

    /// Whether a transaction with this digest is pending.
    #[verifier::loop_isolation(false)]
    pub fn contains(&self, h: &Digest) -> (r: bool)
        ensures
            r == exists|i: int|
                0 <= i < self.spec_pool().len() && (#[trigger] self.spec_pool()[i]).0 == *h,
    {
        let mut i: usize = 0;
        while i < self.pool.len()
            invariant
                0 <= i <= self.pool@.len(),
                forall|j: int| 0 <= j < i ==> (#[trigger] self.pool@[j]).0 != *h,
            decreases self.pool@.len() - i,
        {
            if self.pool[i].0.bits == h.bits {
                proof {
                    assert((self.spec_pool()[i as int]).0 == *h);
                }
                return true;
            }
            i += 1;
        }
        false
    }

    /// Total number of inputs claimed by pending transactions, saturating
    /// at the machine limit.
    #[verifier::loop_isolation(false)]
    pub fn inputs_len(&self) -> (r: usize)
        ensures
            r == sat_usize(pool_inputs_count(self.spec_pool(), self.spec_pool().len() as int)),
    {
        let mut acc: usize = 0;
        let mut i: usize = 0;
        while i < self.pool.len()
            invariant
                0 <= i <= self.pool@.len(),
                acc == sat_usize(pool_inputs_count(self.pool@, i as int)),
            decreases self.pool@.len() - i,
        {
            proof {
                lemma_pool_counts_nonneg(self.pool@, i + 1);
            }
            let n = self.pool[i].1.body.txins.len();
            if acc > usize::MAX - n {
                acc = usize::MAX;
            } else {
                acc = acc + n;
            }
            i += 1;
        }
        acc
    }

    /// Total number of outputs created by pending transactions, saturating
    /// at the machine limit.
    #[verifier::loop_isolation(false)]
    pub fn outputs_len(&self) -> (r: usize)
        ensures
            r == sat_usize(pool_outputs_count(self.spec_pool(), self.spec_pool().len() as int)),
    {
        let mut acc: usize = 0;
        let mut i: usize = 0;
        while i < self.pool.len()
            invariant
                0 <= i <= self.pool@.len(),
                acc == sat_usize(pool_outputs_count(self.pool@, i as int)),
            decreases self.pool@.len() - i,
        {
            proof {
                lemma_pool_counts_nonneg(self.pool@, i + 1);
            }
            let n = self.pool[i].1.body.txouts.len();
            if acc > usize::MAX - n {
                acc = usize::MAX;
            } else {
                acc = acc + n;
            }
            i += 1;
        }
        acc
    }

    /// Queue a transaction under its digest.  A transaction already pending
    /// under the same digest is replaced.
    #[verifier::loop_isolation(false)]
    pub fn push_tx(&mut self, h: Digest, tx: Transaction)
        requires
            old(self).wf(),
            h == spec_hash_transaction(tx),
        ensures
            final(self).wf(),
            final(self).spec_pool().len() >= 1,
            (final(self).spec_pool().last()).0 == h,
            tx_eq(final(self).spec_pool().last().1, tx),
    {
        let mut i: usize = 0;
        let mut found: Option<usize> = None;
        while i < self.pool.len()
            invariant
                0 <= i <= self.pool@.len(),
                match found {
                    Some(j) => 0 <= j < self.pool@.len() && self.pool@[j as int].0 == h,
                    None => true,
                },
                self.pool@ == old(self).pool@,
            decreases self.pool@.len() - i,
        {
            if self.pool[i].0.bits == h.bits {
                proof {
                    assert(self.pool@[i as int].0 == h);
                }
                found = Some(i);
            }
            i += 1;
        }
        match found {
            Some(j) => {
                self.pool.remove(j);
            },
            None => {},
        }
        proof {
            assert forall|k: int|
                0 <= k < self.pool@.len() implies (#[trigger] self.pool@[k]).0
                == spec_hash_transaction(self.pool@[k].1) by {
                if self.pool@.len() < old(self).pool@.len() {
                }
            }
        }
        self.pool.push((h, clone_transaction(&tx)));
        proof {
            reveal(crate::tx::spec_hash_tx_body);
        }
    }

    /// Drop every pending transaction that claims one of the spent inputs
    /// or recreates one of the created outputs; every other transaction is
    /// kept.
    #[verifier::loop_isolation(false)]
    #[verifier::rlimit(40)]
    pub fn prune(&mut self, input_hashes: &Vec<Digest>, output_hashes: &Vec<Digest>)
        requires
            old(self).wf(),
        ensures
            final(self).wf(),
            pruned_from(
                final(self).spec_pool(),
                old(self).spec_pool(),
                input_hashes@,
                output_hashes@,
            ),
    {
        let mut kept: Vec<(Digest, Transaction)> = Vec::new();
        let mut i: usize = 0;
        while i < self.pool.len()
            invariant
                0 <= i <= self.pool@.len(),
                self.pool@ == old(self).pool@,
                kept@.len() <= i,
                wf_pool(kept@),
                forall|k: int|
                    0 <= k < kept@.len() ==> !tx_touches(
                        (#[trigger] kept@[k]).1,
                        input_hashes@,
                        output_hashes@,
                    ),
                forall|j: int|
                    0 <= j < i && !tx_touches(
                        (#[trigger] old(self).pool@[j]).1,
                        input_hashes@,
                        output_hashes@,
                    ) ==> exists|k: int|
                        0 <= k < kept@.len() && (#[trigger] kept@[k]).0 == old(self).pool@[j].0,
            decreases self.pool@.len() - i,
        {
            let touches = tx_touches_exec(&self.pool[i].1, input_hashes, output_hashes);
            let ghost prev_kept = kept@;
            if !touches {
                let copy = clone_transaction(&self.pool[i].1);
                proof {
                    reveal(crate::tx::spec_hash_tx_body);
                    assert(spec_hash_transaction(copy) == spec_hash_transaction(
                        self.pool@[i as int].1,
                    ));
                    assert(!tx_touches(copy, input_hashes@, output_hashes@));
                }
                kept.push((self.pool[i].0, copy));
                proof {
                    assert(self.pool@[i as int] == old(self).pool@[i as int]);
                    assert((kept@[kept@.len() - 1]).0 == old(self).pool@[i as int].0 && tx_eq(
                        kept@[kept@.len() - 1].1,
                        old(self).pool@[i as int].1,
                    ));
                }
            }
            proof {
                assert forall|j: int|
                    0 <= j < i + 1 && !tx_touches(
                        (#[trigger] old(self).pool@[j]).1,
                        input_hashes@,
                        output_hashes@,
                    ) implies exists|k: int|
                    0 <= k < kept@.len() && (#[trigger] kept@[k]).0 == old(self).pool@[j].0 by {
                    if j < i {
                        let w = choose|k: int|
                            0 <= k < prev_kept.len() && (#[trigger] prev_kept[k]).0 == old(
                                self,
                            ).pool@[j].0;
                        assert(kept@[w] == prev_kept[w]);
                    } else {
                        assert(kept@[kept@.len() - 1].0 == old(self).pool@[j].0);
                    }
                }
            }
            i += 1;
        }
        proof {
            assert(i == self.pool@.len());
            assert(pruned_from(kept@, old(self).pool@, input_hashes@, output_hashes@));
        }
        self.pool = kept;
    }

    /// Pack pending transactions into a new micro block: take them in
    /// arrival order while the UTXO budget lasts, stopping at the first
    /// that does not fit.  The caller signs the block.
    #[verifier::loop_isolation(false)]
    pub fn create_block(
        &self,
        previous: Digest,
        version: u64,
        height: u64,
        block_reward: i64,
        random: u64,
        view_change: u32,
        view_change_proof: Option<ViewChangeProof>,
        timestamp: u64,
        max_utxo_in_block: usize,
    ) -> (r: MicroBlock)
        requires
            self.wf(),
        ensures
            r.base.previous == previous,
            r.base.version == version,
            r.base.height == height,
            r.base.view_change == view_change,
            r.base.timestamp == timestamp,
            r.base.random == random,
            r.coinbase.block_reward == block_reward,
            crate::block::txs_eq(
                r.transactions@,
                select_txs(self.spec_pool(), max_utxo_in_block as int),
            ),
            match (r.view_change_proof, view_change_proof) {
                (Some(p), Some(q)) => proof_eq(p, q),
                (None, None) => true,
                _ => false,
            },
    {
        let mut transactions: Vec<Transaction> = Vec::new();
        let ghost mut orig: Seq<Transaction> = Seq::empty();
        let mut budget: usize = max_utxo_in_block;
        let mut i: usize = 0;
        proof {
            assert(self.pool@.skip(0) =~= self.pool@);
            assert(orig + select_txs(self.pool@.skip(0), budget as int) =~= select_txs(
                self.pool@,
                max_utxo_in_block as int,
            ));
        }
        while i < self.pool.len()
            invariant
                0 <= i <= self.pool@.len(),
                budget <= max_utxo_in_block,
                orig.len() == transactions@.len(),
                forall|k: int| 0 <= k < orig.len() ==> tx_eq(#[trigger] transactions@[k], orig[k]),
                orig + select_txs(self.pool@.skip(i as int), budget as int) == select_txs(
                    self.pool@,
                    max_utxo_in_block as int,
                ),
            decreases self.pool@.len() - i,
        {
            proof {
                let sk = self.pool@.skip(i as int);
                assert(sk[0] == self.pool@[i as int]);
                assert(sk.drop_first() =~= self.pool@.skip(i + 1));
            }
            let n_ins = self.pool[i].1.body.txins.len();
            let n_outs = self.pool[i].1.body.txouts.len();
            if n_ins > budget || n_outs > budget - n_ins {
                proof {
                    let sk = self.pool@.skip(i as int);
                    assert(select_txs(sk, budget as int) =~= Seq::<Transaction>::empty());
                    assert(orig + select_txs(sk, budget as int) =~= orig);
                }
                break ;
            }
            transactions.push(clone_transaction(&self.pool[i].1));
            proof {
                let sk = self.pool@.skip(i as int);
                assert(select_txs(sk, budget as int) == seq![self.pool@[i as int].1] + select_txs(
                    self.pool@.skip(i + 1),
                    budget - tx_utxo_count(self.pool@[i as int].1),
                ));
                assert(orig + select_txs(sk, budget as int) =~= (orig.push(
                    self.pool@[i as int].1,
                )) + select_txs(
                    self.pool@.skip(i + 1),
                    budget - tx_utxo_count(self.pool@[i as int].1),
                ));
                orig = orig.push(self.pool@[i as int].1);
            }
            budget = budget - n_ins - n_outs;
            i += 1;
        }
        proof {
            if i == self.pool@.len() {
                assert(self.pool@.skip(i as int) =~= Seq::<(Digest, Transaction)>::empty());
                assert(orig + select_txs(self.pool@.skip(i as int), budget as int) =~= orig);
            }
            assert(orig == select_txs(self.pool@, max_utxo_in_block as int));
        }
        let base = BaseBlockHeader { version, previous, height, view_change, timestamp, random };
        let vcp = match &view_change_proof {
            Some(p) => Some(clone_proof(p)),
            None => None,
        };
        MicroBlock {
            base,
            view_change_proof: vcp,
            coinbase: Coinbase { block_reward },
            transactions,
            pkey: Pk { val: 0 },
            sig: crate::crypto::Sig { val: 0 },
        }
    }
}

/// Prefix UTXO counts never shrink.
pub proof fn lemma_pool_counts_nonneg(pool: Seq<(Digest, Transaction)>, n: int)
    requires
        0 <= n,
    ensures
        pool_inputs_count(pool, n) >= pool_inputs_count(pool, n - 1) >= 0,
        pool_outputs_count(pool, n) >= pool_outputs_count(pool, n - 1) >= 0,
    decreases n,
{
    if n > 0 {
        lemma_pool_counts_nonneg(pool, n - 1);
    }
}

/// Whether a transaction claims one of the listed inputs or recreates one
/// of the listed outputs.
#[verifier::loop_isolation(false)]
pub fn tx_touches_exec(tx: &Transaction, ins: &Vec<Digest>, outs: &Vec<Digest>) -> (r: bool)
    ensures
        r == tx_touches(*tx, ins@, outs@),
{
    let mut j: usize = 0;
    while j < tx.body.txins.len()
        invariant
            0 <= j <= tx.body.txins@.len(),
            forall|k: int| 0 <= k < j ==> !ins@.contains(#[trigger] tx.body.txins@[k]),
        decreases tx.body.txins@.len() - j,
    {
        if digest_in(ins, &tx.body.txins[j]) {
            return true;
        }
        j += 1;
    }
    let mut j: usize = 0;
    while j < tx.body.txouts.len()
        invariant
            0 <= j <= tx.body.txouts@.len(),
            forall|k: int|
                0 <= k < j ==> !outs@.contains(#[trigger] spec_hash_output(tx.body.txouts@[k])),
        decreases tx.body.txouts@.len() - j,
    {
        let h = hash_output(&tx.body.txouts[j]);
        if digest_in(outs, &h) {
            return true;
        }
        j += 1;
    }
    false
}

/// Whether a digest is listed.
#[verifier::loop_isolation(false)]
pub fn digest_in(list: &Vec<Digest>, d: &Digest) -> (r: bool)
    ensures
        r == list@.contains(*d),
{
    let mut i: usize = 0;
    while i < list.len()
        invariant
            0 <= i <= list@.len(),
            forall|j: int| 0 <= j < i ==> list@[j] != *d,
        decreases list@.len() - i,
    {
        if list[i].bits == d.bits {
            proof {
                assert(list@[i as int] == *d);
            }
            return true;
        }
        i += 1;
    }
    false
}

} // verus!
