//! The view-change protocol: replacing a silent or faulty leader.
//!
//! When a validator's micro-block timer fires it signs the witness of its
//! current tip and broadcasts the vote.  A collector accumulates votes that
//! match the local tip; once the voters' stake reaches a supermajority it
//! aggregates the votes into a sealed proof.  A sealed proof verifies
//! against a tip exactly when a stake supermajority, including the next
//! view's leader, signed that tip's witness.

use vstd::prelude::*;
use crate::block::{ChainInfo, ViewChangeProof, clone_proof, proof_eq, spec_hash_chain_info,
    hash_chain_info};
use crate::chain::Blockchain;
use crate::crypto::{sign_val, sign_hash, check_hash, Pk, Sig, Sk};
use crate::election::{wf_validators, total_stake, is_validator_in, is_validator,
    spec_select_leader};
use crate::error::{ConsensusError, NodeError};
use crate::multisignature::{create_multi_signature, spec_check_multi_signature,
    check_multi_signature, bv_bits, bits_from, agg_sig_upto, stake_of_bits, has_key, uniq_keys,
    all_signed, signed_stake, lookup_sig, lemma_create_then_check};
use crate::config::WITNESSES_MAX;
use crate::tx::copy_vec;

verus! {

/// A signed vote to skip the current leader: the tip witness the voter
/// observed, the voter, and its signature over the witness digest.
#[derive(Clone, Copy, Debug, PartialEq, Eq, Structural)]
pub struct ViewChangeMessage {
    pub chain: ChainInfo,
    pub pkey: Pk,
    pub sig: Sig,
}

/// A sealed view-change proof together with the tip it talks about.
#[derive(Debug)]
pub struct SealedViewChangeProof {
    pub chain: ChainInfo,
    pub proof: ViewChangeProof,
}

/// Two sealed proofs hold the same content.
pub open spec fn sealed_eq(a: SealedViewChangeProof, b: SealedViewChangeProof) -> bool {
    a.chain == b.chain && proof_eq(a.proof, b.proof)
}

/// Copy a sealed proof.
pub fn clone_sealed_proof(p: &SealedViewChangeProof) -> (r: SealedViewChangeProof)
    ensures
        sealed_eq(r, *p),
{
    SealedViewChangeProof { chain: p.chain, proof: clone_proof(&p.proof) }
}

/// Validate a sealed view-change proof against a tip witness: the multi-
/// signature over the witness digest must verify with the leader of the
/// witness's next view, selected by the randomness `random` of the block
/// the witness points at.  True exactly when a stake supermajority that
/// includes that next leader signed this witness.
pub fn validate_view_change_proof(
    proof: &ViewChangeProof,
    chain_info: &ChainInfo,
    chain: &Blockchain,
    random: u64,
) -> (r: bool)
    requires
        chain.wf(),
    ensures
        r == (chain_info.view_change < u32::MAX && spec_check_multi_signature(
            spec_hash_chain_info(*chain_info),
            proof.multisig,
            bv_bits(proof.multimap),
            chain.spec_validators(),
            spec_select_leader(
                chain.spec_validators(),
                random,
                (chain_info.view_change + 1) as u32,
            ),
            total_stake(chain.spec_validators()),
        )),
{
    if chain_info.view_change == u32::MAX {
        return false;
    }
    let h = hash_chain_info(chain_info);
    let leader = crate::election::select_leader(
        chain.validators(),
        random,
        chain_info.view_change + 1,
    );
    let total = chain.total_slots();
    check_multi_signature(
        &h,
        &proof.multisig,
        &proof.multimap,
        chain.validators(),
        &leader,
        total,
    )
}

/// The tip witness a chain currently presents.
pub open spec fn spec_tip(chain: Blockchain) -> ChainInfo {
    ChainInfo {
        height: chain.spec_height() as u64,
        last_block: chain.spec_last_block_hash(),
        view_change: chain.spec_view_change(),
    }
}

/// Collects view-change votes at the local tip and seals a proof once a
/// stake supermajority has voted.
pub struct ViewChangeCollector {
    /// The validator's own keys.
    pub skey: Sk,
    pub pkey: Pk,
    /// The validator set of the epoch being collected for.
    pub validators: Vec<(Pk, i64)>,
    /// The tip the collected votes talk about.
    pub binding: Option<ChainInfo>,
    /// The votes collected so far: voter and signature.
    pub collected: Vec<(Pk, Sig)>,
}

impl ViewChangeCollector {
    /// The collector's votes are genuine signatures of distinct validators
    /// over the digest of the tip it is bound to.
    pub open spec fn wf(self) -> bool {
        &&& wf_validators(self.validators@)
        &&& self.validators@.len() > 0
        &&& self.validators@.len() <= WITNESSES_MAX
        &&& total_stake(self.validators@) <= i64::MAX
        &&& uniq_keys(self.collected@)
        &&& forall|k: int|
            0 <= k < self.collected@.len() ==> is_validator_in(
                self.validators@,
                #[trigger] self.collected@[k].0,
            )
        &&& match self.binding {
            Some(ci) => all_signed(spec_hash_chain_info(ci), self.collected@),
            None => self.collected@.len() == 0,
        }
    }

    /// Bind a collector to the chain's current validator set.
    pub fn new(chain: &Blockchain, pkey: Pk, skey: Sk) -> (r: ViewChangeCollector)
        requires
            chain.wf(),
        ensures
            r.wf(),
            r.pkey == pkey,
            r.skey == skey,
            r.validators@ == chain.spec_validators(),
            r.binding is None,
    {
        ViewChangeCollector {
            skey,
            pkey,
            validators: copy_vec(chain.validators()),
            binding: None,
            collected: Vec::new(),
        }
    }

    /// The vote this validator casts when its micro-block timer fires: the
    /// observed tip witness, signed.
    pub fn handle_timeout(&self, chain_info: ChainInfo) -> (r: ViewChangeMessage)
        ensures
            r.chain == chain_info,
            r.pkey == self.pkey,
            r.sig.val == sign_val(spec_hash_chain_info(chain_info).bits, self.skey.val),
    {
        let h = hash_chain_info(&chain_info);
        let sig = sign_hash(&h, &self.skey);
        ViewChangeMessage { chain: chain_info, pkey: self.pkey, sig }
    }

    /// The votes held after taking in a matching, valid vote: a tip the
    /// collector was not bound to restarts the collection, a repeated
    /// voter changes nothing, and a fresh voter is appended.
    pub open spec fn collected_after(self, tip: ChainInfo, msg: ViewChangeMessage) -> Seq<
        (Pk, Sig),
    > {
        if self.binding == Some(tip) {
            if has_key(self.collected@, msg.pkey) {
                self.collected@
            } else {
                self.collected@.push((msg.pkey, msg.sig))
            }
        } else {
            seq![(msg.pkey, msg.sig)]
        }
    }

    /// Take in a vote.
    ///
    /// A vote whose witness does not match the local tip is dropped; a vote
    /// from a stranger or with a bad signature is an error; a repeated vote
    /// is a no-op.  A fresh matching vote is collected, and the proof is
    /// sealed exactly when the voters then hold two thirds of the stake.
    pub fn handle_message(&mut self, chain: &Blockchain, msg: ViewChangeMessage) -> (r: Result<
        Option<SealedViewChangeProof>,
        NodeError,
    >)
        requires
            old(self).wf(),
            chain.wf(),
            old(self).validators@ == chain.spec_validators(),
        ensures
            final(self).wf(),
            final(self).validators@ == old(self).validators@,
            final(self).pkey == old(self).pkey,
            final(self).skey == old(self).skey,
            // a stale or forked vote is dropped without effect
            msg.chain != spec_tip(*chain) ==> r == Ok::<
                Option<SealedViewChangeProof>,
                NodeError,
            >(None) && *final(self) == *old(self),
            // a stranger's vote is refused
            msg.chain == spec_tip(*chain) && !is_validator_in(old(self).validators@, msg.pkey)
                ==> r == Err::<Option<SealedViewChangeProof>, NodeError>(
                NodeError::Consensus(ConsensusError::UnknownMessageSender),
            ) && *final(self) == *old(self),
            // a bad signature is refused
            msg.chain == spec_tip(*chain) && is_validator_in(old(self).validators@, msg.pkey)
                && !crate::crypto::spec_check_hash(
                spec_hash_chain_info(msg.chain),
                msg.sig,
                msg.pkey,
            ) ==> r == Err::<Option<SealedViewChangeProof>, NodeError>(
                NodeError::Consensus(ConsensusError::InvalidMessageSignature),
            ) && *final(self) == *old(self),
            // a repeated vote is a no-op
            msg.chain == spec_tip(*chain) && is_validator_in(old(self).validators@, msg.pkey)
                && crate::crypto::spec_check_hash(
                spec_hash_chain_info(msg.chain),
                msg.sig,
                msg.pkey,
            ) && old(self).binding == Some(msg.chain) && has_key(old(self).collected@, msg.pkey)
                ==> r == Ok::<Option<SealedViewChangeProof>, NodeError>(None) && *final(self)
                == *old(self),
            // a fresh matching vote is collected, and seals the proof
            // exactly on a stake supermajority
            msg.chain == spec_tip(*chain) && is_validator_in(old(self).validators@, msg.pkey)
                && crate::crypto::spec_check_hash(
                spec_hash_chain_info(msg.chain),
                msg.sig,
                msg.pkey,
            ) && !(old(self).binding == Some(msg.chain) && has_key(
                old(self).collected@,
                msg.pkey,
            )) ==> r is Ok && final(self).collected@ == old(self).collected_after(msg.chain, msg)
                && final(self).binding == Some(msg.chain) && ((r matches Ok(sealed)
                && sealed is Some) <==> 3 * stake_of_bits(
                old(self).validators@,
                bits_from(old(self).validators@, old(self).collected_after(msg.chain, msg)),
                old(self).validators@.len() as int,
            ) >= 2 * total_stake(old(self).validators@)),
            match r {
                Ok(Some(sealed)) => {
                    &&& sealed.chain == msg.chain
                    &&& final(self).binding == Some(msg.chain)
                    &&& sealed.proof.multisig.val == agg_sig_upto(
                        final(self).validators@,
                        final(self).collected@,
                        final(self).validators@.len() as int,
                    )
                    &&& bv_bits(sealed.proof.multimap) == bits_from(
                        final(self).validators@,
                        final(self).collected@,
                    )
                    &&& all_signed(spec_hash_chain_info(msg.chain), final(self).collected@)
                    &&& 3 * stake_of_bits(
                        final(self).validators@,
                        bits_from(final(self).validators@, final(self).collected@),
                        final(self).validators@.len() as int,
                    ) >= 2 * total_stake(final(self).validators@)
                },
                Ok(None) => true,
                Err(e) => *final(self) == *old(self) && (e == NodeError::Consensus(
                    ConsensusError::UnknownMessageSender,
                ) || e == NodeError::Consensus(ConsensusError::InvalidMessageSignature)),
            },
    {
        let tip = chain.chain_info();
        // stale or forked vote: not about our tip
        if !(msg.chain.height == tip.height && msg.chain.last_block.bits == tip.last_block.bits
            && msg.chain.view_change == tip.view_change) {
            return Ok(None);
        }
        proof {
            assert(msg.chain == tip);
        }
        // the voter must be a current validator with a valid signature
        if !is_validator(&self.validators, &msg.pkey) {
            return Err(NodeError::Consensus(ConsensusError::UnknownMessageSender));
        }
        let h = hash_chain_info(&msg.chain);
        if !check_hash(&h, &msg.sig, &msg.pkey) {
            return Err(NodeError::Consensus(ConsensusError::InvalidMessageSignature));
        }
        // rebind to the current tip, discarding votes for older tips
        let rebind = match &self.binding {
            Some(ci) => !(ci.height == tip.height && ci.last_block.bits == tip.last_block.bits
                && ci.view_change == tip.view_change),
            None => true,
        };
        if rebind {
            self.binding = Some(tip);
            self.collected = Vec::new();
        }
        proof {
            assert(self.binding == Some(msg.chain));
        }
        // a repeated vote is a no-op
        match lookup_sig(&self.collected, &msg.pkey) {
            Some(_) => {
                return Ok(None);
            },
            None => {},
        }
        self.collected.push((msg.pkey, msg.sig));
        proof {
            assert(forall|k: int|
                0 <= k < self.collected@.len() - 1 ==> #[trigger] self.collected@[k] == old(
                    self,
                ).collected@[k] || rebind);
        }
        // seal once the voters hold a supermajority of the stake
        let stake = signed_stake(&self.validators, &self.collected);
        let total = crate::election::total_slots(&self.validators);
        if 3 * (stake as i128) >= 2 * (total as i128) {
            let (multisig, multimap) = create_multi_signature(&self.validators, &self.collected);
            let sealed = SealedViewChangeProof {
                chain: msg.chain,
                proof: ViewChangeProof { multisig, multimap },
            };
            Ok(Some(sealed))
        } else {
            Ok(None)
        }
    }
}

/// Round trip of the view-change protocol: votes of a stake supermajority
/// that includes the next view's leader, each a genuine signature over the
/// same tip witness by a distinct validator, aggregate into a proof that
/// passes verification against that witness.
pub proof fn lemma_view_change_round_trip(
    ci: ChainInfo,
    v: Seq<(Pk, i64)>,
    votes: Seq<(Pk, Sig)>,
    random: u64,
)
    requires
        wf_validators(v),
        v.len() > 0,
        ci.view_change < u32::MAX,
        all_signed(spec_hash_chain_info(ci), votes),
        forall|k: int| 0 <= k < votes.len() ==> is_validator_in(v, #[trigger] votes[k].0),
        3 * stake_of_bits(v, bits_from(v, votes), v.len() as int) >= 2 * total_stake(v),
        has_key(votes, spec_select_leader(v, random, (ci.view_change + 1) as u32)),
        is_validator_in(v, spec_select_leader(v, random, (ci.view_change + 1) as u32)),
    ensures
        spec_check_multi_signature(
            spec_hash_chain_info(ci),
            Sig { val: agg_sig_upto(v, votes, v.len() as int) },
            bits_from(v, votes),
            v,
            spec_select_leader(v, random, (ci.view_change + 1) as u32),
            total_stake(v),
        ),
{
    lemma_create_then_check(
        spec_hash_chain_info(ci),
        v,
        votes,
        spec_select_leader(v, random, (ci.view_change + 1) as u32),
    );
}

} // verus!
