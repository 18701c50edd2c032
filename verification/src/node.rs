//! The node driver: a pure state machine over the chain, the mempool and
//! the role state.
//!
//! The driver performs no I/O.  Every handler takes a decoded event (a
//! block, a transaction, a consensus or view-change message, a timer
//! expiry) plus the current time, mutates the chain and the role state, and
//! appends outgoing messages and notifications to its outbox, which the
//! surrounding event loop drains and delivers.

use vstd::prelude::*;
use crate::block::{Block, BaseBlockHeader, ChainInfo, MicroBlock, MacroBlock, clone_block,
    clone_proof, clone_micro_block, clone_macro_block, spec_hash_block, hash_block,
    hash_macro_block, spec_hash_macro_block, spec_hash_chain_info, spec_hash_micro_block,
    proof_eq};
use crate::chain::{Blockchain, ElectionInfo, EscrowInfo, resolve_inputs};
use crate::config::{ChainConfig, VERSION, WITNESSES_MAX};
use crate::consensus::{BlockConsensus, ConsensusState};
use crate::crypto::{mix, sign_hash, check_hash, spec_check_hash, sign_val, spec_mix, Digest, Pk,
    Sig, Sk};
use crate::election::{is_validator_in, select_leader, spec_select_leader, total_stake};
use crate::error::{BlockError, ConsensusError, ForkError, NodeError, TransactionError};
use crate::mempool::{Mempool, sat_usize, pool_inputs_count, pool_outputs_count};
use crate::message::{ConsensusMessage, ConsensusMessageBody, clone_message, spec_hash_message};
use crate::multisignature::{create_multi_signature, check_multi_signature, merge_multi_signature,
    spec_check_multi_signature, bits_from, agg_sig_upto, bv_bits, bv_capacity, uniq_keys};
use crate::tx::{Output, Transaction, copy_vec, hash_transaction, hash_output,
    spec_hash_transaction, spec_valid_transaction};
use crate::view_change::{SealedViewChangeProof, ViewChangeCollector, ViewChangeMessage,
    spec_tip, validate_view_change_proof};

verus! {

/// Notification fired after a block joins the chain.
#[derive(Clone, Copy, Debug, PartialEq, Eq, Structural)]
pub struct BlockAdded {
    pub height: u64,
    pub hash: Digest,
    pub lag: i64,
    pub view_change: u32,
    pub local_timestamp: i64,
    pub remote_timestamp: i64,
    pub synchronized: bool,
    pub epoch: u64,
}

/// Notification fired after the epoch changes.
#[derive(Debug)]
pub struct EpochChanged {
    pub epoch: u64,
    pub facilitator: Pk,
    pub validators: Vec<(Pk, i64)>,
}

/// Notification fired after outputs are spent or created.
#[derive(Debug)]
pub struct OutputsChanged {
    pub epoch: u64,
    pub inputs: Vec<Output>,
    pub outputs: Vec<Output>,
}

/// An outgoing effect of the driver for the event loop to deliver.
#[derive(Debug)]
pub enum NodeAction {
    /// Broadcast a consensus message.
    PublishConsensus(ConsensusMessage),
    /// Broadcast a view-change vote.
    PublishViewChange(ViewChangeMessage),
    /// Send a sealed view-change proof to one peer.
    SendViewChangeProof(Pk, SealedViewChangeProof),
    /// Broadcast a sealed block.
    PublishBlock(Block),
    /// Send local blocks back to a lagging peer.
    SendBlocks(Pk, Vec<Block>),
    /// Ask a peer for missing history.
    RequestHistory(Pk),
    /// Notify subscribers that a block was added.
    NotifyBlockAdded(BlockAdded),
    /// Notify subscribers that the epoch changed.
    NotifyEpochChanged(EpochChanged),
    /// Notify subscribers that outputs changed.
    NotifyOutputsChanged(OutputsChanged),
}

/// A decoded inbound event.
#[derive(Debug)]
pub enum NodeMessage {
    Transaction(Transaction),
    Consensus(ConsensusMessage),
    SealedBlock(Block),
    ViewChangeMessage(ViewChangeMessage),
    ViewChangeProofMessage(Pk, SealedViewChangeProof),
    PopBlock,
}

/// A request of the public API.
#[derive(Clone, Copy, Debug, PartialEq, Eq, Structural)]
pub enum NodeRequest {
    ElectionInfo,
    EscrowInfo,
}

/// A response of the public API.
#[derive(Clone, Copy, Debug, PartialEq, Eq, Structural)]
pub enum NodeResponse {
    ElectionInfo(ElectionInfo),
    EscrowInfo(EscrowInfo),
}

/// The role state: auditor or validator, in the micro or macro cadence.
/// Each variant carries exactly the machinery its role needs.
pub enum Validation {
    /// Tracking micro blocks without a validator slot.
    MicroBlockAuditor,
    /// Validating micro blocks: collects view changes, buffers early macro
    /// consensus messages, and runs the propose and view-change timers.
    MicroBlockValidator {
        view_change_collector: ViewChangeCollector,
        future_consensus_messages: Vec<ConsensusMessage>,
        propose_timer: bool,
        view_change_timer: bool,
    },
    /// Tracking the epoch's macro block without a validator slot.
    MacroBlockAuditor,
    /// Validating the epoch's macro block: runs the round engine and the
    /// round timer.
    MacroBlockValidator { consensus: BlockConsensus, view_change_timer: bool },
}

/// The node service.
pub struct NodeService {
    /// Validation thresholds and cadence settings.
    pub cfg: ChainConfig,
    /// The chain.
    pub chain: Blockchain,
    /// This node's validator keys.
    pub skey: Sk,
    pub pkey: Pk,
    /// Orphan blocks, strictly ascending by height.
    pub future_blocks: Vec<(u64, Block)>,
    /// Pending transactions.
    pub mempool: Mempool,
    /// The role state.
    pub validation: Validation,
    /// Outgoing effects, drained by the event loop.
    pub outbox: Vec<NodeAction>,
    /// Counter of detected same-view double blocks (cheating leaders).
    pub cheats: u64,
    /// Counter of auto-committed macro blocks (silent leaders).
    pub autocommits: u64,
    /// Counter of resolved forks.
    pub forks: u64,
    /// Counter of micro-block view changes this node voted in.
    pub micro_view_changes: u64,
    /// Counter of macro-block round changes.
    pub macro_view_changes: u64,
}

/// Orphans are kept strictly ascending by height.
pub open spec fn wf_orphans(s: Seq<(u64, Block)>) -> bool {
    forall|i: int, j: int| 0 <= i < j < s.len() ==> s[i].0 < s[j].0
}

impl NodeService {
    /// The driver's invariant: the chain and the role state are well
    /// formed, the role machinery is bound to the chain's validator set and
    /// this node's keys, and the orphan buffer is ordered.
    pub open spec fn wf_core(self) -> bool {
        &&& self.cfg.wf()
        &&& self.chain.wf()
        &&& self.pkey == self.skey.spec_pk()
        &&& wf_orphans(self.future_blocks@)
        &&& self.mempool.wf()
    }

    pub open spec fn wf(self) -> bool {
        &&& self.wf_core()
        &&& match self.validation {
            Validation::MicroBlockAuditor => true,
            Validation::MicroBlockValidator { view_change_collector, .. } => {
                &&& view_change_collector.wf()
                &&& view_change_collector.validators@ == self.chain.spec_validators()
                &&& view_change_collector.pkey == self.pkey
                &&& view_change_collector.skey == self.skey
            },
            Validation::MacroBlockAuditor => true,
            Validation::MacroBlockValidator { consensus, .. } => {
                &&& consensus.wf()
                &&& consensus.validators@ == self.chain.spec_validators()
                &&& consensus.pkey == self.pkey
                &&& consensus.skey == self.skey
                &&& consensus.height == self.chain.spec_height()
            },
        }
    }

    /// The outbox only grew, and none of the appended actions is a history
    /// request.
    pub open spec fn appends_no_history(pre: Seq<NodeAction>, post: Seq<NodeAction>) -> bool {
        &&& pre.is_prefix_of(post)
        &&& forall|k: int|
            pre.len() <= k < post.len() ==> !((#[trigger] post[k]) is RequestHistory)
    }

    /// Growing an outbox without history requests composes.
    pub proof fn lemma_no_history_trans(a: Seq<NodeAction>, b: Seq<NodeAction>, c: Seq<NodeAction>)
        requires
            Self::appends_no_history(a, b),
            Self::appends_no_history(b, c),
        ensures
            Self::appends_no_history(a, c),
    {
        assert(b.subrange(0, a.len() as int) =~= a);
        assert(c.subrange(0, b.len() as int) =~= b);
        assert(c.subrange(0, a.len() as int) =~= a) by {
            assert(forall|k: int| 0 <= k < a.len() ==> c[k] == #[trigger] b[k] && b[k] == a[k]);
        }
        assert forall|k: int| a.len() <= k < c.len() implies !((#[trigger] c[k])
            is RequestHistory) by {
            if k < b.len() {
                assert(c[k] == b[k]);
            }
        }
    }

    /// The metric counters, bundled for preservation clauses.
    pub open spec fn counters(self) -> (u64, u64, u64, u64, u64) {
        (self.cheats, self.autocommits, self.forks, self.micro_view_changes,
        self.macro_view_changes)
    }

    /// The chain is in the micro cadence: the current epoch still has room.
    pub open spec fn in_micro_cadence(self) -> bool {
        self.chain.spec_height() - self.chain.spec_last_macro_height()
            < self.cfg.blocks_in_epoch
    }

    /// The role state corresponds to the chain: micro or macro by the
    /// epoch's room, validator exactly when this node holds a slot.
    pub open spec fn role_matches(self) -> bool {
        match self.validation {
            Validation::MicroBlockAuditor => self.in_micro_cadence() && !is_validator_in(
                self.chain.spec_validators(),
                self.pkey,
            ),
            Validation::MicroBlockValidator { .. } => self.in_micro_cadence() && is_validator_in(
                self.chain.spec_validators(),
                self.pkey,
            ),
            Validation::MacroBlockAuditor => !self.in_micro_cadence() && !is_validator_in(
                self.chain.spec_validators(),
                self.pkey,
            ),
            Validation::MacroBlockValidator { .. } => !self.in_micro_cadence()
                && is_validator_in(self.chain.spec_validators(), self.pkey),
        }
    }

    /// Headroom so that heights, epochs and views cannot leave the machine
    /// range while one more epoch is applied.
    pub open spec fn headroom(self) -> bool {
        &&& self.chain.spec_height() + self.cfg.blocks_in_epoch + 2 < u64::MAX
        &&& self.chain.spec_view_change() < u32::MAX - 1
    }

    /// Build a node over a chain with this validator's keys.  The role
    /// starts as an auditor of the cadence the chain is in; `init` refines
    /// it.
    pub fn new(cfg: ChainConfig, chain: Blockchain, skey: Sk, pkey: Pk) -> (r: NodeService)
        requires
            cfg.wf(),
            chain.wf(),
            pkey == skey.spec_pk(),
        ensures
            r.wf(),
            r.cfg == cfg,
            r.chain == chain,
            r.skey == skey,
            r.pkey == pkey,
            r.outbox@.len() == 0,
            r.future_blocks@.len() == 0,
            r.mempool.spec_pool().len() == 0,
            // the constructor picks the cadence; `init` refines auditor vs
            // validator from the chain's membership
            (r.validation is MicroBlockAuditor) == r.in_micro_cadence(),
            (r.validation is MacroBlockAuditor) == !r.in_micro_cadence(),
    {
        let in_micro = chain.blocks_in_epoch() < cfg.blocks_in_epoch;
        let validation = if in_micro {
            Validation::MicroBlockAuditor
        } else {
            Validation::MacroBlockAuditor
        };
        NodeService {
            cfg,
            chain,
            skey,
            pkey,
            future_blocks: Vec::new(),
            mempool: Mempool::new(),
            validation,
            outbox: Vec::new(),
            cheats: 0,
            autocommits: 0,
            forks: 0,
            micro_view_changes: 0,
            macro_view_changes: 0,
        }
    }

    /// Ask the current leader for missing history.
    pub fn request_history(&mut self)
        requires
            old(self).wf(),
        ensures
            final(self).wf(),
            final(self).chain == old(self).chain,
            final(self).cfg == old(self).cfg,
            final(self).pkey == old(self).pkey,
            final(self).skey == old(self).skey,
            final(self).validation == old(self).validation,
            final(self).future_blocks == old(self).future_blocks,
            final(self).mempool == old(self).mempool,
            final(self).counters() == old(self).counters(),
            final(self).outbox@ == old(self).outbox@.push(
                NodeAction::RequestHistory(
                    spec_select_leader(
                        old(self).chain.spec_validators(),
                        old(self).chain.spec_last_random(),
                        old(self).chain.spec_view_change(),
                    ),
                ),
            ),
    {
        let leader = self.chain.leader();
        self.outbox.push(NodeAction::RequestHistory(leader));
    }

    /// Ask a specific peer for missing history.
    pub fn request_history_from(&mut self, from: Pk)
        requires
            old(self).wf(),
        ensures
            final(self).wf(),
            final(self).chain == old(self).chain,
            final(self).cfg == old(self).cfg,
            final(self).pkey == old(self).pkey,
            final(self).skey == old(self).skey,
            final(self).validation == old(self).validation,
            final(self).future_blocks == old(self).future_blocks,
            final(self).mempool == old(self).mempool,
            final(self).counters() == old(self).counters(),
            final(self).outbox@ == old(self).outbox@.push(NodeAction::RequestHistory(from)),
    {
        self.outbox.push(NodeAction::RequestHistory(from));
    }

    /// Send the local blocks from `from_height` to the tip back to a peer
    /// whose chain forked below ours.
    #[verifier::loop_isolation(false)]
    fn send_blocks(&mut self, to: Pk, from_height: u64)
        requires
            old(self).wf(),
            0 < from_height <= old(self).chain.spec_height(),
        ensures
            final(self).wf(),
            final(self).chain == old(self).chain,
            final(self).cfg == old(self).cfg,
            final(self).pkey == old(self).pkey,
            final(self).skey == old(self).skey,
            final(self).mempool == old(self).mempool,
            final(self).future_blocks == old(self).future_blocks,
            final(self).counters() == old(self).counters(),
            final(self).validation == old(self).validation,
            final(self).outbox@.len() == old(self).outbox@.len() + 1,
            final(self).outbox@.last() matches NodeAction::SendBlocks(t, _) && t == to,
    {
        let mut blocks: Vec<Block> = Vec::new();
        let mut h = from_height;
        let top = self.chain.height();
        while h < top
            invariant
                from_height <= h <= top,
                top == self.chain.spec_height(),
            decreases top - h,
        {
            let b = self.chain.block_by_height(h);
            blocks.push(clone_block(b));
            h = h + 1;
        }
        self.outbox.push(NodeAction::SendBlocks(to, blocks));
    }

    /// Whether the node believes it is synchronized: the last macro block
    /// is no older than one full epoch of timeouts.
    pub fn is_synchronized(&self, now: u64) -> (r: bool)
        requires
            self.chain.wf(),
        ensures
            r == (self.chain.spec_blocks()[self.chain.spec_last_macro_height()].spec_base().timestamp
                + self.cfg.micro_block_timeout * self.cfg.blocks_in_epoch
                + self.cfg.macro_block_timeout >= now),
    {
        let block_timestamp = self.chain.last_macro_block_timestamp();
        proof {
            vstd::arithmetic::mul::lemma_mul_upper_bound(
                self.cfg.micro_block_timeout as int,
                u64::MAX as int,
                self.cfg.blocks_in_epoch as int,
                u64::MAX as int,
            );
            vstd::arithmetic::mul::lemma_mul_nonnegative(
                self.cfg.micro_block_timeout as int,
                self.cfg.blocks_in_epoch as int,
            );
        }
        let budget: u128 = (block_timestamp as u128) + (self.cfg.micro_block_timeout as u128) * (
        self.cfg.blocks_in_epoch as u128) + (self.cfg.macro_block_timeout as u128);
        budget >= (now as u128)
    }

    /// The notification describing a freshly applied block.
    fn make_block_added(&self, height: u64, hash: Digest, view_change: u32, timestamp: u64, now: u64)
        -> (r: BlockAdded)
        requires
            self.chain.wf(),
            now <= i64::MAX,
        ensures
            r.height == height,
            r.hash == hash,
            r.view_change == view_change,
            r.epoch == self.chain.spec_epoch(),
            r.local_timestamp == now as i64,
    {
        let local_timestamp = now as i64;
        let remote_timestamp: i64 = if timestamp > i64::MAX as u64 {
            i64::MAX
        } else {
            timestamp as i64
        };
        let lag: i64 = if local_timestamp >= remote_timestamp {
            local_timestamp - remote_timestamp
        } else {
            -(remote_timestamp - local_timestamp)
        };
        BlockAdded {
            height,
            hash,
            lag,
            view_change,
            local_timestamp,
            remote_timestamp,
            synchronized: self.is_synchronized(now),
            epoch: self.chain.epoch(),
        }
    }

    /// Arm the proper micro-cadence timer after the leader changed: the
    /// leader arms the propose timer (immediately after a view change, with
    /// a transaction-gathering delay at view zero), every other validator
    /// arms the view-change timer.
    fn on_micro_block_leader_changed(&mut self)
        requires
            old(self).wf(),
            old(self).validation is MicroBlockValidator,
        ensures
            final(self).wf(),
            final(self).chain == old(self).chain,
            final(self).cfg == old(self).cfg,
            final(self).pkey == old(self).pkey,
            final(self).skey == old(self).skey,
            final(self).mempool == old(self).mempool,
            final(self).future_blocks == old(self).future_blocks,
            final(self).outbox@ == old(self).outbox@,
            final(self).counters() == old(self).counters(),
            final(self).validation is MicroBlockValidator,
            // the selected leader arms the propose timer, every other
            // validator the view-change timer
            old(self).pkey == spec_select_leader(
                old(self).chain.spec_validators(),
                old(self).chain.spec_last_random(),
                old(self).chain.spec_view_change(),
            ) ==> final(self).validation matches Validation::MicroBlockValidator {
                propose_timer: true,
                view_change_timer: false,
                ..
            },
            old(self).pkey != spec_select_leader(
                old(self).chain.spec_validators(),
                old(self).chain.spec_last_random(),
                old(self).chain.spec_view_change(),
            ) ==> final(self).validation matches Validation::MicroBlockValidator {
                propose_timer: false,
                view_change_timer: true,
                ..
            },
    {
        let leader = self.chain.leader();
        let am_leader = leader.val == self.pkey.val;
        match &mut self.validation {
            Validation::MicroBlockValidator { propose_timer, view_change_timer, .. } => {
                if am_leader {
                    *propose_timer = true;
                    *view_change_timer = false;
                } else {
                    *propose_timer = false;
                    *view_change_timer = true;
                }
            },
            _ => {
                proof {
                    assert(false);
                }
            },
        }
    }

    /// Propose the epoch's macro block if this node leads the round, else
    /// arm the round timer.
    fn on_macro_block_leader_changed(&mut self, now: u64)
        requires
            old(self).wf(),
            old(self).validation is MacroBlockValidator,
            old(self).chain.spec_height() < u64::MAX,
        ensures
            final(self).wf(),
            final(self).chain == old(self).chain,
            final(self).cfg == old(self).cfg,
            final(self).pkey == old(self).pkey,
            final(self).skey == old(self).skey,
            final(self).mempool == old(self).mempool,
            final(self).future_blocks == old(self).future_blocks,
            final(self).validation is MacroBlockValidator,
            final(self).counters() == old(self).counters(),
            Self::appends_no_history(old(self).outbox@, final(self).outbox@),
            old(self).validation matches Validation::MacroBlockValidator { consensus: c0, .. }
                ==> (final(self).validation matches Validation::MacroBlockValidator {
                consensus: c1,
                ..
            } && c1.round == c0.round),
            // the round leader proposes (its proposal and self-prevote join
            // the outbox); everyone else arms the round timer
            old(self).validation matches Validation::MacroBlockValidator { consensus: c0, .. }
                ==> if c0.pkey == c0.leader && c0.state is Propose && c0.request is None
                    && is_validator_in(old(self).chain.spec_validators(), c0.pkey) {
                    final(self).outbox@.len() >= old(self).outbox@.len() + 2
                        && (final(self).validation matches Validation::MacroBlockValidator {
                        consensus: c1,
                        ..
                    } && c1.request is Some && !(c1.state is Propose))
                } else {
                    final(self).validation matches Validation::MacroBlockValidator {
                        view_change_timer: true,
                        ..
                    }
                },
    {
        proof {
            let v0 = self.validation;
            match v0 {
                Validation::MacroBlockValidator { consensus: c, .. } => {
                    crate::election::lemma_select_leader_is_validator(
                        c.validators@,
                        c.random,
                        c.round,
                    );
                },
                _ => {},
            }
        }
        let is_leader = match &self.validation {
            Validation::MacroBlockValidator { consensus, .. } => consensus.is_leader(),
            _ => false,
        };
        let can_propose = match &self.validation {
            Validation::MacroBlockValidator { consensus, .. } => consensus.should_commit()
                == false && matches!(consensus.state, ConsensusState::Propose),
            _ => false,
        };
        if is_leader && can_propose {
            self.propose_macro_block(now);
        } else {
            match &mut self.validation {
                Validation::MacroBlockValidator { view_change_timer, .. } => {
                    *view_change_timer = true;
                },
                _ => {
                    proof {
                        assert(false);
                    }
                },
            }
        }
    }

    /// Recompute the role state after a block applied or a view changed:
    /// micro cadence while the epoch has room, macro cadence at its end;
    /// validator when this node holds a slot, auditor otherwise.  Entering
    /// the macro cadence replays consensus messages buffered during the
    /// micro cadence.
    pub fn update_validation_status(&mut self, now: u64)
        requires
            old(self).wf_core(),
            old(self).chain.spec_height() < u64::MAX,
        ensures
            final(self).wf(),
            final(self).chain == old(self).chain,
            final(self).cfg == old(self).cfg,
            final(self).pkey == old(self).pkey,
            final(self).skey == old(self).skey,
            final(self).mempool == old(self).mempool,
            final(self).future_blocks == old(self).future_blocks,
            final(self).role_matches(),
            final(self).counters() == old(self).counters(),
            Self::appends_no_history(old(self).outbox@, final(self).outbox@),
    {
        proof {
            crate::chain::lemma_count_macro_bounds(self.chain.blocks@);
        }
        let in_micro = self.chain.blocks_in_epoch() < self.cfg.blocks_in_epoch;
        let am_validator = self.chain.is_validator(&self.pkey);
        if in_micro {
            if !am_validator {
                self.validation = Validation::MicroBlockAuditor;
                return ;
            }
            let collector = ViewChangeCollector::new(&self.chain, self.pkey, self.skey);
            self.validation = Validation::MicroBlockValidator {
                view_change_collector: collector,
                future_consensus_messages: Vec::new(),
                propose_timer: false,
                view_change_timer: false,
            };
            self.on_micro_block_leader_changed();
        } else {
            let ghost entry = *self;
            let mut buffered: Vec<ConsensusMessage> = Vec::new();
            match &self.validation {
                Validation::MicroBlockValidator { future_consensus_messages, .. } => {
                    let mut i: usize = 0;
                    #[verifier::loop_isolation(false)]
                    while i < future_consensus_messages.len()
                        invariant
                            0 <= i <= future_consensus_messages@.len(),
                        decreases future_consensus_messages@.len() - i,
                    {
                        buffered.push(clone_message(&future_consensus_messages[i]));
                        i += 1;
                    }
                },
                _ => {},
            }
            self.validation = Validation::MacroBlockAuditor;
            if !am_validator {
                return ;
            }
            let random = self.chain.last_random();
            let epoch = self.chain.epoch();
            let consensus = BlockConsensus::new(
                self.chain.height(),
                epoch + 1,
                self.skey,
                self.pkey,
                random,
                copy_vec(self.chain.validators()),
            );
            self.validation = Validation::MacroBlockValidator {
                consensus,
                view_change_timer: false,
            };
            // replay macro consensus messages that arrived during the micro
            // cadence
            let mut i: usize = 0;
            #[verifier::loop_isolation(false)]
            while i < buffered.len()
                invariant
                    0 <= i <= buffered@.len(),
                    self.wf(),
                    self.chain == old(self).chain,
                    self.cfg == old(self).cfg,
                    self.pkey == old(self).pkey,
                    self.skey == old(self).skey,
                    self.mempool == old(self).mempool,
                    self.future_blocks == old(self).future_blocks,
                    self.counters() == old(self).counters(),
                    Self::appends_no_history(old(self).outbox@, self.outbox@),
                    self.validation is MacroBlockValidator,
                decreases buffered@.len() - i,
            {
                let ghost ob_pre = self.outbox@;
                let valid = match self.validate_consensus_message(&buffered[i]) {
                    Ok(()) => true,
                    Err(_) => false,
                };
                if valid {
                    let m = clone_message(&buffered[i]);
                    let _ = self.feed_validated_consensus_message(m);
                }
                proof {
                    Self::lemma_no_history_trans(old(self).outbox@, ob_pre, self.outbox@);
                }
                i += 1;
            }
            let ghost ob_pre = self.outbox@;
            self.on_macro_block_leader_changed(now);
            proof {
                Self::lemma_no_history_trans(old(self).outbox@, ob_pre, self.outbox@);
            }
        }
    }

    /// Validate a consensus message against the chain: the envelope
    /// signature, the sender's membership, and — for proposals — the
    /// proposed block itself.
    pub fn validate_consensus_message(&self, msg: &ConsensusMessage) -> (r: Result<
        (),
        NodeError,
    >)
        requires
            self.wf(),
        ensures
            !spec_check_hash(spec_hash_message(*msg), msg.sig, msg.pkey) ==> r == Err::<
                (),
                NodeError,
            >(NodeError::Consensus(ConsensusError::InvalidMessageSignature)),
            spec_check_hash(spec_hash_message(*msg), msg.sig, msg.pkey) && !is_validator_in(
                self.chain.spec_validators(),
                msg.pkey,
            ) ==> r == Err::<(), NodeError>(
                NodeError::Consensus(ConsensusError::UnknownMessageSender),
            ),
            spec_check_hash(spec_hash_message(*msg), msg.sig, msg.pkey) && is_validator_in(
                self.chain.spec_validators(),
                msg.pkey,
            ) ==> match msg.body {
                ConsensusMessageBody::Proposal { request } => if request.header.base.height
                    == self.chain.spec_height() && request.header.base.previous
                    == self.chain.spec_last_block_hash() && request.header.block_reward == 0 {
                    r is Ok
                } else {
                    r == Err::<(), NodeError>(
                        NodeError::Consensus(ConsensusError::InvalidPropose),
                    )
                },
                _ => r is Ok,
            },
    {
        match msg.validate() {
            Ok(()) => {},
            Err(e) => {
                return Err(NodeError::Consensus(e));
            },
        }
        if !self.chain.is_validator(&msg.pkey) {
            return Err(NodeError::Consensus(ConsensusError::UnknownMessageSender));
        }
        match &msg.body {
            ConsensusMessageBody::Proposal { request } => {
                match self.chain.validate_macro_block(request, true) {
                    Ok(()) => Ok(()),
                    Err(_) => Err(NodeError::Consensus(ConsensusError::InvalidPropose)),
                }
            },
            _ => Ok(()),
        }
    }

    /// Feed a validated message into the round engine, publish its replies,
    /// and commit if the round completed with this node as its leader.
    fn feed_validated_consensus_message(&mut self, msg: ConsensusMessage) -> (r: Result<
        (),
        NodeError,
    >)
        requires
            old(self).wf(),
            old(self).validation is MacroBlockValidator,
        ensures
            final(self).wf(),
            final(self).chain == old(self).chain,
            final(self).cfg == old(self).cfg,
            final(self).pkey == old(self).pkey,
            final(self).skey == old(self).skey,
            final(self).mempool == old(self).mempool,
            final(self).future_blocks == old(self).future_blocks,
            final(self).validation is MacroBlockValidator,
            final(self).counters() == old(self).counters(),
            Self::appends_no_history(old(self).outbox@, final(self).outbox@),
            // what feeding promises, surfaced through the driver: a valid
            // current-round vote is tallied, the first valid proposal is
            // accepted, and the engine's replies are all drained
            final(self).validation matches Validation::MacroBlockValidator { consensus: c1, .. }
                ==> c1.outbox@.len() == 0,
            old(self).validation matches Validation::MacroBlockValidator { consensus: c0, .. }
                ==> ((msg.height == c0.height && msg.round == c0.round && is_validator_in(
                c0.validators@,
                msg.pkey,
            ) && msg.body is Prevote) ==> r is Ok && (final(self).validation matches
                Validation::MacroBlockValidator { consensus: c1, .. } && c1.prevotes@.contains(
                msg.pkey,
            ))),
            old(self).validation matches Validation::MacroBlockValidator { consensus: c0, .. }
                ==> ((match msg.body {
                ConsensusMessageBody::Precommit { request_hash_sig } => msg.height == c0.height
                    && msg.round == c0.round && is_validator_in(c0.validators@, msg.pkey)
                    && c0.request is Some && spec_check_hash(
                    c0.request_hash,
                    request_hash_sig,
                    msg.pkey,
                ),
                _ => false,
            }) ==> r is Ok && (final(self).validation matches Validation::MacroBlockValidator {
                consensus: c1,
                ..
            } && crate::multisignature::has_key(c1.precommits@, msg.pkey))),
            old(self).validation matches Validation::MacroBlockValidator { consensus: c0, .. }
                ==> ((match msg.body {
                ConsensusMessageBody::Proposal { request } => msg.height == c0.height
                    && msg.round == c0.round && msg.pkey == c0.leader && c0.request is None
                    && spec_hash_macro_block(request) == msg.request_hash
                    && request.header.base.height == c0.height,
                _ => false,
            }) ==> r is Ok && (final(self).validation matches Validation::MacroBlockValidator {
                consensus: c1,
                ..
            } && c1.request is Some && c1.request_hash == msg.request_hash)),
    {
        let feed_result = match &mut self.validation {
            Validation::MacroBlockValidator { consensus, .. } => consensus.feed_message(msg),
            _ => {
                proof {
                    assert(false);
                }
                Ok(())
            },
        };
        self.drain_consensus_outbox();
        match feed_result {
            Ok(()) => Ok(()),
            Err(e) => Err(NodeError::Consensus(e)),
        }
    }

    /// Publish everything the round engine queued.
    fn drain_consensus_outbox(&mut self)
        requires
            old(self).wf(),
        ensures
            final(self).wf(),
            final(self).chain == old(self).chain,
            final(self).cfg == old(self).cfg,
            final(self).pkey == old(self).pkey,
            final(self).skey == old(self).skey,
            final(self).mempool == old(self).mempool,
            final(self).future_blocks == old(self).future_blocks,
            final(self).counters() == old(self).counters(),
            Self::appends_no_history(old(self).outbox@, final(self).outbox@),
            // every message the engine queued is published, and its queue
            // is left empty
            old(self).validation matches Validation::MacroBlockValidator { consensus: c0, .. }
                ==> (final(self).validation matches Validation::MacroBlockValidator {
                consensus: c1,
                ..
            } && c1.round == c0.round && c1.request_hash == c0.request_hash && c1.state
                == c0.state && c1.request == c0.request && c1.prevotes@ == c0.prevotes@
                && c1.precommits@ == c0.precommits@ && c1.validators@ == c0.validators@
                && c1.height == c0.height && c1.leader == c0.leader && c1.outbox@.len() == 0
                && final(self).outbox@.len() == old(self).outbox@.len() + c0.outbox@.len()),
            (forall|k: int|
                old(self).outbox@.len() <= k < final(self).outbox@.len() ==> (#[trigger] final(self).outbox@[k]) is PublishConsensus),
            final(self).validation is MacroBlockValidator == old(self).validation is MacroBlockValidator,
            final(self).validation is MicroBlockValidator == old(self).validation is MicroBlockValidator,
    {
        let mut drained: Vec<ConsensusMessage> = Vec::new();
        match &mut self.validation {
            Validation::MacroBlockValidator { consensus, .. } => {
                let mut i: usize = 0;
                #[verifier::loop_isolation(false)]
                while i < consensus.outbox.len()
                    invariant
                        0 <= i <= consensus.outbox@.len(),
                        drained@.len() == i,
                    decreases consensus.outbox@.len() - i,
                {
                    drained.push(clone_message(&consensus.outbox[i]));
                    i += 1;
                }
                consensus.outbox = Vec::new();
            },
            _ => {},
        }
        let ghost v_mid = self.validation;
        let mut i: usize = 0;
        #[verifier::loop_isolation(false)]
        while i < drained.len()
            invariant
                0 <= i <= drained@.len(),
                self.wf(),
                self.chain == old(self).chain,
                self.cfg == old(self).cfg,
                self.pkey == old(self).pkey,
                self.skey == old(self).skey,
                self.mempool == old(self).mempool,
                self.future_blocks == old(self).future_blocks,
                self.counters() == old(self).counters(),
                old(self).outbox@.is_prefix_of(self.outbox@),
                self.outbox@.len() == old(self).outbox@.len() + i,
                forall|k: int|
                    old(self).outbox@.len() <= k < self.outbox@.len() ==> (#[trigger] self.outbox@[k]) is PublishConsensus,
                self.validation == v_mid,
                self.validation is MacroBlockValidator == old(self).validation is MacroBlockValidator,
                self.validation is MicroBlockValidator == old(self).validation is MicroBlockValidator,
            decreases drained@.len() - i,
        {
            self.outbox.push(NodeAction::PublishConsensus(clone_message(&drained[i])));
            i += 1;
        }
    }

    /// Handle a macro consensus message: buffered in the micro cadence,
    /// dropped as an auditor, validated and fed to the round engine as a
    /// macro validator; a completed round led by this node commits.
    pub fn handle_consensus_message(&mut self, msg: ConsensusMessage, now: u64) -> (r: Result<
        (),
        NodeError,
    >)
        requires
            old(self).wf(),
            old(self).headroom(),
            now <= i64::MAX,
        ensures
            final(self).wf(),
            final(self).cfg == old(self).cfg,
            old(self).validation is MicroBlockAuditor || old(self).validation
                is MacroBlockAuditor ==> r is Ok && *final(self) == *old(self),
            // in the micro cadence the message waits for the macro round
            old(self).validation matches Validation::MicroBlockValidator {
                future_consensus_messages: f0,
                ..
            } ==> r is Ok && final(self).chain == old(self).chain && (final(self).validation
                matches Validation::MicroBlockValidator { future_consensus_messages: f1, .. }
                && f1@.len() == f0@.len() + 1 && f1@.last() == msg),
            // as a macro validator: an envelope failing validation is the
            // named error and nothing moves
            old(self).validation is MacroBlockValidator && !spec_check_hash(
                spec_hash_message(msg),
                msg.sig,
                msg.pkey,
            ) ==> r == Err::<(), NodeError>(
                NodeError::Consensus(ConsensusError::InvalidMessageSignature),
            ) && *final(self) == *old(self),
            old(self).validation is MacroBlockValidator && spec_check_hash(
                spec_hash_message(msg),
                msg.sig,
                msg.pkey,
            ) && !is_validator_in(old(self).chain.spec_validators(), msg.pkey) ==> r == Err::<
                (),
                NodeError,
            >(NodeError::Consensus(ConsensusError::UnknownMessageSender)) && *final(self) == *old(self),
            old(self).validation is MacroBlockValidator && spec_check_hash(
                spec_hash_message(msg),
                msg.sig,
                msg.pkey,
            ) && is_validator_in(old(self).chain.spec_validators(), msg.pkey) ==> (match msg.body {
                ConsensusMessageBody::Proposal { request } => !(request.header.base.height
                    == old(self).chain.spec_height() && request.header.base.previous == old(self).chain.spec_last_block_hash() && request.header.block_reward == 0),
                _ => false,
            }) ==> r == Err::<(), NodeError>(
                NodeError::Consensus(ConsensusError::InvalidPropose),
            ) && *final(self) == *old(self),
            // a validated message is fed to the round engine: a
            // current-round vote is tallied (visible while the round is
            // still open)
            old(self).validation matches Validation::MacroBlockValidator { consensus: c0, .. }
                ==> ((spec_check_hash(spec_hash_message(msg), msg.sig, msg.pkey)
                && is_validator_in(old(self).chain.spec_validators(), msg.pkey) && msg.height
                == c0.height && msg.round == c0.round && msg.body is Prevote && final(self).chain
                == old(self).chain) ==> (final(self).validation matches
                Validation::MacroBlockValidator { consensus: c1, .. }
                ==> c1.prevotes@.contains(msg.pkey))),
            old(self).validation matches Validation::MacroBlockValidator { consensus: c0, .. }
                ==> ((spec_check_hash(spec_hash_message(msg), msg.sig, msg.pkey)
                && is_validator_in(old(self).chain.spec_validators(), msg.pkey) && (match
                msg.body {
                ConsensusMessageBody::Precommit { request_hash_sig } => msg.height == c0.height
                    && msg.round == c0.round && c0.request is Some && spec_check_hash(
                    c0.request_hash,
                    request_hash_sig,
                    msg.pkey,
                ),
                _ => false,
            }) && final(self).chain == old(self).chain) ==> (final(self).validation matches
                Validation::MacroBlockValidator { consensus: c1, .. }
                ==> crate::multisignature::has_key(c1.precommits@, msg.pkey))),
            // while the chain stands still the engine's replies are all
            // published and its queue left empty
            old(self).validation is MacroBlockValidator && final(self).chain == old(self).chain
                && r is Ok ==> (final(self).validation matches Validation::MacroBlockValidator {
                consensus: c1,
                ..
            } ==> c1.outbox@.len() == 0),
            // a commit is visible: the epoch only advances with a sealed
            // block published
            old(self).validation is MacroBlockValidator && final(self).chain.spec_epoch() != old(self).chain.spec_epoch() ==> exists|k: int|
                old(self).outbox@.len() <= k < final(self).outbox@.len() && (#[trigger] final(self).outbox@[k]) is PublishBlock,
    {
        match &mut self.validation {
            Validation::MicroBlockAuditor => {
                return Ok(());
            },
            Validation::MacroBlockAuditor => {
                return Ok(());
            },
            Validation::MicroBlockValidator { future_consensus_messages, .. } => {
                // too early: keep it for when the macro cadence begins
                future_consensus_messages.push(msg);
                return Ok(());
            },
            Validation::MacroBlockValidator { .. } => {},
        }
        match self.validate_consensus_message(&msg) {
            Ok(()) => {},
            Err(e) => {
                return Err(e);
            },
        }
        let fed = self.feed_validated_consensus_message(msg);
        match fed {
            Ok(()) => {},
            Err(e) => {
                return Err(e);
            },
        }
        // a completed round led by this node seals and applies the block
        let commit_now = match &self.validation {
            Validation::MacroBlockValidator { consensus, .. } => consensus.is_leader()
                && consensus.should_commit(),
            _ => false,
        };
        if commit_now {
            let (block, multisig, multisigmap) = match &self.validation {
                Validation::MacroBlockValidator { consensus, .. } => consensus.sign_and_commit(),
                _ => {
                    proof {
                        assert(false);
                    }
                    return Ok(());
                },
            };
            return self.commit_proposed_block(block, multisig, multisigmap, now);
        }
        Ok(())
    }

    /// Seal a committed macro block with its multi-signature, publish it,
    /// and apply it locally.
    fn commit_proposed_block(
        &mut self,
        macro_block: MacroBlock,
        multisig: Sig,
        multisigmap: bitvector::BitVector,
        now: u64,
    ) -> (r: Result<(), NodeError>)
        requires
            old(self).wf(),
            old(self).headroom(),
            now <= i64::MAX,
        ensures
            final(self).wf(),
            final(self).cfg == old(self).cfg,
            // the sealed block goes to the network before it is applied
            final(self).outbox@.len() > old(self).outbox@.len(),
            final(self).outbox@[old(self).outbox@.len() as int] matches NodeAction::PublishBlock(
                b,
            ) && b matches Block::MacroBlock(sealed) && sealed.header == macro_block.header
                && sealed.pkey == macro_block.pkey && sealed.body.multisig == multisig && bv_bits(
                sealed.body.multisigmap,
            ) == bv_bits(multisigmap),
            final(self).counters() == old(self).counters(),
            r is Ok ==> final(self).chain.spec_epoch() == old(self).chain.spec_epoch() + 1
                && final(self).chain.spec_last_block_hash() == spec_hash_macro_block(macro_block),
            // a failed apply leaves the node as it was, the publish aside
            r is Err ==> final(self).chain == old(self).chain && final(self).validation == old(self).validation && final(self).mempool == old(self).mempool,
            // a sealed block the chain accepts is owed its commit
            old(self).apply_decision(
                Block::MacroBlock(
                    (MacroBlock {
                        header: macro_block.header,
                        body: (crate::block::MacroBlockBody { multisig, multisigmap }),
                        pkey: macro_block.pkey,
                    }),
                ),
            ) is Ok ==> r is Ok,
    {
        let mut block = macro_block;
        block.body.multisig = multisig;
        block.body.multisigmap = multisigmap;
        let copy = clone_macro_block(&block);
        self.outbox.push(NodeAction::PublishBlock(Block::MacroBlock(copy)));
        let ghost ob = self.outbox@;
        let result = self.apply_new_block(Block::MacroBlock(block), now);
        proof {
            reveal(crate::block::spec_hash_macro_block);
            assert(self.outbox@.subrange(0, ob.len() as int) =~= ob);
            assert(self.outbox@[old(self).outbox@.len() as int] == ob[old(self).outbox@.len() as int]);
        }
        result
    }

    /// Build this node's macro block proposal: an empty epoch-closing block
    /// seeded with fresh randomness and carrying the leader's own signature
    /// as the initial multi-signature.
    pub fn create_macro_block(chain: &Blockchain, view_change: u32, skey: &Sk, pkey: &Pk, now: u64)
        -> (r: MacroBlock)
        requires
            chain.wf(),
            *pkey == skey.spec_pk(),
            is_validator_in(chain.spec_validators(), *pkey),
        ensures
            r.header.base.version == VERSION,
            r.header.base.height == chain.spec_height(),
            r.header.base.previous == chain.spec_last_block_hash(),
            r.header.base.view_change == view_change,
            r.header.base.timestamp == now,
            r.header.base.random == spec_mix(
                spec_mix(chain.spec_last_random(), view_change as u64),
                skey.val,
            ),
            r.header.block_reward == 0,
            r.pkey == *pkey,
            bv_capacity(r.body.multisigmap) == WITNESSES_MAX,
            // the proposal carries exactly the leader's own signature over
            // the block digest as its initial multi-signature
            r.body.multisig.val == agg_sig_upto(
                chain.spec_validators(),
                seq![(*pkey, Sig { val: sign_val(spec_hash_macro_block(r).bits, skey.val) })],
                chain.spec_validators().len() as int,
            ),
            bv_bits(r.body.multisigmap) == bits_from(
                chain.spec_validators(),
                seq![(*pkey, Sig { val: sign_val(spec_hash_macro_block(r).bits, skey.val) })],
            ),
    {
        let seed = mix(chain.last_random(), view_change as u64);
        let random = mix(seed, skey.val);
        let previous = chain.last_block_hash();
        let height = chain.height();
        let base = BaseBlockHeader::new(VERSION, previous, height, view_change, now, random);
        let mut block = MacroBlock::empty(base, *pkey);
        let block_hash = hash_macro_block(&block);
        // the proposal carries the leader's own signature
        let sig = sign_hash(&block_hash, skey);
        let mut sigs: Vec<(Pk, Sig)> = Vec::new();
        sigs.push((*pkey, sig));
        proof {
            assert(uniq_keys(sigs@));
            assert(forall|k: int|
                0 <= k < sigs@.len() ==> is_validator_in(
                    chain.spec_validators(),
                    (#[trigger] sigs@[k]).0,
                ));
        }
        let (multisig, multisigmap) = create_multi_signature(chain.validators(), &sigs);
        block.body.multisig = multisig;
        block.body.multisigmap = multisigmap;
        proof {
            reveal(crate::block::spec_hash_macro_block);
            assert(sigs@ =~= seq![
                (*pkey, Sig { val: sign_val(spec_hash_macro_block(block).bits, skey.val) }),
            ]);
        }
        block
    }

    /// Propose the epoch's macro block as the round leader and publish the
    /// round engine's replies.
    fn propose_macro_block(&mut self, now: u64)
        requires
            old(self).wf(),
            old(self).validation is MacroBlockValidator,
            old(self).chain.spec_height() < u64::MAX,
        ensures
            final(self).wf(),
            final(self).chain == old(self).chain,
            final(self).cfg == old(self).cfg,
            final(self).pkey == old(self).pkey,
            final(self).skey == old(self).skey,
            final(self).mempool == old(self).mempool,
            final(self).future_blocks == old(self).future_blocks,
            final(self).validation is MacroBlockValidator,
            final(self).counters() == old(self).counters(),
            Self::appends_no_history(old(self).outbox@, final(self).outbox@),
            old(self).validation matches Validation::MacroBlockValidator { consensus: c0, .. }
                ==> (final(self).validation matches Validation::MacroBlockValidator {
                consensus: c1,
                ..
            } && c1.round == c0.round),
            // a fresh round led by this validator gets its proposal: the
            // engine accepts the block and its Proposal and self-Prevote
            // reach the outbox
            old(self).validation matches Validation::MacroBlockValidator { consensus: c0, .. }
                ==> ((c0.pkey == c0.leader && c0.state is Propose && c0.request is None
                && is_validator_in(old(self).chain.spec_validators(), old(self).pkey)) ==> final(self).outbox@.len() >= old(self).outbox@.len() + 2 && (final(self).validation
                matches Validation::MacroBlockValidator { consensus: c1, .. } && c1.request
                is Some && !(c1.state is Propose))),
    {
        let (can, round) = match &self.validation {
            Validation::MacroBlockValidator { consensus, .. } => {
                (
                    consensus.is_leader() && matches!(consensus.state, ConsensusState::Propose)
                        && matches!(consensus.request, Option::None) && consensus.pkey.val
                        == self.pkey.val,
                    consensus.round(),
                )
            },
            _ => (false, 0u32),
        };
        if !can {
            return ;
        }
        let am_validator = self.chain.is_validator(&self.pkey);
        if !am_validator {
            return ;
        }
        let block = Self::create_macro_block(&self.chain, round, &self.skey, &self.pkey, now);
        match &mut self.validation {
            Validation::MacroBlockValidator { consensus, .. } => {
                consensus.propose(block);
            },
            _ => {
                proof {
                    assert(false);
                }
            },
        }
        self.drain_consensus_outbox();
    }

    /// What applying a block decides, in the order the checks run: the
    /// cadence must expect the block's flavor; a macro block conflicting
    /// with one this round already committed is a network fork; the reward
    /// must be the configured one (zero for macro blocks); and the chain
    /// must accept it — at the tip height, extending the tip digest, at no
    /// older view, spending only known outputs and creating only fresh
    /// ones.
    pub open spec fn apply_decision(self, block: Block) -> Result<(), NodeError> {
        let hash = spec_hash_block(block);
        match block {
            Block::MacroBlock(mb) => {
                let order_err: Option<NodeError> = match self.validation {
                    Validation::MacroBlockAuditor => None,
                    Validation::MacroBlockValidator { consensus, .. } => if consensus.state
                        is Commit && hash != consensus.request_hash {
                        Some(
                            NodeError::Block(
                                BlockError::NetworkFork(hash, consensus.request_hash),
                            ),
                        )
                    } else {
                        None
                    },
                    _ => Some(
                        NodeError::Block(
                            BlockError::ExpectedMacroBlock(
                                self.chain.spec_height() as u64,
                                hash,
                            ),
                        ),
                    ),
                };
                match order_err {
                    Some(e) => Err(e),
                    None => if mb.header.block_reward != 0 {
                        Err(
                            NodeError::Block(
                                BlockError::InvalidBlockReward(
                                    mb.header.base.height,
                                    hash,
                                    mb.header.block_reward,
                                    0,
                                ),
                            ),
                        )
                    } else {
                        match self.chain.macro_header_error(mb) {
                            Some(e) => Err(NodeError::Block(e)),
                            None => Ok(()),
                        }
                    },
                }
            },
            Block::MicroBlock(mb) => {
                if !(self.validation is MicroBlockAuditor || self.validation
                    is MicroBlockValidator) {
                    Err(
                        NodeError::Block(
                            BlockError::ExpectedMicroBlock(self.chain.spec_height() as u64, hash),
                        ),
                    )
                } else if mb.coinbase.block_reward != self.cfg.block_reward {
                    Err(
                        NodeError::Block(
                            BlockError::InvalidBlockReward(
                                mb.base.height,
                                hash,
                                mb.coinbase.block_reward,
                                self.cfg.block_reward,
                            ),
                        ),
                    )
                } else {
                    match self.chain.micro_header_error(mb) {
                        Some(e) => Err(NodeError::Block(e)),
                        None => match crate::chain::spend_all(
                            self.chain.spec_utxo(),
                            crate::chain::txs_inputs(mb.transactions@),
                        ) {
                            Err(d) => Err(
                                NodeError::Transaction(TransactionError::MissingUtxo(d)),
                            ),
                            Ok(su) => match crate::chain::add_all(
                                su.0,
                                crate::chain::txs_outputs(mb.transactions@),
                            ) {
                                Err(d) => Err(
                                    NodeError::Transaction(TransactionError::ConflictingUtxo(d)),
                                ),
                                Ok(_) => Ok(()),
                            },
                        },
                    }
                }
            },
        }
    }

    /// Apply a block to the chain: enforce the cadence order and the reward
    /// rule, push it, notify subscribers, prune the mempool, and recompute
    /// the role state.  A macro block differing from one this node already
    /// committed is a network fork, which the caller must treat as fatal.
    #[verifier::rlimit(100)]
    pub fn apply_new_block(&mut self, block: Block, now: u64) -> (r: Result<(), NodeError>)
        requires
            old(self).wf(),
            old(self).headroom(),
            now <= i64::MAX,
        ensures
            final(self).wf(),
            final(self).cfg == old(self).cfg,
            final(self).pkey == old(self).pkey,
            final(self).skey == old(self).skey,
            final(self).future_blocks == old(self).future_blocks,
            final(self).counters() == old(self).counters(),
            Self::appends_no_history(old(self).outbox@, final(self).outbox@),
            // success exactly when the decision table accepts the block
            r is Ok <==> old(self).apply_decision(block) is Ok,
            r == old(self).apply_decision(block) || r is Ok,
            // a rejected block changes no state; only a sender lagging
            // behind a view change is additionally shown our proof
            r is Err ==> final(self).chain == old(self).chain
                && final(self).mempool == old(self).mempool
                && final(self).validation == old(self).validation,
            r is Err && !(r matches Err(
                NodeError::Block(BlockError::InvalidViewChange(_, _, _)),
            )) ==> final(self).outbox@ == old(self).outbox@,
            // a micro producer lagging behind our view change is sent the
            // sealed proof that justified it; without one nothing is sent
            r matches Err(NodeError::Block(BlockError::InvalidViewChange(_, _, _))) ==> (block
                matches Block::MicroBlock(mb) ==> (match old(self).chain.spec_view_change_proof() {
                Some(vcp) => if old(self).chain.spec_view_change() > 0 {
                    final(self).outbox@.len() == old(self).outbox@.len() + 1 && (final(self).outbox@.last() matches NodeAction::SendViewChangeProof(to, sealed) && to
                        == mb.pkey && sealed.chain.height == old(self).chain.spec_height()
                        && sealed.chain.last_block == old(self).chain.spec_last_block_hash()
                        && sealed.chain.view_change == old(self).chain.spec_view_change() - 1
                        && proof_eq(sealed.proof, vcp))
                } else {
                    final(self).outbox@ == old(self).outbox@
                },
                None => final(self).outbox@ == old(self).outbox@,
            })),
            // on success the block is the new tip, the view resets, the
            // subscribers are notified, and the role state follows
            (r is Ok) ==> final(self).chain.spec_blocks()
                == old(self).chain.spec_blocks().push(block)
                && final(self).chain.spec_last_block_hash() == spec_hash_block(block)
                && final(self).chain.spec_view_change() == 0
                && final(self).role_matches()
                && final(self).outbox@.len() >= old(self).outbox@.len() + 2
                && (final(self).outbox@[old(self).outbox@.len() as int + 1]
                    matches NodeAction::NotifyBlockAdded(ev) && ev.height
                    == block.spec_base().height && ev.hash == spec_hash_block(block)
                    && ev.view_change == block.spec_base().view_change
                    && ev.epoch == final(self).chain.spec_epoch()),
            // a macro block closes the epoch and announces it
            (r is Ok && block is MacroBlock) ==> final(self).chain.spec_epoch()
                == old(self).chain.spec_epoch() + 1
                && final(self).mempool == old(self).mempool
                && (final(self).outbox@[old(self).outbox@.len() as int]
                    matches NodeAction::NotifyEpochChanged(ec) && ec.epoch as int
                    == old(self).chain.spec_epoch() + 1),
            // a micro block settles its transactions: the spent and created
            // outputs go to the subscribers and leave the mempool
            r is Ok ==> (block matches Block::MicroBlock(mb) ==> final(self).chain.spec_epoch()
                == old(self).chain.spec_epoch()
                && (final(self).outbox@[old(self).outbox@.len() as int]
                    matches NodeAction::NotifyOutputsChanged(oc) && oc.inputs@
                    == crate::chain::spend_all(
                    old(self).chain.spec_utxo(),
                    crate::chain::txs_inputs(mb.transactions@),
                )->Ok_0.1 && oc.outputs@ == crate::chain::txs_outputs(mb.transactions@))
                && crate::mempool::pruned_from(
                final(self).mempool.spec_pool(),
                old(self).mempool.spec_pool(),
                crate::chain::outputs_digests(
                    crate::chain::spend_all(
                        old(self).chain.spec_utxo(),
                        crate::chain::txs_inputs(mb.transactions@),
                    )->Ok_0.1,
                ),
                crate::chain::outputs_digests(crate::chain::txs_outputs(mb.transactions@)),
            )),
    {
        let ghost blk = block;
        let hash = hash_block(&block);
        match block {
            Block::MacroBlock(macro_block) => {
                // the cadence must expect a macro block
                match &self.validation {
                    Validation::MacroBlockAuditor => {},
                    Validation::MacroBlockValidator { consensus, .. } => {
                        if consensus.should_commit() {
                            // we already committed: any other block at this
                            // height is a network fork, fatal by design
                            if hash.bits != consensus.request_hash.bits {
                                return Err(
                                    NodeError::Block(
                                        BlockError::NetworkFork(hash, consensus.request_hash),
                                    ),
                                );
                            }
                        }
                    },
                    _ => {
                        return Err(
                            NodeError::Block(
                                BlockError::ExpectedMacroBlock(self.chain.height(), hash),
                            ),
                        );
                    },
                }
                // macro blocks carry no reward
                if macro_block.header.block_reward != 0 {
                    return Err(
                        NodeError::Block(
                            BlockError::InvalidBlockReward(
                                macro_block.header.base.height,
                                hash,
                                macro_block.header.block_reward,
                                0,
                            ),
                        ),
                    );
                }
                let height = macro_block.header.base.height;
                let view_change = macro_block.header.base.view_change;
                let timestamp = macro_block.header.base.timestamp;
                match self.chain.push_macro_block(macro_block) {
                    Ok(()) => {},
                    Err(e) => {
                        return Err(e);
                    },
                }
                let validators = copy_vec(self.chain.validators());
                let facilitator = self.chain.facilitator();
                self.outbox.push(
                    NodeAction::NotifyEpochChanged(
                        EpochChanged { epoch: self.chain.epoch(), facilitator, validators },
                    ),
                );
                let added = self.make_block_added(height, hash, view_change, timestamp, now);
                self.outbox.push(NodeAction::NotifyBlockAdded(added));
                let ghost ob = self.outbox@;
                self.update_validation_status(now);
                proof {
                    assert(self.outbox@.subrange(0, ob.len() as int) =~= ob);
                    let base = old(self).outbox@.len() as int;
                    assert(self.outbox@[base] == ob[base]);
                    assert(self.outbox@[base + 1] == ob[base + 1]);
                }
                Ok(())
            },
            Block::MicroBlock(micro_block) => {
                match &self.validation {
                    Validation::MicroBlockAuditor | Validation::MicroBlockValidator { .. } => {},
                    _ => {
                        return Err(
                            NodeError::Block(
                                BlockError::ExpectedMicroBlock(self.chain.height(), hash),
                            ),
                        );
                    },
                }
                // micro blocks pay exactly the configured reward
                if micro_block.coinbase.block_reward != self.cfg.block_reward {
                    return Err(
                        NodeError::Block(
                            BlockError::InvalidBlockReward(
                                micro_block.base.height,
                                hash,
                                micro_block.coinbase.block_reward,
                                self.cfg.block_reward,
                            ),
                        ),
                    );
                }
                let height = micro_block.base.height;
                let view_change = micro_block.base.view_change;
                let timestamp = micro_block.base.timestamp;
                let leader = micro_block.pkey;
                let (inputs, outputs) = match self.chain.push_micro_block(micro_block) {
                    Ok(v) => v,
                    Err(e) => {
                        match e {
                            NodeError::Block(BlockError::InvalidViewChange(_, _, _)) => {
                                // the sender lags behind a view change: show
                                // it the proof that justified our view
                                match self.chain.view_change_proof() {
                                    Some(vcp) => {
                                        let tip = self.chain.chain_info();
                                        let vc = self.chain.view_change();
                                        if vc > 0 {
                                            let sealed = SealedViewChangeProof {
                                                chain: ChainInfo {
                                                    height: tip.height,
                                                    last_block: tip.last_block,
                                                    view_change: (vc - 1) as u32,
                                                },
                                                proof: vcp,
                                            };
                                            self.outbox.push(
                                                NodeAction::SendViewChangeProof(leader, sealed),
                                            );
                                        }
                                    },
                                    None => {},
                                }
                                return Err(e);
                            },
                            _ => {
                                return Err(e);
                            },
                        }
                    },
                };
                // drop the transactions the block settled
                let mut input_hashes: Vec<Digest> = Vec::new();
                let mut i: usize = 0;
                proof {
                    assert(input_hashes@ =~= crate::chain::outputs_digests(inputs@).take(0));
                }
                #[verifier::loop_isolation(false)]
                while i < inputs.len()
                    invariant
                        0 <= i <= inputs@.len(),
                        input_hashes@ == crate::chain::outputs_digests(inputs@).take(i as int),
                    decreases inputs@.len() - i,
                {
                    input_hashes.push(hash_output(&inputs[i]));
                    proof {
                        assert(input_hashes@ =~= crate::chain::outputs_digests(inputs@).take(
                            i + 1,
                        ));
                    }
                    i += 1;
                }
                proof {
                    let ds = crate::chain::outputs_digests(inputs@);
                    assert(ds.take(ds.len() as int) =~= ds);
                }
                let mut output_hashes: Vec<Digest> = Vec::new();
                let mut i: usize = 0;
                proof {
                    assert(output_hashes@ =~= crate::chain::outputs_digests(outputs@).take(0));
                }
                #[verifier::loop_isolation(false)]
                while i < outputs.len()
                    invariant
                        0 <= i <= outputs@.len(),
                        output_hashes@ == crate::chain::outputs_digests(outputs@).take(i as int),
                    decreases outputs@.len() - i,
                {
                    output_hashes.push(hash_output(&outputs[i]));
                    proof {
                        assert(output_hashes@ =~= crate::chain::outputs_digests(outputs@).take(
                            i + 1,
                        ));
                    }
                    i += 1;
                }
                proof {
                    let ds = crate::chain::outputs_digests(outputs@);
                    assert(ds.take(ds.len() as int) =~= ds);
                }
                self.mempool.prune(&input_hashes, &output_hashes);
                self.outbox.push(
                    NodeAction::NotifyOutputsChanged(
                        OutputsChanged { epoch: self.chain.epoch(), inputs, outputs },
                    ),
                );
                let added = self.make_block_added(height, hash, view_change, timestamp, now);
                self.outbox.push(NodeAction::NotifyBlockAdded(added));
                let ghost ob = self.outbox@;
                self.update_validation_status(now);
                proof {
                    assert(self.outbox@.subrange(0, ob.len() as int) =~= ob);
                    let base = old(self).outbox@.len() as int;
                    assert(self.outbox@[base] == ob[base]);
                    assert(self.outbox@[base + 1] == ob[base + 1]);
                }
                Ok(())
            },
        }
    }

    /// What fork resolution decides for a competing block at an applied
    /// height, in the order the checks run: only micro blocks fork; the
    /// producer must be the leader its view selects over the shared
    /// predecessor's randomness; an equal view keeps ours (a duplicate
    /// silently, a double block as a counted cheat); an older view keeps
    /// ours and sends our blocks back; a newer view must carry the sealed
    /// proof of its skip, which then decides as a rollback.
    pub open spec fn fork_decision(self, remote: Block) -> Result<(), ForkError> {
        match remote {
            Block::MacroBlock(_) => Err(
                ForkError::Failed(
                    NodeError::Block(
                        BlockError::ExpectedMicroBlock(
                            remote.spec_base().height,
                            spec_hash_block(remote),
                        ),
                    ),
                ),
            ),
            Block::MicroBlock(mb) => {
                let h = mb.base.height as int;
                let leader = spec_select_leader(
                    self.chain.spec_validators(),
                    self.chain.spec_blocks()[h - 1].spec_base().random,
                    mb.base.view_change,
                );
                let local_view = self.chain.spec_blocks()[h].spec_base().view_change;
                if leader != mb.pkey {
                    Err(
                        ForkError::Failed(
                            NodeError::Block(BlockError::DifferentPublicKey(leader, mb.pkey)),
                        ),
                    )
                } else if mb.base.view_change <= local_view {
                    Err(ForkError::Canceled)
                } else {
                    match mb.view_change_proof {
                        None => Err(
                            ForkError::Failed(
                                NodeError::Block(
                                    BlockError::NoProofWasFound(
                                        mb.base.height,
                                        spec_hash_block(remote),
                                        mb.base.view_change,
                                        0,
                                    ),
                                ),
                            ),
                        ),
                        Some(p) => self.rollback_decision(
                            SealedViewChangeProof {
                                chain: ChainInfo {
                                    height: mb.base.height,
                                    last_block: mb.base.previous,
                                    view_change: (mb.base.view_change - 1) as u32,
                                },
                                proof: p,
                            },
                        ),
                    }
                }
            },
        }
    }

    /// Resolve a fork: a competing micro block arrived at a height this
    /// node already applied, inside the current epoch.  Decide, in order:
    /// drop a duplicate; reject a producer that is not the leader of its
    /// view; count a same-view double block as cheating and keep ours; send
    /// our blocks to a peer whose view is older; demand a view-change proof
    /// for a newer view; and otherwise let the proof justify rolling back.
    pub fn resolve_fork(&mut self, remote: &Block, now: u64) -> (r: Result<(), ForkError>)
        requires
            old(self).wf(),
            old(self).headroom(),
            old(self).chain.spec_last_macro_height() < remote.spec_base().height < old(self).chain.spec_height(),
            now <= i64::MAX,
        ensures
            final(self).wf(),
            final(self).cfg == old(self).cfg,
            final(self).pkey == old(self).pkey,
            final(self).skey == old(self).skey,
            final(self).mempool == old(self).mempool,
            final(self).future_blocks == old(self).future_blocks,
            old(self).headroom() ==> final(self).headroom(),
            // the decision table is followed exactly
            r == old(self).fork_decision(*remote),
            // our chain only moves when the rollback is accepted
            r is Err ==> final(self).chain == old(self).chain
                && final(self).validation == old(self).validation,
            r is Ok ==> final(self).chain.spec_height() == remote.spec_base().height
                && final(self).chain.spec_view_change() == remote.spec_base().view_change,
            // a same-view double block is a counted cheat; a mere duplicate
            // is not
            remote matches Block::MicroBlock(mb) ==> {
                let leader_ok = mb.pkey == spec_select_leader(
                    old(self).chain.spec_validators(),
                    old(self).chain.spec_blocks()[mb.base.height - 1].spec_base().random,
                    mb.base.view_change,
                );
                let local_view = old(self).chain.spec_blocks()[
                    mb.base.height as int
                ].spec_base().view_change;
                let local_hash = spec_hash_block(
                    old(self).chain.spec_blocks()[mb.base.height as int],
                );
                &&& (leader_ok && mb.base.view_change == local_view && spec_hash_block(*remote)
                    != local_hash ==> final(self).cheats == if old(self).cheats < u64::MAX {
                    (old(self).cheats + 1) as u64
                } else {
                    old(self).cheats
                })
                &&& (leader_ok && mb.base.view_change == local_view && spec_hash_block(*remote)
                    == local_hash ==> *final(self) == *old(self))
                &&& (leader_ok && mb.base.view_change < local_view ==> final(self).outbox@.len()
                    == old(self).outbox@.len() + 1 && (final(self).outbox@.last() matches
                    NodeAction::SendBlocks(to, _) && to == mb.pkey))
            },
    {
        let height = remote.base_header().height;
        let remote_hash = hash_block(remote);
        let remote_block = match remote {
            Block::MicroBlock(b) => b,
            Block::MacroBlock(_) => {
                return Err(
                    ForkError::Failed(
                        NodeError::Block(BlockError::ExpectedMicroBlock(height, remote_hash)),
                    ),
                );
            },
        };
        let remote_view_change = remote_block.base.view_change;
        let local_hash = hash_block(self.chain.block_by_height(height));
        let local_view_change = self.chain.block_by_height(height).base_header().view_change;

        // the remote producer must be the leader its view selects, seeded
        // by the randomness of the shared predecessor
        let previous_random = self.chain.block_by_height(height - 1).base_header().random;
        let leader = select_leader(self.chain.validators(), previous_random, remote_view_change);
        if leader.val != remote_block.pkey.val {
            return Err(
                ForkError::Failed(
                    NodeError::Block(BlockError::DifferentPublicKey(leader, remote_block.pkey)),
                ),
            );
        }

        if remote_view_change == local_view_change {
            if remote_hash.bits == local_hash.bits {
                // a duplicate of the block we already hold
                return Err(ForkError::Canceled);
            }
            // two blocks from one leader at one view: keep ours, note the
            // cheat; slashing is out of scope
            if self.cheats < u64::MAX {
                self.cheats = self.cheats + 1;
            }
            return Err(ForkError::Canceled);
        } else if remote_view_change < local_view_change {
            // our chain is fresher: show the peer our blocks
            self.send_blocks(remote_block.pkey, height);
            return Err(ForkError::Canceled);
        }

        // a newer view must carry the sealed proof of its skip: the votes
        // witnessed the tip at the view just before the remote block's
        let sealed = match &remote_block.view_change_proof {
            Some(vcp) => SealedViewChangeProof {
                chain: ChainInfo {
                    height: remote_block.base.height,
                    last_block: remote_block.base.previous,
                    view_change: (remote_view_change - 1) as u32,
                },
                proof: clone_proof(vcp),
            },
            None => {
                return Err(
                    ForkError::Failed(
                        NodeError::Block(
                            BlockError::NoProofWasFound(
                                height,
                                remote_hash,
                                remote_view_change,
                                0,
                            ),
                        ),
                    ),
                );
            },
        };
        self.try_rollback(remote_block.pkey, sealed, now)
    }

    /// The tip witness this node holds for a height: the header of the
    /// block applied there, or the live tip when the height is the tip.
    pub open spec fn local_witness_at(self, height: u64) -> ChainInfo {
        if (height as int) < self.chain.spec_height() {
            let base = self.chain.spec_blocks()[height as int].spec_base();
            ChainInfo {
                height: base.height,
                last_block: base.previous,
                view_change: base.view_change,
            }
        } else {
            spec_tip(self.chain)
        }
    }

    /// What a rollback on a sealed view-change proof decides, in the order
    /// the checks run: finalized, future or already superseded state
    /// cancels quietly; a proof grown from another block cancels after a
    /// history request; a proof that does not verify is the named error;
    /// otherwise the rollback is owed.
    pub open spec fn rollback_decision(self, sealed: SealedViewChangeProof) -> Result<
        (),
        ForkError,
    > {
        let height = sealed.chain.height;
        if height <= self.chain.spec_last_macro_height() {
            Err(ForkError::Canceled)
        } else if height > self.chain.spec_height() {
            Err(ForkError::Canceled)
        } else {
            let local = self.local_witness_at(height);
            if sealed.chain.view_change < local.view_change {
                Err(ForkError::Canceled)
            } else if sealed.chain.view_change >= u32::MAX - 2 {
                Err(ForkError::Canceled)
            } else if sealed.chain.last_block != local.last_block {
                Err(ForkError::Canceled)
            } else if !spec_check_multi_signature(
                spec_hash_chain_info(sealed.chain),
                sealed.proof.multisig,
                bv_bits(sealed.proof.multimap),
                self.chain.spec_validators(),
                spec_select_leader(
                    self.chain.spec_validators(),
                    self.chain.spec_blocks()[height - 1].spec_base().random,
                    (sealed.chain.view_change + 1) as u32,
                ),
                total_stake(self.chain.spec_validators()),
            ) {
                Err(ForkError::Failed(NodeError::Block(BlockError::InvalidViewChangeProof(height))))
            } else {
                Ok(())
            }
        }
    }

    /// The rollback branch that asks the sender for history: the proof
    /// passed the height and view checks but extends another block.
    pub open spec fn rollback_requests_history(self, sealed: SealedViewChangeProof) -> bool {
        let height = sealed.chain.height;
        &&& self.chain.spec_last_macro_height() < height <= self.chain.spec_height()
        &&& sealed.chain.view_change >= self.local_witness_at(height).view_change
        &&& sealed.chain.view_change < u32::MAX - 2
        &&& sealed.chain.last_block != self.local_witness_at(height).last_block
    }

    /// Roll the chain back on a verified view-change proof: pop micro
    /// blocks down to the proof's height and record the skipped view.
    /// Cancels quietly when the proof talks about finalized, future or
    /// already superseded state; asks the sender for history when its chain
    /// grew from another block than ours.
    pub fn try_rollback(&mut self, pkey: Pk, sealed: SealedViewChangeProof, now: u64) -> (r: Result<
        (),
        ForkError,
    >)
        requires
            old(self).wf(),
            old(self).headroom(),
        ensures
            final(self).wf(),
            final(self).cfg == old(self).cfg,
            final(self).pkey == old(self).pkey,
            final(self).skey == old(self).skey,
            final(self).mempool == old(self).mempool,
            final(self).future_blocks == old(self).future_blocks,
            old(self).headroom() ==> final(self).headroom(),
            // the decision table is followed exactly
            r == old(self).rollback_decision(sealed),
            // a refused proof leaves the chain alone; only the
            // grown-elsewhere case asks the sender for history
            r is Err ==> final(self).chain == old(self).chain && final(self).validation == old(self).validation,
            r is Err && old(self).rollback_requests_history(sealed) ==> final(self).outbox@ == old(self).outbox@.push(NodeAction::RequestHistory(pkey)),
            r is Err && !old(self).rollback_requests_history(sealed) ==> final(self).outbox@
                == old(self).outbox@,
            // an accepted proof pops down to its height, announces each
            // popped block's outputs, and records the skipped view
            r is Ok ==> final(self).chain.spec_height() == sealed.chain.height
                && final(self).chain.spec_view_change() == sealed.chain.view_change + 1
                && final(self).chain.spec_view_change_proof() is Some
                && final(self).role_matches()
                && final(self).outbox@.len() >= old(self).outbox@.len() + old(self).chain.spec_height() - sealed.chain.height
                && (forall|k: int|
                    old(self).outbox@.len() <= k < old(self).outbox@.len() + old(self).chain.spec_height() - sealed.chain.height
                        ==> (#[trigger] final(self).outbox@[k]) is NotifyOutputsChanged)
                && Self::appends_no_history(old(self).outbox@, final(self).outbox@)
                && (final(self).forks == if old(self).forks < u64::MAX {
                    (old(self).forks + 1) as u64
                } else {
                    old(self).forks
                }),
    {
        let height = sealed.chain.height;
        if height <= self.chain.last_macro_block_height() {
            // finalized history is immutable
            return Err(ForkError::Canceled);
        }
        let top = self.chain.height();
        let local: ChainInfo = if height < top {
            let b = self.chain.block_by_height(height);
            ChainInfo::from_block(b.base_header())
        } else if height == top {
            self.chain.chain_info()
        } else {
            // the proof is ahead of us; history fetch will catch us up
            return Err(ForkError::Canceled);
        };
        if sealed.chain.view_change < local.view_change {
            // our view is already as new
            return Err(ForkError::Canceled);
        }
        if sealed.chain.view_change >= u32::MAX - 2 {
            return Err(ForkError::Canceled);
        }
        if sealed.chain.last_block.bits != local.last_block.bits {
            // the proof extends a different block: fetch the sender's view
            self.request_history_from(pkey);
            return Err(ForkError::Canceled);
        }
        // the skipped view's leader was selected by the randomness of the
        // block the witness points at: the shared predecessor
        let predecessor_random = self.chain.block_by_height(height - 1).base_header().random;
        if !validate_view_change_proof(
            &sealed.proof,
            &sealed.chain,
            &self.chain,
            predecessor_random,
        ) {
            return Err(
                ForkError::Failed(NodeError::Block(BlockError::InvalidViewChangeProof(height))),
            );
        }
        if self.forks < u64::MAX {
            self.forks = self.forks + 1;
        }
        let ghost base_len = old(self).outbox@.len() as int;
        // truncate the chain down to the proof's height
        #[verifier::loop_isolation(false)]
        while self.chain.height() > height
            invariant
                self.wf_core(),
                self.chain.spec_last_macro_height() < height <= self.chain.spec_height(),
                self.chain.spec_height() <= old(self).chain.spec_height(),
                self.cfg == old(self).cfg,
                self.pkey == old(self).pkey,
                self.skey == old(self).skey,
                self.mempool == old(self).mempool,
                self.future_blocks == old(self).future_blocks,
                self.validation == old(self).validation,
                self.forks == if old(self).forks < u64::MAX {
                    (old(self).forks + 1) as u64
                } else {
                    old(self).forks
                },
                self.outbox@.len() == base_len + old(self).chain.spec_height()
                    - self.chain.spec_height(),
                old(self).outbox@.is_prefix_of(self.outbox@),
                forall|k: int|
                    base_len <= k < self.outbox@.len() ==> (#[trigger] self.outbox@[k])
                        is NotifyOutputsChanged,
            decreases self.chain.spec_height(),
        {
            let (inputs, outputs) = match self.chain.pop_micro_block() {
                Ok(v) => v,
                Err(_) => {
                    proof {
                        assert(false);
                    }
                    return Err(ForkError::Canceled);
                },
            };
            self.outbox.push(
                NodeAction::NotifyOutputsChanged(
                    OutputsChanged { epoch: self.chain.epoch(), inputs, outputs },
                ),
            );
        }
        self.chain.set_view_change(sealed.chain.view_change + 1, sealed.proof);
        // the leader changed with the view: recompute the role state
        let ghost ob = self.outbox@;
        self.update_validation_status(now);
        proof {
            assert(self.outbox@.subrange(0, ob.len() as int) =~= ob);
            assert forall|k: int|
                base_len <= k < base_len + old(self).chain.spec_height()
                    - sealed.chain.height implies (#[trigger] self.outbox@[k])
                is NotifyOutputsChanged by {
                assert(self.outbox@[k] == ob[k]);
            }
        }
        Ok(())
    }

    /// Put an orphan into the buffer, keeping heights strictly ascending;
    /// a block already buffered at the same height is replaced.
    #[verifier::loop_isolation(false)]
    fn buffer_orphan(&mut self, height: u64, block: Block)
        requires
            old(self).wf(),
        ensures
            final(self).wf(),
            final(self).chain == old(self).chain,
            final(self).cfg == old(self).cfg,
            final(self).validation == old(self).validation,
            final(self).outbox@ == old(self).outbox@,
            final(self).mempool == old(self).mempool,
            final(self).counters() == old(self).counters(),
            final(self).pkey == old(self).pkey,
            final(self).skey == old(self).skey,
            final(self).future_blocks@.len() >= 1,
            // the block now waits in the buffer under its height
            exists|k: int|
                0 <= k < final(self).future_blocks@.len() && (#[trigger] final(self).future_blocks@[k]) == (height, block),
            // with an empty buffer it is the only entry
            old(self).future_blocks@.len() == 0 ==> final(self).future_blocks@ =~= seq![
                (height, block),
            ],
    {
        let mut i: usize = 0;
        while i < self.future_blocks.len() && self.future_blocks[i].0 < height
            invariant
                0 <= i <= self.future_blocks@.len(),
                self.future_blocks@ == old(self).future_blocks@,
                forall|j: int| 0 <= j < i ==> (#[trigger] self.future_blocks@[j]).0 < height,
            decreases self.future_blocks@.len() - i,
        {
            i += 1;
        }
        if i < self.future_blocks.len() && self.future_blocks[i].0 == height {
            self.future_blocks.remove(i);
            proof {
                assert forall|a: int, b: int|
                    0 <= a < b < self.future_blocks@.len() implies self.future_blocks@[a].0
                    < self.future_blocks@[b].0 by {
                    if b < i {
                    } else if a < i {
                        assert(self.future_blocks@[b] == old(self).future_blocks@[b + 1]);
                    } else {
                        assert(self.future_blocks@[a] == old(self).future_blocks@[a + 1]);
                        assert(self.future_blocks@[b] == old(self).future_blocks@[b + 1]);
                    }
                }
            }
        }
        let ghost before = self.future_blocks@;
        self.future_blocks.insert(i, (height, block));
        proof {
            assert(self.future_blocks@[i as int] == (height, block));
            assert forall|a: int, b: int|
                0 <= a < b < self.future_blocks@.len() implies self.future_blocks@[a].0
                < self.future_blocks@[b].0 by {
                if b < i {
                } else if b == i {
                    assert(self.future_blocks@[a] == before[a]);
                } else if a == i {
                    assert(self.future_blocks@[b] == before[b - 1]);
                } else if a < i {
                    assert(self.future_blocks@[a] == before[a]);
                    assert(self.future_blocks@[b] == before[b - 1]);
                } else {
                    assert(self.future_blocks@[a] == before[a - 1]);
                    assert(self.future_blocks@[b] == before[b - 1]);
                }
            }
        }
    }

    /// Whether a sealed block from the network carries the structural
    /// signature its flavor requires: a macro block a verifying
    /// supermajority multi-signature with its view's leader, a micro block
    /// its producing validator's signature.
    pub open spec fn sealed_signature_ok(self, block: Block) -> bool {
        match block {
            Block::MacroBlock(mb) => spec_check_multi_signature(
                spec_hash_block(block),
                mb.body.multisig,
                bv_bits(mb.body.multisigmap),
                self.chain.spec_validators(),
                spec_select_leader(
                    self.chain.spec_validators(),
                    self.chain.spec_last_random(),
                    mb.header.base.view_change,
                ),
                total_stake(self.chain.spec_validators()),
            ),
            Block::MicroBlock(mb) => spec_check_hash(spec_hash_block(block), mb.sig, mb.pkey)
                && is_validator_in(self.chain.spec_validators(), mb.pkey),
        }
    }

    /// Ingest a sealed block from the network.
    ///
    /// A block from a finalized epoch is ignored; a block beyond the
    /// current epoch triggers a history fetch; a structurally unsigned
    /// block is rejected; a block at an already applied height goes to the
    /// fork resolver; a block continuing the tip is applied (a failed apply
    /// is reported upstream only as a history request); anything else is
    /// buffered by height, and the buffer drains onto the chain while it
    /// continues at the tip.
    #[verifier::rlimit(100)]
    #[verifier::spinoff_prover]
    pub fn handle_sealed_block(&mut self, block: Block, now: u64) -> (r: Result<(), NodeError>)
        requires
            old(self).wf(),
            old(self).headroom(),
            now <= i64::MAX,
        ensures
            final(self).wf(),
            final(self).cfg == old(self).cfg,
            // a duplicate from a finalized epoch is ignored outright
            block.spec_base().height <= old(self).chain.spec_last_macro_height() ==> r is Ok
                && *final(self) == *old(self),
            // an orphan from a later epoch only triggers a history fetch
            block.spec_base().height > old(self).chain.spec_last_macro_height() + old(self).cfg.blocks_in_epoch ==> r is Ok && final(self).chain == old(self).chain && final(self).mempool == old(self).mempool && final(self).validation == old(self).validation
                && final(self).outbox@.len() == old(self).outbox@.len() + 1,
            // a block failing its structural signature is the named error,
            // and nothing changes
            old(self).chain.spec_last_macro_height() < block.spec_base().height <= old(self).chain.spec_last_macro_height() + old(self).cfg.blocks_in_epoch && !old(self).sealed_signature_ok(block) ==> *final(self) == *old(self) && r == Err::<
                (),
                NodeError,
            >(
                NodeError::Block(
                    match block {
                        Block::MacroBlock(_) => BlockError::InvalidBlockSignature(
                            block.spec_base().height,
                            spec_hash_block(block),
                        ),
                        Block::MicroBlock(mb) => if !spec_check_hash(
                            spec_hash_block(block),
                            mb.sig,
                            mb.pkey,
                        ) {
                            BlockError::InvalidLeaderSignature(
                                block.spec_base().height,
                                spec_hash_block(block),
                            )
                        } else {
                            BlockError::LeaderIsNotValidator(
                                block.spec_base().height,
                                spec_hash_block(block),
                            )
                        },
                    },
                ),
            ),
            // a competing block at an applied height follows the fork
            // decision table; only its hard failures surface
            old(self).chain.spec_last_macro_height() < block.spec_base().height < old(self).chain.spec_height() && block.spec_base().height <= old(self).chain.spec_last_macro_height() + old(self).cfg.blocks_in_epoch && old(self).sealed_signature_ok(block) ==> match old(self).fork_decision(block) {
                Err(ForkError::Failed(e)) => r == Err::<(), NodeError>(e),
                _ => r is Ok,
            },
            // a canceled fork changes neither the chain, the mempool nor
            // the validation state
            old(self).chain.spec_last_macro_height() < block.spec_base().height < old(self).chain.spec_height() && block.spec_base().height <= old(self).chain.spec_last_macro_height() + old(self).cfg.blocks_in_epoch && old(self).sealed_signature_ok(block) && (old(self).fork_decision(block) matches Err(ForkError::Canceled)) ==> r is Ok
                && final(self).chain == old(self).chain && final(self).mempool == old(self).mempool
                && final(self).validation == old(self).validation,
            // an accepted fork rolls back to the remote's height; when the
            // chain then grows past it, the remote block itself sits there
            old(self).chain.spec_last_macro_height() < block.spec_base().height < old(self).chain.spec_height() && block.spec_base().height <= old(self).chain.spec_last_macro_height() + old(self).cfg.blocks_in_epoch && old(self).sealed_signature_ok(block) && old(self).fork_decision(block) is Ok ==> r is Ok
                && final(self).chain.spec_height() >= block.spec_base().height
                && (final(self).chain.spec_height() > block.spec_base().height
                ==> final(self).chain.spec_blocks()[block.spec_base().height as int] == block),
            // a signed block continuing the tip that the chain accepts is
            // owed its application
            block.spec_base().height == old(self).chain.spec_height() && block.spec_base().height
                <= old(self).chain.spec_last_macro_height() + old(self).cfg.blocks_in_epoch && old(self).sealed_signature_ok(block) && old(self).apply_decision(block) is Ok ==> r is Ok
                && final(self).chain.spec_height() > old(self).chain.spec_height() && final(self).chain.spec_blocks()[old(self).chain.spec_height() as int - 0] == block,
            // a signed block of this epoch ahead of the tip is buffered:
            // while the chain has not moved, it waits in the orphan pool
            block.spec_base().height > old(self).chain.spec_height() && block.spec_base().height
                <= old(self).chain.spec_last_macro_height() + old(self).cfg.blocks_in_epoch && old(self).sealed_signature_ok(block) ==> r is Ok && (final(self).chain
                == old(self).chain ==> exists|k: int|
                0 <= k < final(self).future_blocks@.len() && (
                #[trigger] final(self).future_blocks@[k]) == (block.spec_base().height, block)),
            // with nothing buffered before it, such an orphan is kept alone
            // and draws exactly one history request to the current leader
            block.spec_base().height > old(self).chain.spec_height() && block.spec_base().height
                <= old(self).chain.spec_last_macro_height() + old(self).cfg.blocks_in_epoch && old(self).sealed_signature_ok(block) && old(self).future_blocks@.len() == 0 ==> final(self).chain == old(self).chain && final(self).future_blocks@ =~= seq![
                (block.spec_base().height, block),
            ] && final(self).outbox@ == old(self).outbox@.push(
                NodeAction::RequestHistory(
                    spec_select_leader(
                        old(self).chain.spec_validators(),
                        old(self).chain.spec_last_random(),
                        old(self).chain.spec_view_change(),
                    ),
                ),
            ),
            // a tip block that drains the whole buffer without a gap leaves
            // no history request behind
            block.spec_base().height == old(self).chain.spec_height() && block.spec_base().height
                <= old(self).chain.spec_last_macro_height() + old(self).cfg.blocks_in_epoch && old(self).sealed_signature_ok(block) && old(self).apply_decision(block) is Ok && final(self).future_blocks@.len() == 0 && final(self).chain.spec_height() == old(self).chain.spec_height() + 1 + old(self).future_blocks@.len() ==> Self::appends_no_history(
                old(self).outbox@,
                final(self).outbox@,
            ),
    {
        let ghost blk = block;
        let block_hash = hash_block(&block);
        let block_height = block.base_header().height;

        // a duplicate from a finalized epoch
        if block_height <= self.chain.last_macro_block_height() {
            return Ok(());
        }
        // an orphan from a later epoch: fetch the history in between
        if block_height > self.chain.last_macro_block_height() + self.cfg.blocks_in_epoch {
            self.request_history();
            return Ok(());
        }

        // structural signatures
        match &block {
            Block::MacroBlock(mb) => {
                let leader = self.chain.select_leader(mb.header.base.view_change);
                let total = self.chain.total_slots();
                if !check_multi_signature(
                    &block_hash,
                    &mb.body.multisig,
                    &mb.body.multisigmap,
                    self.chain.validators(),
                    &leader,
                    total,
                ) {
                    return Err(
                        NodeError::Block(
                            BlockError::InvalidBlockSignature(block_height, block_hash),
                        ),
                    );
                }
            },
            Block::MicroBlock(mb) => {
                if !check_hash(&block_hash, &mb.sig, &mb.pkey) {
                    return Err(
                        NodeError::Block(
                            BlockError::InvalidLeaderSignature(block_height, block_hash),
                        ),
                    );
                }
                if !self.chain.is_validator(&mb.pkey) {
                    return Err(
                        NodeError::Block(
                            BlockError::LeaderIsNotValidator(block_height, block_hash),
                        ),
                    );
                }
            },
        }

        // a competing block at an applied height: resolve the fork
        if block_height < self.chain.height() {
            match self.resolve_fork(&block, now) {
                Ok(()) => {
                    // rolled back; the remote now continues our chain
                },
                Err(ForkError::Canceled) => {
                    return Ok(());
                },
                Err(ForkError::Failed(e)) => {
                    return Err(e);
                },
            }
        }

        let ghost applied_at = self.chain.spec_height();
        let mut applied = false;
        let ghost mut buffered = false;
        let mut stalled = false;
        if block_height == self.chain.height() {
            // the block continues the tip: apply it right away
            let view = block.base_header().view_change;
            match self.apply_new_block(block, now) {
                Ok(()) => {
                    applied = true;
                    let ok_h = (self.chain.height() as u128) + (self.cfg.blocks_in_epoch as u128)
                        + 2 < (u64::MAX as u128);
                    let ok_v = self.chain.view_change() < u32::MAX - 1;
                    if !(ok_h && ok_v) {
                        stalled = true;
                    }
                },
                Err(e) => {
                    match e {
                        NodeError::Block(BlockError::InvalidPreviousHash(_, _, _)) => {
                            // a potential fork: ask the block's leader
                            let from = self.chain.select_leader(view);
                            self.request_history_from(from);
                        },
                        _ => {},
                    }
                    return Ok(());
                },
            }
        } else {
            // an orphan of the current epoch: keep it for the drain
            self.buffer_orphan(block_height, block);
            proof {
                buffered = true;
            }
        }

        // drain the buffer while it continues at the tip
        let ghost ob_drain = self.outbox@;
        let ghost h0 = self.chain.spec_height();
        let ghost buf0 = self.future_blocks@.len() as int;
        #[verifier::loop_isolation(false)]
        while self.future_blocks.len() > 0 && !stalled
            invariant
                self.wf(),
                self.cfg == old(self).cfg,
                self.headroom() || stalled,
                applied ==> self.chain.spec_height() > applied_at && self.chain.spec_blocks()[
                    applied_at as int
                ] == blk,
                // pushes so far were history-free, or progress fell short
                // of the entries consumed, or a gap already stalled us
                self.chain.spec_height() + self.future_blocks@.len() <= h0 + buf0,
                Self::appends_no_history(ob_drain, self.outbox@) || self.chain.spec_height()
                    + self.future_blocks@.len() < h0 + buf0 || (stalled
                    && self.future_blocks@.len() > 0),
                // a buffered block waits under its height until it is
                // applied there
                buffered ==> block_height > old(self).chain.spec_height(),
                buffered ==> (exists|k: int|
                    0 <= k < self.future_blocks@.len() && (#[trigger] self.future_blocks@[k]) == (
                    block_height,
                    blk,
                )) || self.chain.spec_height() > old(self).chain.spec_height(),
                // with nothing else buffered, the lone orphan only draws
                // one history request
                buffered && old(self).future_blocks@.len() == 0 ==> self.chain == old(self).chain
                    && self.future_blocks@ =~= seq![(block_height, blk)] && (!stalled
                    ==> self.outbox@ == ob_drain) && (stalled ==> self.outbox@ == ob_drain.push(
                    NodeAction::RequestHistory(
                        spec_select_leader(
                            old(self).chain.spec_validators(),
                            old(self).chain.spec_last_random(),
                            old(self).chain.spec_view_change(),
                        ),
                    ),
                )),
            decreases self.future_blocks@.len(), (if stalled { 0int } else { 1int }),
        {
            let ghost pre_iter = *self;
            let h = self.future_blocks[0].0;
            let tip = self.chain.height();
            if h < tip {
                // became stale after a rollback or duplicate
                self.future_blocks.remove(0);
                proof {
                    if buffered && !(self.chain.spec_height() > old(self).chain.spec_height()) {
                        let w = choose|k: int|
                            0 <= k < pre_iter.future_blocks@.len() && (
                            #[trigger] pre_iter.future_blocks@[k]) == (block_height, blk);
                        assert(w != 0);
                        assert(self.future_blocks@[w - 1] == (block_height, blk));
                    }
                }
            } else if h == tip {
                let (_, next) = self.future_blocks.remove(0);
                let ghost was_ours = pre_iter.future_blocks@[0] == (block_height, blk);
                let view = next.base_header().view_change;
                match self.apply_new_block(next, now) {
                    Ok(()) => {
                        proof {
                            if Self::appends_no_history(ob_drain, pre_iter.outbox@) {
                                Self::lemma_no_history_trans(
                                    ob_drain,
                                    pre_iter.outbox@,
                                    self.outbox@,
                                );
                            }
                            if buffered && !(self.chain.spec_height() > old(self).chain.spec_height()) {
                                let w = choose|k: int|
                                    0 <= k < pre_iter.future_blocks@.len() && (
                                    #[trigger] pre_iter.future_blocks@[k]) == (
                                    block_height,
                                    blk,
                                );
                                assert(w != 0);
                                assert(self.future_blocks@[w - 1] == (block_height, blk));
                            }
                        }
                        let ok_h = (self.chain.height() as u128) + (
                        self.cfg.blocks_in_epoch as u128) + 2 < (u64::MAX as u128);
                        let ok_v = self.chain.view_change() < u32::MAX - 1;
                        if !(ok_h && ok_v) {
                            stalled = true;
                        }
                    },
                    Err(e) => {
                        proof {
                            if buffered && !(self.chain.spec_height() > old(self).chain.spec_height()) {
                                let w = choose|k: int|
                                    0 <= k < pre_iter.future_blocks@.len() && (
                                    #[trigger] pre_iter.future_blocks@[k]) == (
                                    block_height,
                                    blk,
                                );
                                assert(w != 0);
                                assert(self.future_blocks@[w - 1] == (block_height, blk));
                            }
                        }
                        match e {
                            NodeError::Block(BlockError::InvalidPreviousHash(_, _, _)) => {
                                // a potential fork: ask the block's leader
                                let from = self.chain.select_leader(view);
                                self.request_history_from(from);
                            },
                            _ => {},
                        }
                        stalled = true;
                    },
                }
            } else {
                stalled = true;
                // a gap remains: fetch the missing history
                self.request_history();
            }
        }
        proof {
            if Self::appends_no_history(old(self).outbox@, ob_drain) && Self::appends_no_history(
                ob_drain,
                self.outbox@,
            ) {
                Self::lemma_no_history_trans(old(self).outbox@, ob_drain, self.outbox@);
            }
        }
        Ok(())
    }

    /// What accepting a transaction decides, in the order the checks run:
    /// it must stay within the per-transaction UTXO budget, fit the
    /// mempool's budget, not repeat a pending transaction, carry at least
    /// the payment fee when it creates outputs, spend only known unspent
    /// outputs, and balance under its signature.
    pub open spec fn tx_decision(self, tx: Transaction) -> Result<(), NodeError> {
        let h = spec_hash_transaction(tx);
        let cnt = sat_usize(tx.body.txins@.len() + tx.body.txouts@.len() as int);
        let pool = self.mempool.spec_pool();
        let in_cnt = sat_usize(pool_inputs_count(pool, pool.len() as int));
        let out_cnt = sat_usize(pool_outputs_count(pool, pool.len() as int));
        if cnt > self.cfg.max_utxo_in_tx {
            Err(
                NodeError::Transaction(
                    TransactionError::TooLarge(h, cnt as usize, self.cfg.max_utxo_in_tx),
                ),
            )
        } else if sat_usize(in_cnt + out_cnt) > self.cfg.max_utxo_in_mempool {
            Err(NodeError::Transaction(TransactionError::MempoolIsFull(h)))
        } else if exists|i: int| 0 <= i < pool.len() && (#[trigger] pool[i]).0 == h {
            Err(NodeError::Transaction(TransactionError::ConflictingUtxo(h)))
        } else if tx.body.fee < crate::config::PAYMENT_FEE && tx.body.txouts@.len() > 0 {
            Err(
                NodeError::Transaction(
                    TransactionError::FeeTooLow(h, tx.body.fee, crate::config::PAYMENT_FEE),
                ),
            )
        } else {
            match resolve_inputs(self.chain.spec_utxo(), tx.body.txins@) {
                Err(d) => Err(NodeError::Transaction(TransactionError::MissingUtxo(d))),
                Ok(inputs) => if spec_valid_transaction(tx, inputs) {
                    Ok(())
                } else {
                    Err(NodeError::Transaction(TransactionError::Unbalanced(h)))
                },
            }
        }
    }

    /// Accept a transaction into the mempool: it must stay within the
    /// per-transaction and mempool UTXO budgets, spend only known unspent
    /// outputs, balance, and carry a sufficient fee.
    pub fn handle_transaction(&mut self, tx: Transaction) -> (r: Result<(), NodeError>)
        requires
            old(self).wf(),
        ensures
            final(self).wf(),
            final(self).chain == old(self).chain,
            final(self).cfg == old(self).cfg,
            // the acceptance table is followed exactly
            r == old(self).tx_decision(tx),
            r is Err ==> *final(self) == *old(self),
            r is Ok ==> final(self).mempool.spec_pool().len() >= 1 && crate::tx::tx_eq(
                final(self).mempool.spec_pool().last().1,
                tx,
            ) && final(self).mempool.spec_pool().last().0 == spec_hash_transaction(tx) && final(self).validation == old(self).validation && final(self).outbox@ == old(self).outbox@,
    {
        let tx_hash = hash_transaction(&tx);
        let n_ins = tx.body.txins.len();
        let n_outs = tx.body.txouts.len();
        let utxo_count: usize = if n_ins > usize::MAX - n_outs {
            usize::MAX
        } else {
            n_ins + n_outs
        };
        if utxo_count > self.cfg.max_utxo_in_tx {
            return Err(
                NodeError::Transaction(
                    TransactionError::TooLarge(tx_hash, utxo_count, self.cfg.max_utxo_in_tx),
                ),
            );
        }
        let in_pool = self.mempool.inputs_len();
        let out_pool = self.mempool.outputs_len();
        let pool_count: usize = if in_pool > usize::MAX - out_pool {
            usize::MAX
        } else {
            in_pool + out_pool
        };
        if pool_count > self.cfg.max_utxo_in_mempool {
            return Err(NodeError::Transaction(TransactionError::MempoolIsFull(tx_hash)));
        }
        if self.mempool.contains(&tx_hash) {
            return Err(NodeError::Transaction(TransactionError::ConflictingUtxo(tx_hash)));
        }
        if tx.body.fee < crate::config::PAYMENT_FEE && tx.body.txouts.len() > 0 {
            return Err(
                NodeError::Transaction(
                    TransactionError::FeeTooLow(tx_hash, tx.body.fee, crate::config::PAYMENT_FEE),
                ),
            );
        }
        // the transaction must spend known unspent outputs and balance
        let ghost u = self.chain.spec_utxo();
        let ghost ins = tx.body.txins@;
        let mut inputs: Vec<Output> = Vec::new();
        let mut i: usize = 0;
        proof {
            assert(ins.skip(0) =~= ins);
        }
        #[verifier::loop_isolation(false)]
        while i < tx.body.txins.len()
            invariant
                0 <= i <= ins.len(),
                match resolve_inputs(u, ins) {
                    Err(d) => resolve_inputs(u, ins.skip(i as int)) == Err::<Seq<Output>, Digest>(
                        d,
                    ),
                    Ok(all) => resolve_inputs(u, ins.skip(i as int)) matches Ok(rest) && all
                        == inputs@ + rest,
                },
            decreases ins.len() - i,
        {
            proof {
                let sk = ins.skip(i as int);
                assert(sk[0] == ins[i as int]);
                assert(sk.drop_first() =~= ins.skip(i + 1));
            }
            match self.chain.output_by_hash(&tx.body.txins[i]) {
                Some(o) => {
                    let ghost before = inputs@;
                    inputs.push(o);
                    proof {
                        if resolve_inputs(u, ins) is Ok {
                            assert(before + (seq![o] + resolve_inputs(
                                u,
                                ins.skip(i + 1),
                            )->Ok_0) =~= inputs@ + resolve_inputs(u, ins.skip(i + 1))->Ok_0);
                        }
                    }
                },
                None => {
                    return Err(
                        NodeError::Transaction(
                            TransactionError::MissingUtxo(tx.body.txins[i as usize]),
                        ),
                    );
                },
            }
            i += 1;
        }
        proof {
            assert(ins.skip(ins.len() as int) =~= Seq::<Digest>::empty());
            if resolve_inputs(u, ins) is Ok {
                assert(inputs@ + Seq::<Output>::empty() =~= inputs@);
            }
        }
        match tx.validate(&inputs) {
            Ok(()) => {},
            Err(_) => {
                return Err(NodeError::Transaction(TransactionError::Unbalanced(tx_hash)));
            },
        }
        self.mempool.push_tx(tx_hash, tx);
        Ok(())
    }

    /// Take in a view-change vote: the collector accumulates it, and a
    /// sealed supermajority advances the view and reselects the leader.
    pub fn handle_view_change_message(&mut self, msg: ViewChangeMessage) -> (r: Result<
        (),
        NodeError,
    >)
        requires
            old(self).wf(),
            old(self).headroom(),
        ensures
            final(self).wf(),
            final(self).cfg == old(self).cfg,
            final(self).counters() == old(self).counters(),
            old(self).outbox@.is_prefix_of(final(self).outbox@),
            !(old(self).validation is MicroBlockValidator) ==> r is Ok && *final(self) == *old(self),
            // a vote not about our tip is dropped without any effect
            old(self).validation is MicroBlockValidator && msg.chain != spec_tip(old(self).chain)
                ==> r is Ok && *final(self) == *old(self),
            // a stranger's vote is refused by name, and nothing changes
            old(self).validation is MicroBlockValidator && msg.chain == spec_tip(old(self).chain)
                && !is_validator_in(old(self).chain.spec_validators(), msg.pkey) ==> r == Err::<
                (),
                NodeError,
            >(NodeError::Consensus(ConsensusError::UnknownMessageSender)) && *final(self)
                == *old(self),
            // an ill-signed vote is refused by name, and nothing changes
            old(self).validation is MicroBlockValidator && msg.chain == spec_tip(old(self).chain)
                && is_validator_in(old(self).chain.spec_validators(), msg.pkey)
                && !spec_check_hash(spec_hash_chain_info(msg.chain), msg.sig, msg.pkey) ==> r
                == Err::<(), NodeError>(
                NodeError::Consensus(ConsensusError::InvalidMessageSignature),
            ) && *final(self) == *old(self),
            // a repeated vote is a no-op
            old(self).validation matches Validation::MicroBlockValidator {
                view_change_collector: c0,
                ..
            } ==> (msg.chain == spec_tip(old(self).chain) && is_validator_in(
                old(self).chain.spec_validators(),
                msg.pkey,
            ) && spec_check_hash(spec_hash_chain_info(msg.chain), msg.sig, msg.pkey)
                && c0.binding == Some(msg.chain) && crate::multisignature::has_key(
                c0.collected@,
                msg.pkey,
            ) ==> r is Ok && *final(self) == *old(self)),
            // a fresh matching vote short of a supermajority only grows the
            // collection; the chain does not move
            old(self).validation matches Validation::MicroBlockValidator {
                view_change_collector: c0,
                ..
            } ==> ((msg.chain == spec_tip(old(self).chain) && is_validator_in(
                old(self).chain.spec_validators(),
                msg.pkey,
            ) && spec_check_hash(spec_hash_chain_info(msg.chain), msg.sig, msg.pkey) && !(
            c0.binding == Some(msg.chain) && crate::multisignature::has_key(
                c0.collected@,
                msg.pkey,
            )) && 3 * crate::multisignature::stake_of_bits(
                old(self).chain.spec_validators(),
                bits_from(old(self).chain.spec_validators(), c0.collected_after(msg.chain, msg)),
                old(self).chain.spec_validators().len() as int,
            ) < 2 * total_stake(old(self).chain.spec_validators())) ==> r is Ok && final(self).chain
                == old(self).chain && (final(self).validation matches
                Validation::MicroBlockValidator { view_change_collector: c1, .. } && c1.collected@
                == c0.collected_after(msg.chain, msg))),
            // a matching, valid vote that completes a stake supermajority
            // advances the view by one and records the sealed proof, which
            // aggregates exactly the collected votes
            old(self).validation matches Validation::MicroBlockValidator {
                view_change_collector: c0,
                ..
            } ==> ((msg.chain == spec_tip(old(self).chain) && is_validator_in(
                old(self).chain.spec_validators(),
                msg.pkey,
            ) && spec_check_hash(spec_hash_chain_info(msg.chain), msg.sig, msg.pkey) && !(
            c0.binding == Some(msg.chain) && crate::multisignature::has_key(
                c0.collected@,
                msg.pkey,
            )) && 3 * crate::multisignature::stake_of_bits(
                old(self).chain.spec_validators(),
                bits_from(old(self).chain.spec_validators(), c0.collected_after(msg.chain, msg)),
                old(self).chain.spec_validators().len() as int,
            ) >= 2 * total_stake(old(self).chain.spec_validators())) ==> r is Ok && final(self).chain.spec_view_change() == old(self).chain.spec_view_change() + 1 && (final(self).chain.spec_view_change_proof() matches Some(p)
                && p.multisig.val == agg_sig_upto(
                old(self).chain.spec_validators(),
                c0.collected_after(msg.chain, msg),
                old(self).chain.spec_validators().len() as int,
            ) && bv_bits(p.multimap) == bits_from(
                old(self).chain.spec_validators(),
                c0.collected_after(msg.chain, msg),
            ))),
    {
        let sealed_opt = match &mut self.validation {
            Validation::MicroBlockValidator { view_change_collector, .. } => {
                match view_change_collector.handle_message(&self.chain, msg) {
                    Ok(v) => v,
                    Err(e) => {
                        return Err(e);
                    },
                }
            },
            _ => {
                // not validating micro blocks: ignore
                return Ok(());
            },
        };
        match sealed_opt {
            Some(sealed) => {
                let view = self.chain.view_change();
                self.chain.set_view_change(view + 1, sealed.proof);
                self.on_micro_block_leader_changed();
                Ok(())
            },
            None => Ok(()),
        }
    }

    /// Take in a sealed view-change proof sent directly by a peer: it can
    /// only justify rolling our chain back.
    pub fn handle_view_change_direct(&mut self, from: Pk, sealed: SealedViewChangeProof, now: u64)
        -> (r: Result<(), NodeError>)
        requires
            old(self).wf(),
            old(self).headroom(),
        ensures
            final(self).wf(),
            final(self).cfg == old(self).cfg,
            // the rollback decision is followed; only its hard failure
            // surfaces
            match old(self).rollback_decision(sealed) {
                Err(ForkError::Failed(e)) => r == Err::<(), NodeError>(e),
                _ => r is Ok,
            },
            old(self).rollback_decision(sealed) is Ok ==> final(self).chain.spec_height()
                == sealed.chain.height && final(self).chain.spec_view_change()
                == sealed.chain.view_change + 1,
    {
        match self.try_rollback(from, sealed, now) {
            Ok(()) => Ok(()),
            Err(ForkError::Canceled) => Ok(()),
            Err(ForkError::Failed(e)) => Err(e),
        }
    }

    /// The micro-cadence view-change timer fired: vote to skip the silent
    /// leader, rearm the timer, and fetch history in case we fell behind.
    pub fn handle_micro_block_viewchange_timer(&mut self) -> (r: Result<(), NodeError>)
        requires
            old(self).wf(),
            old(self).headroom(),
        ensures
            final(self).wf(),
            final(self).cfg == old(self).cfg,
            !(old(self).validation is MicroBlockValidator) ==> r is Ok && *final(self) == *old(self),
            // a validator signs and broadcasts its vote over the tip it
            // sees, counts the view change, and fetches history
            old(self).validation is MicroBlockValidator ==> final(self).outbox@.len() >= old(self).outbox@.len() + 1 && (final(self).outbox@[old(self).outbox@.len() as int] matches
                NodeAction::PublishViewChange(m) && m.pkey == old(self).pkey && m.chain == spec_tip(
                old(self).chain,
            ) && m.sig.val == sign_val(
                spec_hash_chain_info(spec_tip(old(self).chain)).bits,
                old(self).skey.val,
            )) && final(self).micro_view_changes == if old(self).micro_view_changes < u64::MAX {
                (old(self).micro_view_changes + 1) as u64
            } else {
                old(self).micro_view_changes
            },
            old(self).validation is MicroBlockValidator && r is Ok ==> final(self).outbox@.len()
                >= old(self).outbox@.len() + 2 && final(self).outbox@.last() matches
                NodeAction::RequestHistory(_),
    {
        let chain_info = self.chain.chain_info();
        let msg = match &mut self.validation {
            Validation::MicroBlockValidator { view_change_collector, view_change_timer, .. } => {
                *view_change_timer = true;
                view_change_collector.handle_timeout(chain_info)
            },
            _ => {
                return Ok(());
            },
        };
        self.outbox.push(NodeAction::PublishViewChange(msg));
        if self.micro_view_changes < u64::MAX {
            self.micro_view_changes = self.micro_view_changes + 1;
        }
        let ghost ob = self.outbox@;
        let fed = self.handle_view_change_message(msg);
        proof {
            assert(self.outbox@.subrange(0, ob.len() as int) =~= ob);
            assert(self.outbox@[old(self).outbox@.len() as int] == ob[old(self).outbox@.len() as int]);
        }
        match fed {
            Ok(()) => {},
            Err(e) => {
                return Err(e);
            },
        }
        let ghost ob2 = self.outbox@;
        self.request_history();
        proof {
            assert(self.outbox@[old(self).outbox@.len() as int] == ob2[old(self).outbox@.len() as int]);
        }
        Ok(())
    }

    /// The macro-cadence round timer fired.  If the round already committed
    /// (the leader never published the sealed block), fold the leader's
    /// proposal signature into the collected quorum and commit locally;
    /// otherwise enter the next round and reselect the leader.  Either way,
    /// fetch history to recover from a partition.
    pub fn handle_macro_block_viewchange_timer(&mut self, now: u64) -> (r: Result<(), NodeError>)
        requires
            old(self).wf(),
            old(self).headroom(),
            now <= i64::MAX,
        ensures
            final(self).wf(),
            final(self).cfg == old(self).cfg,
            !(old(self).validation is MacroBlockValidator) ==> r is Ok && *final(self) == *old(self),
            // a committed round seals the agreed block: it goes to the
            // network under its pinned digest and the autocommit is counted
            old(self).validation matches Validation::MacroBlockValidator { consensus: c0, .. }
                ==> (c0.state is Commit ==> final(self).autocommits == (if old(self).autocommits
                < u64::MAX {
                (old(self).autocommits + 1) as u64
            } else {
                old(self).autocommits
            }) && final(self).outbox@.len() > old(self).outbox@.len() && (final(self).outbox@[old(self).outbox@.len() as int] matches NodeAction::PublishBlock(b) && b matches
                Block::MacroBlock(sealed) && spec_hash_macro_block(sealed) == c0.request_hash)),
            // an uncommitted round never moves the chain or the pool
            old(self).validation matches Validation::MacroBlockValidator { consensus: c0, .. }
                ==> (!(c0.state is Commit) ==> final(self).chain == old(self).chain
                && final(self).mempool == old(self).mempool),
            // an uncommitted round moves on: a fresh round with a new
            // leader, the change counted, and history requested; the round
            // timer is rearmed unless the new leader already proposed
            old(self).validation matches Validation::MacroBlockValidator { consensus: c0, .. }
                ==> (!(c0.state is Commit) && c0.round < u32::MAX - 1 ==> (final(self).validation
                matches Validation::MacroBlockValidator { consensus: c1, .. } && c1.round
                == c0.round + 1) && final(self).macro_view_changes == (if old(self).macro_view_changes < u64::MAX {
                (old(self).macro_view_changes + 1) as u64
            } else {
                old(self).macro_view_changes
            }) && r is Ok && final(self).outbox@.last() matches NodeAction::RequestHistory(_)),
            // ... and the round timer is rearmed unless the new leader
            // already proposed
            old(self).validation matches Validation::MacroBlockValidator { consensus: c0, .. }
                ==> (!(c0.state is Commit) && c0.round < u32::MAX - 1 ==> (final(self).validation
                matches Validation::MacroBlockValidator { consensus: c1, view_change_timer: t }
                && (t || !(c1.state is Propose)))),
    {
        let committed = match &self.validation {
            Validation::MacroBlockValidator { consensus, .. } => consensus.should_commit(),
            _ => {
                return Ok(());
            },
        };
        if committed {
            let (block, multisig, multisigmap) = match &self.validation {
                Validation::MacroBlockValidator { consensus, .. } => consensus.sign_and_commit(),
                _ => {
                    proof {
                        assert(false);
                    }
                    return Ok(());
                },
            };
            // fold the silent leader's proposal signature into the quorum
            let mut multisig = multisig;
            let mut multisigmap = multisigmap;
            let cap_ours = crate::multisignature::bv_capacity_of(&multisigmap);
            let cap_theirs = crate::multisignature::bv_capacity_of(&block.body.multisigmap);
            if cap_ours == cap_theirs {
                merge_multi_signature(
                    &mut multisig,
                    &mut multisigmap,
                    &block.body.multisig,
                    &block.body.multisigmap,
                );
            }
            if self.autocommits < u64::MAX {
                self.autocommits = self.autocommits + 1;
            }
            return self.commit_proposed_block(block, multisig, multisigmap, now);
        }
        // no commit yet: try the next round with a new leader
        let can_advance = match &self.validation {
            Validation::MacroBlockValidator { consensus, .. } => consensus.round() < u32::MAX - 1,
            _ => false,
        };
        if can_advance {
            match &mut self.validation {
                Validation::MacroBlockValidator { consensus, view_change_timer } => {
                    consensus.next_round();
                    *view_change_timer = false;
                },
                _ => {
                    proof {
                        assert(false);
                    }
                },
            }
            self.drain_consensus_outbox();
            if self.macro_view_changes < u64::MAX {
                self.macro_view_changes = self.macro_view_changes + 1;
            }
            self.on_macro_block_leader_changed(now);
        }
        self.request_history();
        Ok(())
    }

    /// The propose timer fired: pack the mempool into a new micro block,
    /// sign it as the leader, publish it and apply it locally.
    pub fn create_micro_block(&mut self, now: u64) -> (r: Result<(), NodeError>)
        requires
            old(self).wf(),
            old(self).headroom(),
            now <= i64::MAX,
        ensures
            final(self).wf(),
            final(self).cfg == old(self).cfg,
            // only the micro cadence's selected leader packs a block
            !(old(self).validation is MicroBlockValidator) || old(self).pkey != spec_select_leader(
                old(self).chain.spec_validators(),
                old(self).chain.spec_last_random(),
                old(self).chain.spec_view_change(),
            ) ==> r is Ok && *final(self) == *old(self),
            // the packed block extends the tip, pays the configured reward,
            // carries the pool's greedy packing, and goes to the network
            // before it is applied
            old(self).validation is MicroBlockValidator && old(self).pkey == spec_select_leader(
                old(self).chain.spec_validators(),
                old(self).chain.spec_last_random(),
                old(self).chain.spec_view_change(),
            ) ==> final(self).outbox@.len() > old(self).outbox@.len() && (final(self).outbox@[old(self).outbox@.len() as int] matches NodeAction::PublishBlock(b) && b matches
                Block::MicroBlock(mb) && mb.base.previous == old(self).chain.spec_last_block_hash()
                && mb.base.height == old(self).chain.spec_height() && mb.base.view_change == old(self).chain.spec_view_change() && mb.coinbase.block_reward == old(self).cfg.block_reward
                && mb.pkey == old(self).pkey && crate::block::txs_eq(
                mb.transactions@,
                crate::mempool::select_txs(
                    old(self).mempool.spec_pool(),
                    old(self).cfg.max_utxo_in_block as int,
                ),
            ) && mb.sig.val == sign_val(spec_hash_micro_block(mb).bits, old(self).skey.val)
                && (match (mb.view_change_proof, old(self).chain.spec_view_change_proof()) {
                (Some(p), Some(q)) => proof_eq(p, q),
                (None, None) => true,
                _ => false,
            })) && (r is Ok ==> final(self).chain.spec_height() == old(self).chain.spec_height()
                + 1),
    {
        let is_micro_validator = match &self.validation {
            Validation::MicroBlockValidator { .. } => true,
            _ => false,
        };
        if !is_micro_validator {
            return Ok(());
        }
        let leader = self.chain.leader();
        if leader.val != self.pkey.val {
            return Ok(());
        }
        match &mut self.validation {
            Validation::MicroBlockValidator { propose_timer, .. } => {
                *propose_timer = false;
            },
            _ => {
                proof {
                    assert(false);
                }
            },
        }
        let previous = self.chain.last_block_hash();
        let height = self.chain.height();
        let view_change = self.chain.view_change();
        let view_change_proof = self.chain.view_change_proof();
        let seed = mix(self.chain.last_random(), view_change as u64);
        let random = mix(seed, self.skey.val);
        let mut block = self.mempool.create_block(
            previous,
            VERSION,
            height,
            self.cfg.block_reward,
            random,
            view_change,
            view_change_proof,
            now,
            self.cfg.max_utxo_in_block,
        );
        block.sign(&self.skey, &self.pkey);
        let copy = clone_micro_block(&block);
        proof {
            assert(crate::block::txs_eq(
                copy.transactions@,
                crate::mempool::select_txs(
                    old(self).mempool.spec_pool(),
                    old(self).cfg.max_utxo_in_block as int,
                ),
            )) by {
                let sel = crate::mempool::select_txs(
                    old(self).mempool.spec_pool(),
                    old(self).cfg.max_utxo_in_block as int,
                );
                assert forall|k: int|
                    0 <= k < copy.transactions@.len() implies crate::tx::tx_eq(
                    #[trigger] copy.transactions@[k],
                    sel[k],
                ) by {
                    assert(crate::tx::tx_eq(copy.transactions@[k], block.transactions@[k]));
                    assert(crate::tx::tx_eq(block.transactions@[k], sel[k]));
                }
            }
        }
        self.outbox.push(NodeAction::PublishBlock(Block::MicroBlock(copy)));
        let ghost ob = self.outbox@;
        let result = self.apply_new_block(Block::MicroBlock(block), now);
        proof {
            assert(self.outbox@.subrange(0, ob.len() as int) =~= ob);
            assert(self.outbox@[old(self).outbox@.len() as int] == ob[old(self).outbox@.len() as int]);
        }
        result
    }

    /// Revert the latest micro block on request; a macro boundary is never
    /// crossed.
    pub fn handle_pop_block(&mut self, now: u64) -> (r: Result<(), NodeError>)
        requires
            old(self).wf(),
            old(self).headroom(),
        ensures
            final(self).wf(),
            final(self).cfg == old(self).cfg,
            // at the macro boundary nothing is reverted
            old(self).chain.spec_height() == old(self).chain.spec_last_macro_height() + 1 ==> r
                is Ok && *final(self) == *old(self),
            // otherwise the tip block is undone and its outputs announced
            old(self).chain.spec_height() > old(self).chain.spec_last_macro_height() + 1 ==> r
                is Ok && final(self).chain.spec_height() == old(self).chain.spec_height() - 1
                && final(self).outbox@[old(self).outbox@.len() as int]
                    is NotifyOutputsChanged && final(self).role_matches(),
            // reverting a block touches neither the pool, the orphans nor
            // the counters
            final(self).mempool == old(self).mempool,
            final(self).future_blocks == old(self).future_blocks,
            final(self).counters() == old(self).counters(),
            final(self).pkey == old(self).pkey,
            final(self).skey == old(self).skey,
    {
        if self.chain.blocks_in_epoch() > 1 {
            let (inputs, outputs) = match self.chain.pop_micro_block() {
                Ok(v) => v,
                Err(e) => {
                    return Err(e);
                },
            };
            self.outbox.push(
                NodeAction::NotifyOutputsChanged(
                    OutputsChanged { epoch: self.chain.epoch(), inputs, outputs },
                ),
            );
            let ghost ob = self.outbox@;
            self.update_validation_status(now);
            proof {
                assert(self.outbox@.subrange(0, ob.len() as int) =~= ob);
                assert(self.outbox@[old(self).outbox@.len() as int] == ob[old(self).outbox@.len() as int]);
            }
        }
        Ok(())
    }

    /// The saturated sum of a clock and a delay.
    pub open spec fn sat64(n: int) -> int {
        if n <= u64::MAX {
            n
        } else {
            u64::MAX as int
        }
    }

    /// The deadline of the armed timer, if any: at view zero a leader
    /// gathers transactions for `tx_wait_timeout` and at a later view it
    /// packs immediately; a waiting validator fires after
    /// `micro_block_timeout`; a macro-round validator waits
    /// `(1 + round) * macro_block_timeout`.
    pub fn next_timer_deadline(&self, now: u64) -> (r: Option<u64>)
        requires
            self.wf(),
        ensures
            match self.validation {
                Validation::MicroBlockValidator { propose_timer, view_change_timer, .. } => if propose_timer {
                    r == Some(
                        (Self::sat64(
                            now + if self.chain.spec_view_change() == 0 {
                                self.cfg.tx_wait_timeout as int
                            } else {
                                0int
                            },
                        )) as u64,
                    )
                } else if view_change_timer {
                    r == Some((Self::sat64(now + self.cfg.micro_block_timeout)) as u64)
                } else {
                    r is None
                },
                Validation::MacroBlockValidator { consensus, view_change_timer } => if view_change_timer {
                    r == Some(
                        (Self::sat64(
                            now + (1 + consensus.round) * self.cfg.macro_block_timeout,
                        )) as u64,
                    )
                } else {
                    r is None
                },
                _ => r is None,
            },
    {
        match &self.validation {
            Validation::MicroBlockValidator { propose_timer, view_change_timer, .. } => {
                if *propose_timer {
                    let wait: u64 = if self.chain.view_change() == 0 {
                        self.cfg.tx_wait_timeout
                    } else {
                        0
                    };
                    let wide: u128 = (now as u128) + (wait as u128);
                    let capped: u64 = if wide > u64::MAX as u128 {
                        u64::MAX
                    } else {
                        wide as u64
                    };
                    Some(capped)
                } else if *view_change_timer {
                    let wide: u128 = (now as u128) + (self.cfg.micro_block_timeout as u128);
                    let capped: u64 = if wide > u64::MAX as u128 {
                        u64::MAX
                    } else {
                        wide as u64
                    };
                    Some(capped)
                } else {
                    None
                }
            },
            Validation::MacroBlockValidator { consensus, view_change_timer } => {
                if *view_change_timer {
                    let rounds: u128 = 1 + (consensus.round() as u128);
                    proof {
                        vstd::arithmetic::mul::lemma_mul_upper_bound(
                            (1 + consensus.round) as int,
                            0x1_0000_0000_0000_0000,
                            self.cfg.macro_block_timeout as int,
                            u64::MAX as int,
                        );
                        vstd::arithmetic::mul::lemma_mul_nonnegative(
                            (1 + consensus.round) as int,
                            self.cfg.macro_block_timeout as int,
                        );
                    }
                    let wide: u128 = (now as u128) + rounds * (self.cfg.macro_block_timeout
                        as u128);
                    let capped: u64 = if wide > u64::MAX as u128 {
                        u64::MAX
                    } else {
                        wide as u64
                    };
                    Some(capped)
                } else {
                    None
                }
            },
            _ => None,
        }
    }

    /// Answer a public-API request from the chain's snapshots.
    pub fn handle_request(&self, request: NodeRequest) -> (r: NodeResponse)
        requires
            self.wf(),
        ensures
            request is ElectionInfo ==> r is ElectionInfo,
            request is EscrowInfo ==> r is EscrowInfo,
    {
        match request {
            NodeRequest::ElectionInfo => NodeResponse::ElectionInfo(self.chain.election_info()),
            NodeRequest::EscrowInfo => NodeResponse::EscrowInfo(self.chain.escrow_info()),
        }
    }

    /// Refine the role state once the network is up, and fetch any history
    /// this node missed while offline.
    pub fn init(&mut self, now: u64) -> (r: Result<(), NodeError>)
        requires
            old(self).wf(),
            old(self).headroom(),
        ensures
            final(self).wf(),
            final(self).role_matches(),
            final(self).chain == old(self).chain,
            final(self).outbox@.len() >= 1,
            final(self).outbox@.last() matches NodeAction::RequestHistory(_),
    {
        self.update_validation_status(now);
        self.request_history();
        Ok(())
    }

    /// Dispatch one decoded event to its handler.
    pub fn handle(&mut self, msg: NodeMessage, now: u64) -> (r: Result<(), NodeError>)
        requires
            old(self).wf(),
            old(self).headroom(),
            now <= i64::MAX,
        ensures
            final(self).wf(),
            final(self).cfg == old(self).cfg,
            // the transaction path follows its acceptance table
            msg matches NodeMessage::Transaction(tx) ==> r == old(self).tx_decision(tx),
            // a finalized-epoch block is ignored outright
            (msg matches NodeMessage::SealedBlock(b) && b.spec_base().height <= old(self).chain.spec_last_macro_height()) ==> r is Ok && *final(self) == *old(self),
    {
        match msg {
            NodeMessage::Transaction(tx) => self.handle_transaction(tx),
            NodeMessage::Consensus(m) => self.handle_consensus_message(m, now),
            NodeMessage::SealedBlock(b) => self.handle_sealed_block(b, now),
            NodeMessage::ViewChangeMessage(m) => self.handle_view_change_message(m),
            NodeMessage::ViewChangeProofMessage(from, sealed) => self.handle_view_change_direct(
                from,
                sealed,
                now,
            ),
            NodeMessage::PopBlock => self.handle_pop_block(now),
        }
    }
}

} // verus!
