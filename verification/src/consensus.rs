//! The pBFT round engine that agrees on one macro block per epoch.
//!
//! A round moves through Propose, Prevote, Precommit and Commit.  The
//! engine performs no I/O: outgoing messages accumulate in its outbox and
//! the driver drains them.  Votes are weighted by stake; the engine
//! advances once the voters hold at least two thirds of the total.  Its
//! invariant keeps the round's proposal pinned to its digest and every
//! collected precommit a genuine signature over that digest, which is what
//! makes the sealed multi-signature of a committed round verify.

use vstd::prelude::*;
use bitvector::BitVector;
use crate::block::{MacroBlock, clone_macro_block, macro_eq, spec_hash_macro_block,
    hash_macro_block};
use crate::config::{CONSENSUS_BUFFER_MAX, WITNESSES_MAX};
use crate::crypto::{sign_hash, check_hash, Digest, Pk, Sig, Sk};
use crate::election::{wf_validators, total_stake, is_validator_in, is_validator, total_slots,
    spec_select_leader, select_leader};
use crate::error::ConsensusError;
use crate::message::{ConsensusMessage, ConsensusMessageBody, clone_message};
use crate::multisignature::{create_multi_signature, bits_from, keys_bits, agg_sig_upto,
    stake_of_bits, uniq_keys, all_signed, signed_stake, keyed_stake, lookup_sig, bv_bits,
    bv_capacity};

verus! {

/// The phase of a consensus round.
#[derive(Clone, Copy, Debug, PartialEq, Eq, Structural)]
pub enum ConsensusState {
    /// Waiting for the round leader's proposal.
    Propose,
    /// Proposal accepted; collecting prevotes.
    Prevote,
    /// Prevote supermajority seen; collecting precommits.
    Precommit,
    /// Precommit supermajority seen; the block can be sealed.
    Commit,
}

/// The single-decree pBFT engine for one (height, epoch).
pub struct BlockConsensus {
    /// The phase of the current round.
    pub state: ConsensusState,
    /// The height being decided.
    pub height: u64,
    /// The epoch the decided block will close.
    pub epoch: u64,
    /// The round counter; a timeout moves to the next round.
    pub round: u32,
    /// This validator's keys.
    pub skey: Sk,
    pub pkey: Pk,
    /// The validator set of the epoch.
    pub validators: Vec<(Pk, i64)>,
    /// The chain randomness that seeds leader selection.
    pub random: u64,
    /// The leader of the current round.
    pub leader: Pk,
    /// The accepted proposal of this round, if any.
    pub request: Option<MacroBlock>,
    /// The digest of the accepted proposal.
    pub request_hash: Digest,
    /// Validators that prevoted this round.
    pub prevotes: Vec<Pk>,
    /// Validators that precommitted this round, with their signatures over
    /// the request digest.
    pub precommits: Vec<(Pk, Sig)>,
    /// Messages for future rounds, replayed by `next_round`; bounded, the
    /// oldest is dropped on overflow.
    pub future_messages: Vec<ConsensusMessage>,
    /// Outgoing messages for the driver to publish.
    pub outbox: Vec<ConsensusMessage>,
}

/// No key occurs twice.
pub open spec fn uniq_pks(keys: Seq<Pk>) -> bool {
    forall|i: int, j: int| 0 <= i < j < keys.len() ==> keys[i] != keys[j]
}

impl BlockConsensus {
    /// The prevoters hold at least two thirds of the stake.
    pub open spec fn prevote_supermajority(self) -> bool {
        3 * stake_of_bits(
            self.validators@,
            keys_bits(self.validators@, self.prevotes@),
            self.validators@.len() as int,
        ) >= 2 * total_stake(self.validators@)
    }

    /// The precommitters hold at least two thirds of the stake.
    pub open spec fn precommit_supermajority(self) -> bool {
        3 * stake_of_bits(
            self.validators@,
            bits_from(self.validators@, self.precommits@),
            self.validators@.len() as int,
        ) >= 2 * total_stake(self.validators@)
    }

    /// The engine's invariant except the commit completeness clause: votes
    /// come from distinct validators, the accepted proposal matches its
    /// digest, every precommit genuinely signs that digest, and each phase
    /// was entered on a supermajority.
    pub open spec fn wf_base(self) -> bool {
        &&& wf_validators(self.validators@)
        &&& self.validators@.len() > 0
        &&& self.validators@.len() <= WITNESSES_MAX
        &&& total_stake(self.validators@) <= i64::MAX
        &&& self.pkey == self.skey.spec_pk()
        &&& self.leader == spec_select_leader(self.validators@, self.random, self.round)
        &&& uniq_pks(self.prevotes@)
        &&& forall|k: int|
            0 <= k < self.prevotes@.len() ==> is_validator_in(
                self.validators@,
                #[trigger] self.prevotes@[k],
            )
        &&& uniq_keys(self.precommits@)
        &&& forall|k: int|
            0 <= k < self.precommits@.len() ==> is_validator_in(
                self.validators@,
                #[trigger] self.precommits@[k].0,
            )
        &&& match self.request {
            Some(b) => self.request_hash == spec_hash_macro_block(b) && b.header.base.height
                == self.height,
            None => true,
        }
        &&& all_signed(self.request_hash, self.precommits@)
        &&& self.request is None ==> self.precommits@.len() == 0
        &&& self.request is Some ==> !(self.state is Propose)
        &&& (self.state is Prevote || self.state is Precommit || self.state is Commit)
            ==> self.request is Some
        &&& (self.state is Precommit || self.state is Commit) ==> self.prevote_supermajority()
        &&& self.state is Commit ==> self.precommit_supermajority()
    }

    /// The engine's invariant.  Beyond `wf_base`, commitment is complete:
    /// the round is in Commit exactly when a proposal is at hand and both
    /// vote kinds reached their supermajorities.
    pub open spec fn wf(self) -> bool {
        &&& self.wf_base()
        &&& self.request is Some && self.prevote_supermajority()
            && self.precommit_supermajority() ==> self.state is Commit
    }

    /// Start a round-0 instance for a height and epoch.
    pub fn new(
        height: u64,
        epoch: u64,
        skey: Sk,
        pkey: Pk,
        random: u64,
        validators: Vec<(Pk, i64)>,
    ) -> (r: BlockConsensus)
        requires
            wf_validators(validators@),
            validators@.len() > 0,
            validators@.len() <= WITNESSES_MAX,
            total_stake(validators@) <= i64::MAX,
            pkey == skey.spec_pk(),
        ensures
            r.wf(),
            r.state is Propose,
            r.height == height,
            r.epoch == epoch,
            r.round == 0,
            r.pkey == pkey,
            r.skey == skey,
            r.validators@ == validators@,
            r.random == random,
            r.outbox@.len() == 0,
            r.request is None,
    {
        let leader = select_leader(&validators, random, 0);
        proof {
            crate::election::lemma_total_stake_bounds(validators@, 0);
        }
        BlockConsensus {
            state: ConsensusState::Propose,
            height,
            epoch,
            round: 0,
            skey,
            pkey,
            validators,
            random,
            leader,
            request: None,
            request_hash: Digest { bits: 0 },
            prevotes: Vec::new(),
            precommits: Vec::new(),
            future_messages: Vec::new(),
            outbox: Vec::new(),
        }
    }

    /// Whether this validator leads the current round.
    pub fn is_leader(&self) -> (r: bool)
        ensures
            r == (self.pkey == self.leader),
    {
        self.pkey.val == self.leader.val
    }

    /// The current round's leader.
    pub fn leader(&self) -> (r: Pk)
        ensures
            r == self.leader,
    {
        self.leader
    }

    /// The current round.
    pub fn round(&self) -> (r: u32)
        ensures
            r == self.round,
    {
        self.round
    }

    /// Whether a precommit supermajority has been reached and the block can
    /// be sealed.
    pub fn should_commit(&self) -> (r: bool)
        ensures
            r == (self.state is Commit),
    {
        match self.state {
            ConsensusState::Commit => true,
            _ => false,
        }
    }

    /// Stake of the validators that prevoted so far.
    fn prevote_stake(&self) -> (r: i64)
        requires
            self.wf_base(),
        ensures
            r == stake_of_bits(
                self.validators@,
                keys_bits(self.validators@, self.prevotes@),
                self.validators@.len() as int,
            ),
    {
        keyed_stake(&self.validators, &self.prevotes)
    }

    /// After a vote arrives: enter Precommit once a prevote supermajority
    /// and a proposal are at hand (signing the request digest), and Commit
    /// once a precommit supermajority is at hand.
    fn try_advance(&mut self)
        requires
            old(self).wf_base(),
        ensures
            final(self).wf(),
            final(self).height == old(self).height,
            final(self).epoch == old(self).epoch,
            final(self).round == old(self).round,
            final(self).pkey == old(self).pkey,
            final(self).skey == old(self).skey,
            final(self).validators@ == old(self).validators@,
            final(self).random == old(self).random,
            final(self).leader == old(self).leader,
            final(self).request == old(self).request,
            final(self).request_hash == old(self).request_hash,
            final(self).prevotes@ == old(self).prevotes@,
            final(self).future_messages@ == old(self).future_messages@,
            old(self).state is Commit ==> *final(self) == *old(self),
            final(self).precommits@.len() >= old(self).precommits@.len(),
            forall|k: int|
                0 <= k < old(self).precommits@.len() ==> #[trigger] final(self).precommits@[k]
                    == old(self).precommits@[k],
            final(self).outbox@.len() >= old(self).outbox@.len(),
            (final(self).state is Propose) == (old(self).state is Propose),
            old(self).state is Commit || old(self).state is Precommit
                ==> !(final(self).state is Prevote),
    {
        let is_prevote_phase = match self.state {
            ConsensusState::Prevote => true,
            _ => false,
        };
        if is_prevote_phase {
            let has_request = match &self.request {
                Some(_) => true,
                None => false,
            };
            if has_request {
                let stake = self.prevote_stake();
                let total = total_slots(&self.validators);
                if 3 * (stake as i128) >= 2 * (total as i128) {
                    // self-precommit: sign the request digest
                    let sig = sign_hash(&self.request_hash, &self.skey);
                    match lookup_sig(&self.precommits, &self.pkey) {
                        Some(_) => {},
                        None => {
                            if is_validator(&self.validators, &self.pkey) {
                                self.precommits.push((self.pkey, sig));
                            }
                        },
                    }
                    let msg = ConsensusMessage::new(
                        self.height,
                        self.round,
                        self.request_hash,
                        &self.skey,
                        &self.pkey,
                        ConsensusMessageBody::Precommit { request_hash_sig: sig },
                    );
                    self.outbox.push(msg);
                    self.state = ConsensusState::Precommit;
                }
            }
        }
        let is_precommit_phase = match self.state {
            ConsensusState::Precommit => true,
            _ => false,
        };
        if is_precommit_phase {
            let stake = signed_stake(&self.validators, &self.precommits);
            let total = total_slots(&self.validators);
            if 3 * (stake as i128) >= 2 * (total as i128) {
                self.state = ConsensusState::Commit;
            }
        }
    }

    /// Propose a block as the round leader: store it, broadcast the
    /// proposal, move to Prevote and immediately self-prevote.
    pub fn propose(&mut self, request: MacroBlock)
        requires
            old(self).wf(),
            old(self).state is Propose,
            old(self).request is None,
            old(self).pkey == old(self).leader,
            request.header.base.height == old(self).height,
        ensures
            final(self).wf(),
            final(self).request matches Some(b) && macro_eq(b, request),
            final(self).request_hash == spec_hash_macro_block(request),
            !(final(self).state is Propose),
            final(self).height == old(self).height,
            final(self).epoch == old(self).epoch,
            final(self).round == old(self).round,
            final(self).pkey == old(self).pkey,
            final(self).skey == old(self).skey,
            final(self).random == old(self).random,
            final(self).validators@ == old(self).validators@,
            final(self).leader == old(self).leader,
            final(self).outbox@.len() >= old(self).outbox@.len() + 2,
    {
        let request_hash = hash_macro_block(&request);
        let stored = clone_macro_block(&request);
        proof {
            reveal(crate::block::spec_hash_macro_block);
        }
        self.request_hash = request_hash;
        self.request = Some(stored);
        let proposal = ConsensusMessage::new(
            self.height,
            self.round,
            request_hash,
            &self.skey,
            &self.pkey,
            ConsensusMessageBody::Proposal { request },
        );
        self.outbox.push(proposal);
        // self-prevote
        let prevote = ConsensusMessage::new(
            self.height,
            self.round,
            request_hash,
            &self.skey,
            &self.pkey,
            ConsensusMessageBody::Prevote,
        );
        self.outbox.push(prevote);
        match key_in_find(&self.prevotes, &self.pkey) {
            Some(_) => {},
            None => {
                if is_validator(&self.validators, &self.pkey) {
                    self.prevotes.push(self.pkey);
                }
            },
        }
        self.state = ConsensusState::Prevote;
        self.try_advance();
    }

    /// Take in a consensus message from a validated sender.
    ///
    /// A message for another height or epoch is out of scope; an older
    /// round is discarded; a future round is buffered for `next_round` (the
    /// oldest buffered message is dropped when the buffer is full).  In the
    /// current round: a proposal must come from the round leader, match its
    /// own digest and the advertised request digest, and only the first one
    /// is kept; a repeated vote is a no-op; a precommit must genuinely sign
    /// the request digest.
    pub fn feed_message(&mut self, msg: ConsensusMessage) -> (r: Result<(), ConsensusError>)
        requires
            old(self).wf(),
        ensures
            final(self).wf(),
            final(self).height == old(self).height,
            final(self).epoch == old(self).epoch,
            final(self).round == old(self).round,
            final(self).pkey == old(self).pkey,
            final(self).skey == old(self).skey,
            final(self).validators@ == old(self).validators@,
            final(self).random == old(self).random,
            final(self).leader == old(self).leader,
            msg.height != old(self).height ==> r == Err::<(), ConsensusError>(
                ConsensusError::OutOfScopeMessage,
            ) && *final(self) == *old(self),
            msg.height == old(self).height && msg.round < old(self).round ==> r is Ok
                && *final(self) == *old(self),
            // the accepted proposal never changes within a round
            match (old(self).request, final(self).request) {
                (Some(a), Some(b)) => a == b && final(self).request_hash
                    == old(self).request_hash,
                (Some(_), None) => false,
                _ => true,
            },
            // a valid current-round prevote is tallied
            msg.height == old(self).height && msg.round == old(self).round && is_validator_in(
                old(self).validators@,
                msg.pkey,
            ) && msg.body is Prevote ==> r is Ok && final(self).prevotes@.contains(msg.pkey),
            // a valid current-round precommit over the known request is
            // tallied
            (match msg.body {
                ConsensusMessageBody::Precommit { request_hash_sig } => msg.height == old(
                    self,
                ).height && msg.round == old(self).round && is_validator_in(
                    old(self).validators@,
                    msg.pkey,
                ) && old(self).request is Some && crate::crypto::spec_check_hash(
                    old(self).request_hash,
                    request_hash_sig,
                    msg.pkey,
                ),
                _ => false,
            }) ==> r is Ok && crate::multisignature::has_key(final(self).precommits@, msg.pkey),
            // the first valid proposal of the round is accepted
            (match msg.body {
                ConsensusMessageBody::Proposal { request } => msg.height == old(self).height
                    && msg.round == old(self).round && msg.pkey == old(self).leader && old(
                    self,
                ).request is None && spec_hash_macro_block(request) == msg.request_hash
                    && request.header.base.height == old(self).height,
                _ => false,
            }) ==> r is Ok && final(self).request is Some && final(self).request_hash
                == msg.request_hash && !(final(self).state is Propose),
    {
        if msg.height != self.height {
            return Err(ConsensusError::OutOfScopeMessage);
        }
        if msg.round < self.round {
            // an older round cannot matter any more
            return Ok(());
        }
        if msg.round > self.round {
            // keep it for when the round catches up; drop the oldest on
            // overflow
            if self.future_messages.len() >= CONSENSUS_BUFFER_MAX {
                self.future_messages.remove(0);
            }
            self.future_messages.push(msg);
            return Ok(());
        }
        if !is_validator(&self.validators, &msg.pkey) {
            proof {
                crate::election::lemma_select_leader_is_validator(
                    self.validators@,
                    self.random,
                    self.round,
                );
            }
            return Err(ConsensusError::UnknownMessageSender);
        }
        match msg.body {
            ConsensusMessageBody::Proposal { request } => {
                if msg.pkey.val != self.leader.val {
                    return Err(ConsensusError::ProposalFromNonLeader);
                }
                let already = match &self.request {
                    Some(_) => true,
                    None => false,
                };
                if already {
                    // the first validated proposal of a round wins
                    return Ok(());
                }
                let h = hash_macro_block(&request);
                if h.bits != msg.request_hash.bits || request.header.base.height != self.height {
                    return Err(ConsensusError::InvalidPropose);
                }
                proof {
                    assert(h == msg.request_hash);
                }
                self.request_hash = msg.request_hash;
                self.request = Some(request);
                // answer with our own prevote
                let prevote = ConsensusMessage::new(
                    self.height,
                    self.round,
                    msg.request_hash,
                    &self.skey,
                    &self.pkey,
                    ConsensusMessageBody::Prevote,
                );
                self.outbox.push(prevote);
                match key_in_find(&self.prevotes, &self.pkey) {
                    Some(_) => {},
                    None => {
                        if is_validator(&self.validators, &self.pkey) {
                            self.prevotes.push(self.pkey);
                        }
                    },
                }
                if self.state.is_propose() {
                    self.state = ConsensusState::Prevote;
                }
                self.try_advance();
                Ok(())
            },
            ConsensusMessageBody::Prevote => {
                match key_in_find(&self.prevotes, &msg.pkey) {
                    Some(i) => {
                        proof {
                            assert(self.prevotes@[i as int] == msg.pkey);
                            assert(self.prevotes@.contains(msg.pkey));
                        }
                        return Ok(());
                    },
                    None => {},
                }
                let ghost prev_old = self.prevotes@;
                self.prevotes.push(msg.pkey);
                proof {
                    assert(self.prevotes@[self.prevotes@.len() - 1] == msg.pkey);
                    assert(self.prevotes@.contains(msg.pkey));
                    let v = self.validators@;
                    assert forall|b: int|
                        keys_bits(v, prev_old).contains(b) implies keys_bits(
                        v,
                        self.prevotes@,
                    ).contains(b) by {
                        let x = v[b].0;
                        let i = choose|i: int| 0 <= i < prev_old.len() && prev_old[i] == x;
                        assert(self.prevotes@[i] == x);
                    }
                    crate::multisignature::lemma_stake_of_bits_monotone(
                        v,
                        keys_bits(v, prev_old),
                        keys_bits(v, self.prevotes@),
                        v.len() as int,
                    );
                }
                self.try_advance();
                Ok(())
            },
            ConsensusMessageBody::Precommit { request_hash_sig } => {
                let has_request = match &self.request {
                    Some(_) => true,
                    None => false,
                };
                if !has_request {
                    return Err(ConsensusError::MissingProposal);
                }
                if !check_hash(&self.request_hash, &request_hash_sig, &msg.pkey) {
                    return Err(ConsensusError::InvalidRequestSignature);
                }
                match lookup_sig(&self.precommits, &msg.pkey) {
                    Some(_) => {
                        return Ok(());
                    },
                    None => {},
                }
                let ghost pc_old = self.precommits@;
                self.precommits.push((msg.pkey, request_hash_sig));
                let ghost pc_pushed = self.precommits@;
                proof {
                    let v = self.validators@;
                    assert forall|b: int|
                        bits_from(v, pc_old).contains(b) implies bits_from(
                        v,
                        self.precommits@,
                    ).contains(b) by {
                        let x = v[b].0;
                        let i = choose|i: int| 0 <= i < pc_old.len() && pc_old[i].0 == x;
                        assert(self.precommits@[i].0 == x);
                    }
                    crate::multisignature::lemma_stake_of_bits_monotone(
                        v,
                        bits_from(v, pc_old),
                        bits_from(v, self.precommits@),
                        v.len() as int,
                    );
                }
                self.try_advance();
                proof {
                    assert(self.precommits@[pc_old.len() as int] == pc_pushed[pc_old.len() as int]);
                    assert(self.precommits@[pc_old.len() as int].0 == msg.pkey);
                    assert(crate::multisignature::has_key(self.precommits@, msg.pkey));
                }
                Ok(())
            },
        }
    }

    /// Seal the committed block: aggregate the collected precommits into a
    /// multi-signature over the request digest.
    pub fn sign_and_commit(&self) -> (r: (MacroBlock, Sig, BitVector))
        requires
            self.wf(),
            self.state is Commit,
        ensures
            self.request matches Some(b) && macro_eq(r.0, b),
            r.1.val == agg_sig_upto(
                self.validators@,
                self.precommits@,
                self.validators@.len() as int,
            ),
            bv_bits(r.2) == bits_from(self.validators@, self.precommits@),
            bv_capacity(r.2) == WITNESSES_MAX,
    {
        let block = match &self.request {
            Some(b) => clone_macro_block(b),
            None => {
                proof {
                    assert(false);
                }
                MacroBlock::empty(
                    crate::block::BaseBlockHeader {
                        version: 0,
                        previous: Digest { bits: 0 },
                        height: 0,
                        view_change: 0,
                        timestamp: 0,
                        random: 0,
                    },
                    self.pkey,
                )
            },
        };
        let (multisig, multisigmap) = create_multi_signature(&self.validators, &self.precommits);
        (block, multisig, multisigmap)
    }

    /// Enter the next round: reset the tallies, reselect the leader, and
    /// replay any buffered messages that now belong to the current round.
    pub fn next_round(&mut self)
        requires
            old(self).wf(),
            old(self).round < u32::MAX,
            !(old(self).state is Commit),
        ensures
            final(self).wf(),
            final(self).round == old(self).round + 1,
            final(self).height == old(self).height,
            final(self).epoch == old(self).epoch,
            final(self).pkey == old(self).pkey,
            final(self).skey == old(self).skey,
            final(self).validators@ == old(self).validators@,
            final(self).random == old(self).random,
            final(self).leader == spec_select_leader(
                old(self).validators@,
                old(self).random,
                (old(self).round + 1) as u32,
            ),
            // with nothing buffered the new round starts clean
            old(self).future_messages@.len() == 0 ==> final(self).state is Propose
                && final(self).request is None
                && final(self).prevotes@.len() == 0
                && final(self).precommits@.len() == 0
                && final(self).future_messages@.len() == 0
                && final(self).outbox@ == old(self).outbox@,
    {
        self.round = self.round + 1;
        self.leader = select_leader(&self.validators, self.random, self.round);
        self.state = ConsensusState::Propose;
        self.request = None;
        self.request_hash = Digest { bits: 0 };
        self.prevotes = Vec::new();
        self.precommits = Vec::new();
        proof {
            assert(all_signed(self.request_hash, self.precommits@));
            crate::election::lemma_total_stake_bounds(self.validators@, 0);
        }
        // replay buffered messages that reached their round
        let mut buffered: Vec<ConsensusMessage> = Vec::new();
        let mut j: usize = 0;
        #[verifier::loop_isolation(false)]
        while j < self.future_messages.len()
            invariant
                0 <= j <= self.future_messages@.len(),
                buffered@.len() == j,
            decreases self.future_messages@.len() - j,
        {
            buffered.push(clone_message(&self.future_messages[j]));
            j += 1;
        }
        self.future_messages = Vec::new();
        let mut i: usize = 0;
        #[verifier::loop_isolation(false)]
        while i < buffered.len()
            invariant
                0 <= i <= buffered@.len(),
                self.wf(),
                old(self).future_messages@.len() == 0 ==> self.state is Propose
                    && self.request is None && self.prevotes@.len() == 0
                    && self.precommits@.len() == 0 && self.future_messages@.len() == 0
                    && self.outbox@ == old(self).outbox@,
                buffered@.len() == old(self).future_messages@.len(),
                self.round == old(self).round + 1,
                self.height == old(self).height,
                self.epoch == old(self).epoch,
                self.pkey == old(self).pkey,
                self.skey == old(self).skey,
                self.validators@ == old(self).validators@,
                self.random == old(self).random,
                self.leader == spec_select_leader(
                    old(self).validators@,
                    old(self).random,
                    (old(self).round + 1) as u32,
                ),
            decreases buffered@.len() - i,
        {
            let m = clone_message(&buffered[i]);
            let _ = self.feed_message(m);
            i += 1;
        }
    }
}

impl ConsensusState {
    /// Whether the round still waits for a proposal.
    pub fn is_propose(&self) -> (r: bool)
        ensures
            r == (*self is Propose),
    {
        match self {
            ConsensusState::Propose => true,
            _ => false,
        }
    }
}

/// Find a key's position in a list of keys.
#[verifier::loop_isolation(false)]
fn key_in_find(keys: &Vec<Pk>, pk: &Pk) -> (r: Option<usize>)
    ensures
        match r {
            Some(i) => 0 <= i < keys@.len() && keys@[i as int] == *pk,
            None => !keys@.contains(*pk),
        },
{
    let mut i: usize = 0;
    while i < keys.len()
        invariant
            0 <= i <= keys@.len(),
            forall|j: int| 0 <= j < i ==> keys@[j] != *pk,
        decreases keys@.len() - i,
    {
        if keys[i].val == pk.val {
            proof {
                assert(keys@[i as int] == *pk);
            }
            return Some(i);
        }
        i += 1;
    }
    None
}

/// The committed value of an instance is determined: once a round commits,
/// the block it seals is its accepted proposal, pinned by the request
/// digest, and it is backed by genuine precommit signatures of validators
/// holding at least two thirds of the stake.  Agreement across nodes
/// follows for executions in which supermajorities intersect in an honest
/// validator.
pub proof fn lemma_committed_round_is_determined(c: BlockConsensus)
    requires
        c.wf(),
        c.state is Commit,
    ensures
        c.request matches Some(b) && c.request_hash == spec_hash_macro_block(b),
        all_signed(c.request_hash, c.precommits@),
        3 * stake_of_bits(
            c.validators@,
            bits_from(c.validators@, c.precommits@),
            c.validators@.len() as int,
        ) >= 2 * total_stake(c.validators@),
{
}

} // verus!
