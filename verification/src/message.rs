//! The signed consensus message envelope.
//!
//! Every consensus message carries (height, round, request digest, body,
//! sender key, sender signature); the signature covers the canonical digest
//! of the first four, with a per-variant tag mixed into the body digest.

use vstd::prelude::*;
use crate::block::{MacroBlock, clone_macro_block, macro_eq, spec_hash_macro_block,
    hash_macro_block, spec_mix_base};
use crate::crypto::{spec_mix, mix, sign_hash, check_hash, spec_check_hash, sign_val, Digest, Pk,
    Sig, Sk};
use crate::error::ConsensusError;

verus! {

/// Tag mixed into the digest of a proposal body; it stands for the
/// protocol's "Propose" discriminator string.
pub const PROPOSAL_TAG: u64 = 0x50;

/// Tag mixed into the digest of a prevote body ("Prevote").
pub const PREVOTE_TAG: u64 = 0x56;

/// Tag mixed into the digest of a precommit body ("Precommit").
pub const PRECOMMIT_TAG: u64 = 0x43;

/// The payload of a consensus message.
#[derive(Debug)]
pub enum ConsensusMessageBody {
    /// A proposed macro block (the pre-prepare).
    Proposal { request: MacroBlock },
    /// A prevote for the round's proposal (the prepare).
    Prevote,
    /// A precommit carrying the sender's signature over the request digest
    /// (the commit).
    Precommit { request_hash_sig: Sig },
}

/// Two message bodies hold the same content.
pub open spec fn body_eq(a: ConsensusMessageBody, b: ConsensusMessageBody) -> bool {
    match (a, b) {
        (
            ConsensusMessageBody::Proposal { request: x },
            ConsensusMessageBody::Proposal { request: y },
        ) => macro_eq(x, y),
        (ConsensusMessageBody::Prevote, ConsensusMessageBody::Prevote) => true,
        (
            ConsensusMessageBody::Precommit { request_hash_sig: x },
            ConsensusMessageBody::Precommit { request_hash_sig: y },
        ) => x == y,
        _ => false,
    }
}

/// Canonical digest of a message body: a variant tag, then the content.
#[verifier::opaque]
pub open spec fn spec_hash_body(b: ConsensusMessageBody) -> u64 {
    match b {
        ConsensusMessageBody::Proposal { request } => spec_mix(
            PROPOSAL_TAG,
            spec_hash_macro_block(request).bits,
        ),
        ConsensusMessageBody::Prevote => spec_mix(PREVOTE_TAG, 0),
        ConsensusMessageBody::Precommit { request_hash_sig } => spec_mix(
            PRECOMMIT_TAG,
            request_hash_sig.val,
        ),
    }
}

/// Compute the canonical digest of a message body.
pub fn hash_body(b: &ConsensusMessageBody) -> (r: u64)
    ensures
        r == spec_hash_body(*b),
{
    proof {
        reveal(spec_hash_body);
    }
    match b {
        ConsensusMessageBody::Proposal { request } => {
            let h = hash_macro_block(request);
            mix(PROPOSAL_TAG, h.bits)
        },
        ConsensusMessageBody::Prevote => mix(PREVOTE_TAG, 0),
        ConsensusMessageBody::Precommit { request_hash_sig } => mix(
            PRECOMMIT_TAG,
            request_hash_sig.val,
        ),
    }
}

/// A signed consensus message.
#[derive(Debug)]
pub struct ConsensusMessage {
    /// Height this round decides for.
    pub height: u64,
    /// Round within the height.
    pub round: u32,
    /// Digest of the proposed request.
    pub request_hash: Digest,
    /// The payload.
    pub body: ConsensusMessageBody,
    /// The sender.
    pub pkey: Pk,
    /// The sender's signature over the message digest.
    pub sig: Sig,
}

/// Two messages hold the same content.
pub open spec fn message_eq(a: ConsensusMessage, b: ConsensusMessage) -> bool {
    &&& a.height == b.height
    &&& a.round == b.round
    &&& a.request_hash == b.request_hash
    &&& body_eq(a.body, b.body)
    &&& a.pkey == b.pkey
    &&& a.sig == b.sig
}

/// Canonical digest of a message: height, round, request digest, body.
/// The sender's signature stays outside of what it signs.
#[verifier::opaque]
pub open spec fn spec_hash_message(m: ConsensusMessage) -> Digest {
    Digest {
        bits: spec_mix(
            spec_mix(spec_mix(spec_mix(0, m.height), m.round as u64), m.request_hash.bits),
            spec_hash_body(m.body),
        ),
    }
}

/// Compute the canonical digest of a message.
pub fn hash_message(m: &ConsensusMessage) -> (r: Digest)
    ensures
        r == spec_hash_message(*m),
{
    proof {
        reveal(spec_hash_message);
    }
    let st = mix(0, m.height);
    let st = mix(st, m.round as u64);
    let st = mix(st, m.request_hash.bits);
    let b = hash_body(&m.body);
    Digest { bits: mix(st, b) }
}

/// Copy a message.
pub fn clone_message(m: &ConsensusMessage) -> (r: ConsensusMessage)
    ensures
        message_eq(r, *m),
{
    let body = match &m.body {
        ConsensusMessageBody::Proposal { request } => ConsensusMessageBody::Proposal {
            request: clone_macro_block(request),
        },
        ConsensusMessageBody::Prevote => ConsensusMessageBody::Prevote,
        ConsensusMessageBody::Precommit { request_hash_sig } => ConsensusMessageBody::Precommit {
            request_hash_sig: *request_hash_sig,
        },
    };
    ConsensusMessage {
        height: m.height,
        round: m.round,
        request_hash: m.request_hash,
        body,
        pkey: m.pkey,
        sig: m.sig,
    }
}

impl ConsensusMessage {
    /// The name of the message's variant.
    pub fn name(&self) -> (r: &'static str)
        ensures
            self.body is Proposal ==> r@ == "Proposal"@,
            self.body is Prevote ==> r@ == "Prevote"@,
            self.body is Precommit ==> r@ == "Precommit"@,
    {
        match &self.body {
            ConsensusMessageBody::Proposal { .. } => "Proposal",
            ConsensusMessageBody::Prevote => "Prevote",
            ConsensusMessageBody::Precommit { .. } => "Precommit",
        }
    }

    /// Create and sign a consensus message.
    pub fn new(
        height: u64,
        round: u32,
        request_hash: Digest,
        skey: &Sk,
        pkey: &Pk,
        body: ConsensusMessageBody,
    ) -> (r: ConsensusMessage)
        ensures
            r.height == height,
            r.round == round,
            r.request_hash == request_hash,
            r.body == body,
            r.pkey == *pkey,
            r.sig.val == sign_val(spec_hash_message(r).bits, skey.val),
    {
        let mut m = ConsensusMessage {
            height,
            round,
            request_hash,
            body,
            pkey: *pkey,
            sig: Sig { val: 0 },
        };
        let h = hash_message(&m);
        proof {
            reveal(spec_hash_message);
            reveal(spec_hash_body);
        }
        m.sig = sign_hash(&h, skey);
        m
    }

    /// Validate the sender's signature over the message digest; the caller
    /// separately validates a proposal's request against the chain.
    pub fn validate(&self) -> (r: Result<(), ConsensusError>)
        ensures
            r is Ok <==> spec_check_hash(spec_hash_message(*self), self.sig, self.pkey),
            r is Err ==> r == Err::<(), ConsensusError>(ConsensusError::InvalidMessageSignature),
    {
        let h = hash_message(self);
        if check_hash(&h, &self.sig, &self.pkey) {
            Ok(())
        } else {
            Err(ConsensusError::InvalidMessageSignature)
        }
    }
}

} // verus!
