//! Error taxonomy of the node, the consensus layer and the wallet.

use vstd::prelude::*;
use crate::crypto::{Digest, Pk};

verus! {

/// Failures of the signed consensus envelope.
#[derive(Clone, Copy, Debug, PartialEq, Eq, Structural)]
pub enum ConsensusError {
    /// The sender's signature does not verify over the message hash.
    InvalidMessageSignature,
    /// A proposal's request failed the externally supplied predicate.
    InvalidPropose,
    /// A proposal came from a sender that is not the round's leader.
    ProposalFromNonLeader,
    /// The sender is not a member of the validator set.
    UnknownMessageSender,
    /// The message belongs to another height or epoch.
    OutOfScopeMessage,
    /// A precommit's inner signature over the request hash does not verify.
    InvalidRequestSignature,
    /// A vote arrived before any proposal was accepted.
    MissingProposal,
}

/// Failures when validating or applying a block.
#[derive(Clone, Copy, Debug, PartialEq, Eq, Structural)]
pub enum BlockError {
    /// The macro block's multi-signature failed verification.
    InvalidBlockSignature(u64, Digest),
    /// The micro block's leader signature does not verify.
    InvalidLeaderSignature(u64, Digest),
    /// The micro block's signer is not in the validator set.
    LeaderIsNotValidator(u64, Digest),
    /// The block's producer is not the leader selected for its view.
    DifferentPublicKey(Pk, Pk),
    /// A micro block was expected at this height.
    ExpectedMicroBlock(u64, Digest),
    /// A macro block was expected at this height.
    ExpectedMacroBlock(u64, Digest),
    /// The block does not extend the local tip.
    InvalidPreviousHash(u64, Digest, Digest),
    /// The block's view is older than the chain's current view.
    InvalidViewChange(u64, u32, u32),
    /// The block's reward differs from the configured reward.
    InvalidBlockReward(u64, Digest, i64, i64),
    /// A competing block carried no view-change proof for its skip.
    NoProofWasFound(u64, Digest, u32, u32),
    /// A competing block carried a view-change proof that failed to verify.
    InvalidViewChangeProof(u64),
    /// A committed macro block differs from the locally agreed one.
    NetworkFork(Digest, Digest),
    /// A balance or reward computation left the machine range.
    AmountOutOfRange,
}

/// Failures when accepting a transaction into the mempool.
#[derive(Clone, Copy, Debug, PartialEq, Eq, Structural)]
pub enum TransactionError {
    /// The transaction touches more UTXOs than allowed.
    TooLarge(Digest, usize, usize),
    /// The mempool holds as many UTXOs as allowed.
    MempoolIsFull(Digest),
    /// An input or output is duplicated or already claimed.
    ConflictingUtxo(Digest),
    /// An input does not exist in the UTXO set.
    MissingUtxo(Digest),
    /// The fee is below the configured minimum.
    FeeTooLow(Digest, i64, i64),
    /// Inputs, outputs and fee do not balance.
    Unbalanced(Digest),
}

/// Any failure the node driver reports to its caller.
#[derive(Clone, Copy, Debug, PartialEq, Eq, Structural)]
pub enum NodeError {
    Consensus(ConsensusError),
    Block(BlockError),
    Transaction(TransactionError),
}

/// Outcome of fork resolution: `Canceled` keeps the local chain.
#[derive(Clone, Copy, Debug, PartialEq, Eq, Structural)]
pub enum ForkError {
    /// The local chain wins; nothing was rolled back.
    Canceled,
    /// The competing block is invalid.
    Failed(NodeError),
}

/// Failures of the wallet's transaction builders.
#[derive(Clone, Copy, Debug, PartialEq, Eq, Structural)]
pub enum WalletError {
    /// The unspent outputs cannot cover the requested amount and fee.
    NotEnoughMoney,
    /// The requested amount must be positive.
    ZeroOrNegativeAmount,
    /// The stake left behind would be below the required minimum.
    InsufficientStake(i64, i64),
    /// An amount computation left the machine range.
    AmountOutOfRange,
    /// The key does not open this output's payload.
    PayloadDecryptionFailed,
}

} // verus!
