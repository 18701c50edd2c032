//! Chain configuration and protocol constants.

use vstd::prelude::*;

verus! {

/// Current protocol version carried in block headers.
pub const VERSION: u64 = 1;

/// Maximum number of validator slots a bitmap can address.
pub const WITNESSES_MAX: usize = 128;

/// Fixed fee for a payment transaction.
pub const PAYMENT_FEE: i64 = 1;

/// Fixed fee for an escrow (stake) transaction.
pub const ESCROW_FEE: i64 = 2;

/// Size of one billed data unit, in bytes.
pub const DATA_UNIT: usize = 1024;

/// Fee for one data unit kept alive for one period.
pub const DATA_UNIT_FEE: i64 = 1;

/// Upper bound on buffered future-round consensus messages.
pub const CONSENSUS_BUFFER_MAX: usize = 64;

/// Validation thresholds and cadence settings of the node.
#[derive(Clone, Copy, Debug, PartialEq, Eq, Structural)]
pub struct ChainConfig {
    /// Micro blocks per epoch before a macro block seals it.
    pub blocks_in_epoch: u64,
    /// Reward paid by every micro block.
    pub block_reward: i64,
    /// How long a view-0 leader gathers transactions, in milliseconds.
    pub tx_wait_timeout: u64,
    /// How long a validator waits for a micro block before voting to skip
    /// its leader, in milliseconds.
    pub micro_block_timeout: u64,
    /// Base wait for a macro block, in milliseconds; round `r` waits
    /// `(1 + r)` times this.
    pub macro_block_timeout: u64,
    /// Maximum number of UTXOs a single transaction may touch.
    pub max_utxo_in_tx: usize,
    /// Maximum number of UTXOs the mempool may hold.
    pub max_utxo_in_mempool: usize,
    /// Maximum number of UTXOs a block may touch.
    pub max_utxo_in_block: usize,
}

impl ChainConfig {
    /// A configuration is meaningful when an epoch has at least one block.
    pub open spec fn wf(self) -> bool {
        &&& self.blocks_in_epoch >= 1
        &&& self.block_reward >= 0
    }
}

} // verus!
