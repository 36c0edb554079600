//! Settings and counters of the high-throughput consensus pipeline. The
//! counters are snapshots of the pipeline's atomic counters.

use vstd::prelude::*;

verus! {

/// Performance-optimized consensus configuration.
#[derive(Debug, Clone, Copy)]
pub struct OptimizedConsensusConfig {
    pub target_tps: u64,
    pub max_batch_size: usize,
    pub block_time_ms: u64,
    /// Signatures verified per batch
    pub signature_batch_size: usize,
    pub enable_simd_crypto: bool,
    pub enable_zero_copy: bool,
    pub connection_pool_size: usize,
    pub memory_pool_size: usize,
}

impl Default for OptimizedConsensusConfig {
    fn default() -> (r: Self)
        ensures
            r.target_tps == 10_000,
            r.max_batch_size == 1000,
            r.block_time_ms == 100,
            r.signature_batch_size == 8,
            r.enable_simd_crypto,
            r.enable_zero_copy,
            r.connection_pool_size == 100,
            r.memory_pool_size == 10_000,
    {
        OptimizedConsensusConfig {
            target_tps: 10_000,
            max_batch_size: 1000,
            block_time_ms: 100,
            signature_batch_size: 8,
            enable_simd_crypto: true,
            enable_zero_copy: true,
            connection_pool_size: 100,
            memory_pool_size: 10_000,
        }
    }
}

/// Transaction pool counters.
#[derive(Debug, Clone, Copy, PartialEq, Eq, Structural)]
pub struct TransactionPoolStats {
    pub total_transactions: u64,
    pub pending_transactions: u64,
    pub processed_transactions: u64,
    pub rejected_transactions: u64,
}

impl Default for TransactionPoolStats {
    fn default() -> (r: Self)
        ensures
            r.total_transactions == 0,
            r.pending_transactions == 0,
            r.processed_transactions == 0,
            r.rejected_transactions == 0,
    {
        TransactionPoolStats { total_transactions: 0, pending_transactions: 0, processed_transactions: 0, rejected_transactions: 0 }
    }
}

/// Block builder counters.
#[derive(Debug, Clone, Copy, PartialEq, Eq, Structural)]
pub struct BlockBuilderStats {
    pub blocks_created: u64,
    pub total_transactions: u64,
    pub avg_block_size: u64,
    pub build_time_ns: u64,
}

impl Default for BlockBuilderStats {
    fn default() -> (r: Self)
        ensures
            r.blocks_created == 0,
            r.total_transactions == 0,
            r.avg_block_size == 0,
            r.build_time_ns == 0,
    {
        BlockBuilderStats { blocks_created: 0, total_transactions: 0, avg_block_size: 0, build_time_ns: 0 }
    }
}

/// Signature verification counters.
#[derive(Debug, Clone, Copy, PartialEq, Eq, Structural)]
pub struct SignatureVerificationStats {
    pub batches_processed: u64,
    pub signatures_verified: u64,
    pub verification_time_ns: u64,
    pub simd_operations: u64,
}

impl Default for SignatureVerificationStats {
    fn default() -> (r: Self)
        ensures
            r.batches_processed == 0,
            r.signatures_verified == 0,
            r.verification_time_ns == 0,
            r.simd_operations == 0,
    {
        SignatureVerificationStats { batches_processed: 0, signatures_verified: 0, verification_time_ns: 0, simd_operations: 0 }
    }
}

/// Consensus performance counters.
#[derive(Debug, Clone, Copy, PartialEq, Eq, Structural)]
pub struct ConsensusPerformanceStats {
    pub blocks_proposed: u64,
    pub blocks_committed: u64,
    pub transactions_processed: u64,
    pub current_tps: u64,
    pub avg_block_time_ms: u64,
    pub consensus_rounds: u64,
}

impl Default for ConsensusPerformanceStats {
    fn default() -> (r: Self)
        ensures
            r.blocks_proposed == 0,
            r.blocks_committed == 0,
            r.transactions_processed == 0,
            r.current_tps == 0,
            r.avg_block_time_ms == 0,
            r.consensus_rounds == 0,
    {
        ConsensusPerformanceStats { blocks_proposed: 0, blocks_committed: 0, transactions_processed: 0, current_tps: 0, avg_block_time_ms: 0, consensus_rounds: 0 }
    }
}

/// All the pipeline's counters.
#[derive(Debug, Clone, Copy)]
pub struct OptimizedConsensusStats {
    pub consensus: ConsensusPerformanceStats,
    pub transaction_pool: TransactionPoolStats,
    pub block_builder: BlockBuilderStats,
    pub signature_verifier: SignatureVerificationStats,
}

} // verus!
