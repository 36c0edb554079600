//! Consensus protocol configuration and statistics.

use vstd::prelude::*;
use crate::consensus::types::NodeId;

verus! {

/// Configuration of timeout values (milliseconds).
#[derive(Debug, Clone, Copy)]
pub struct TimeoutConfig {
    /// Timeout for receiving proposals.
    pub proposal_timeout_ms: u64,
    /// Timeout for vote collection.
    pub vote_timeout_ms: u64,
    /// Timeout for view changes.
    pub view_change_timeout_ms: u64,
    /// Base timeout that scales with the view number.
    pub base_timeout_ms: u64,
    /// Growth of the timeout at each view change, in percent of the
    /// previous timeout (150 means +50%).
    pub timeout_multiplier_percent: u64,
}

impl TimeoutConfig {
    /// The default timeouts: 1 s for proposals, 500 ms for votes, 2 s for
    /// view changes, 1 s base, +50% per view change.
    pub fn default_config() -> (r: Self)
        ensures
            r.proposal_timeout_ms == 1000,
            r.vote_timeout_ms == 500,
            r.view_change_timeout_ms == 2000,
            r.base_timeout_ms == 1000,
            r.timeout_multiplier_percent == 150,
    {
        TimeoutConfig {
            proposal_timeout_ms: 1000,
            vote_timeout_ms: 500,
            view_change_timeout_ms: 2000,
            base_timeout_ms: 1000,
            timeout_multiplier_percent: 150,
        }
    }
}

impl Default for TimeoutConfig {
    fn default() -> (r: Self)
        ensures
            r.proposal_timeout_ms == 1000,
            r.vote_timeout_ms == 500,
            r.view_change_timeout_ms == 2000,
            r.base_timeout_ms == 1000,
            r.timeout_multiplier_percent == 150,
    {
        TimeoutConfig::default_config()
    }
}

/// Consensus protocol statistics.
#[derive(Debug, Clone, Copy)]
pub struct ConsensusStats {
    /// Current view number.
    pub current_view: u64,
    /// Total blocks committed.
    pub blocks_committed: u64,
    /// Total transactions processed.
    pub transactions_processed: u64,
    /// Average block time (milliseconds).
    pub avg_block_time_ms: u64,
    /// Current throughput (transactions per second).
    pub current_tps: u64,
    /// View changes count.
    pub view_changes: u64,
    /// Messages sent.
    pub messages_sent: u64,
    /// Messages received.
    pub messages_received: u64,
    /// Average consensus latency (milliseconds).
    pub avg_consensus_latency_ms: u64,
    /// 95th percentile consensus latency (milliseconds).
    pub p95_consensus_latency_ms: u64,
    /// 99th percentile consensus latency (milliseconds).
    pub p99_consensus_latency_ms: u64,
}

impl ConsensusStats {
    /// All counters at zero.
    pub open spec fn zero_spec() -> ConsensusStats {
        ConsensusStats {
            current_view: 0,
            blocks_committed: 0,
            transactions_processed: 0,
            avg_block_time_ms: 0,
            current_tps: 0,
            view_changes: 0,
            messages_sent: 0,
            messages_received: 0,
            avg_consensus_latency_ms: 0,
            p95_consensus_latency_ms: 0,
            p99_consensus_latency_ms: 0,
        }
    }

    /// All counters at zero.
    pub fn zero() -> (r: Self)
        ensures
            r == Self::zero_spec(),
            r.current_view == 0 && r.blocks_committed == 0 && r.transactions_processed == 0,
            r.avg_block_time_ms == 0 && r.current_tps == 0 && r.view_changes == 0,
            r.messages_sent == 0 && r.messages_received == 0,
            r.avg_consensus_latency_ms == 0 && r.p95_consensus_latency_ms == 0,
            r.p99_consensus_latency_ms == 0,
    {
        ConsensusStats {
            current_view: 0,
            blocks_committed: 0,
            transactions_processed: 0,
            avg_block_time_ms: 0,
            current_tps: 0,
            view_changes: 0,
            messages_sent: 0,
            messages_received: 0,
            avg_consensus_latency_ms: 0,
            p95_consensus_latency_ms: 0,
            p99_consensus_latency_ms: 0,
        }
    }
}

impl Default for ConsensusStats {
    fn default() -> (r: Self)
        ensures
            r.current_view == 0 && r.blocks_committed == 0 && r.transactions_processed == 0,
            r.avg_block_time_ms == 0 && r.current_tps == 0 && r.view_changes == 0,
            r.messages_sent == 0 && r.messages_received == 0,
            r.avg_consensus_latency_ms == 0 && r.p95_consensus_latency_ms == 0,
            r.p99_consensus_latency_ms == 0,
    {
        ConsensusStats::zero()
    }
}

/// The largest number of Byzantine nodes that `n` validators tolerate:
/// the largest `f` with `3f + 1 <= n`.
pub open spec fn max_faults(n: nat) -> nat
    recommends
        n >= 1,
{
    ((n - 1) / 3) as nat
}

/// Whether `nodes` holds `node`.
pub fn contains_node(nodes: &Vec<NodeId>, node: NodeId) -> (r: bool)
    ensures
        r == nodes@.contains(node),
{
    let n = nodes.len();
    let mut i: usize = 0;
    while i < n
        invariant
            n == nodes@.len(),
            i <= n,
            forall|k: int| 0 <= k < i ==> nodes@[k] != node,
        decreases n - i,
    {
        if nodes[i] == node {
            assert(nodes@[i as int] == node);
            return true;
        }
        i = i + 1;
    }
    false
}

/// Consensus protocol configuration.
#[derive(Debug, Clone)]
pub struct ConsensusConfig {
    /// This node's identifier.
    pub node_id: NodeId,
    /// Validator nodes.
    pub validators: Vec<NodeId>,
    /// Byzantine fault threshold (`f` in `n = 3f + 1`).
    pub byzantine_threshold: usize,
    /// Timeout configuration.
    pub timeouts: TimeoutConfig,
    /// Maximum transactions per block.
    pub max_transactions_per_block: usize,
    /// Block size limit in bytes.
    pub max_block_size_bytes: usize,
    /// Enable fast path optimizations.
    pub enable_fast_path: bool,
    /// Enable signature aggregation.
    pub enable_signature_aggregation: bool,
}

impl ConsensusConfig {
    /// A configuration for `validators`, tolerating as many Byzantine nodes
    /// as their number allows.
    pub fn new(node_id: NodeId, validators: Vec<NodeId>) -> (r: Self)
        requires
            validators@.len() >= 1,
        ensures
            r.node_id == node_id,
            r.validators@ == validators@,
            r.byzantine_threshold == max_faults(validators@.len()),
            r.timeouts.proposal_timeout_ms == 1000,
            r.timeouts.vote_timeout_ms == 500,
            r.timeouts.view_change_timeout_ms == 2000,
            r.timeouts.base_timeout_ms == 1000,
            r.timeouts.timeout_multiplier_percent == 150,
            r.max_transactions_per_block == 1000,
            r.max_block_size_bytes == 1024 * 1024,
            r.enable_fast_path,
            !r.enable_signature_aggregation,
    {
        let byzantine_threshold = (validators.len() - 1) / 3;
        ConsensusConfig {
            node_id,
            validators,
            byzantine_threshold,
            timeouts: TimeoutConfig::default_config(),
            max_transactions_per_block: 1000,
            max_block_size_bytes: 1024 * 1024,
            enable_fast_path: true,
            enable_signature_aggregation: false,
        }
    }

    /// A configuration whose only validator is `node_id`.
    pub fn single_node(node_id: NodeId) -> (r: Self)
        ensures
            r.node_id == node_id,
            r.validators@ == seq![node_id],
            r.byzantine_threshold == 0,
    {
        let mut v: Vec<NodeId> = Vec::new();
        v.push(node_id);
        ConsensusConfig::new(node_id, v)
    }

    /// The minimum number of votes for a quorum: `2f + 1`.
    pub fn quorum_size(&self) -> (r: usize)
        requires
            2 * self.byzantine_threshold + 1 <= usize::MAX,
        ensures
            r == 2 * self.byzantine_threshold + 1,
    {
        2 * self.byzantine_threshold + 1
    }

    /// Whether there are enough validators for the Byzantine threshold:
    /// at least `3f + 1`.
    pub fn is_valid(&self) -> (r: bool)
        ensures
            r == (self.validators@.len() >= 3 * self.byzantine_threshold + 1),
    {
        let n = self.validators.len();
        if self.byzantine_threshold > (usize::MAX - 1) / 3 {
            false
        } else {
            n >= 3 * self.byzantine_threshold + 1
        }
    }

    /// Adds a validator unless it is already one, and then resets the
    /// threshold to what the validators allow.
    pub fn add_validator(self, validator: NodeId) -> (r: Self)
        ensures
            self.validators@.contains(validator) ==> r.validators@ == self.validators@
                && r.byzantine_threshold == self.byzantine_threshold,
            !self.validators@.contains(validator) ==> r.validators@ == self.validators@.push(validator)
                && r.byzantine_threshold == max_faults(self.validators@.len() + 1),
            r.node_id == self.node_id,
            r.timeouts == self.timeouts,
            r.max_transactions_per_block == self.max_transactions_per_block,
            r.max_block_size_bytes == self.max_block_size_bytes,
            r.enable_fast_path == self.enable_fast_path,
            r.enable_signature_aggregation == self.enable_signature_aggregation,
    {
        if contains_node(&self.validators, validator) {
            return self;
        }
        let mut s = self;
        s.validators.push(validator);
        s.byzantine_threshold = (s.validators.len() - 1) / 3;
        s
    }

    /// Sets the Byzantine fault threshold.
    pub fn with_byzantine_threshold(self, threshold: usize) -> (r: Self)
        ensures
            r.byzantine_threshold == threshold,
            r.node_id == self.node_id && r.validators@ == self.validators@ && r.timeouts == self.timeouts,
            r.max_transactions_per_block == self.max_transactions_per_block,
            r.max_block_size_bytes == self.max_block_size_bytes,
            r.enable_fast_path == self.enable_fast_path,
            r.enable_signature_aggregation == self.enable_signature_aggregation,
    {
        let mut s = self;
        s.byzantine_threshold = threshold;
        s
    }

    /// Sets the timeout configuration.
    pub fn with_timeouts(self, timeouts: TimeoutConfig) -> (r: Self)
        ensures
            r.timeouts == timeouts,
            r.node_id == self.node_id && r.validators@ == self.validators@,
            r.byzantine_threshold == self.byzantine_threshold,
            r.max_transactions_per_block == self.max_transactions_per_block,
            r.max_block_size_bytes == self.max_block_size_bytes,
            r.enable_fast_path == self.enable_fast_path,
            r.enable_signature_aggregation == self.enable_signature_aggregation,
    {
        let mut s = self;
        s.timeouts = timeouts;
        s
    }

    /// Enables or disables fast path optimizations.
    pub fn with_fast_path(self, enabled: bool) -> (r: Self)
        ensures
            r.enable_fast_path == enabled,
            r.node_id == self.node_id && r.validators@ == self.validators@ && r.timeouts == self.timeouts,
            r.byzantine_threshold == self.byzantine_threshold,
            r.max_transactions_per_block == self.max_transactions_per_block,
            r.max_block_size_bytes == self.max_block_size_bytes,
            r.enable_signature_aggregation == self.enable_signature_aggregation,
    {
        let mut s = self;
        s.enable_fast_path = enabled;
        s
    }

    /// Sets the maximum number of transactions per block.
    pub fn with_max_transactions(self, max_tx: usize) -> (r: Self)
        ensures
            r.max_transactions_per_block == max_tx,
            r.node_id == self.node_id && r.validators@ == self.validators@ && r.timeouts == self.timeouts,
            r.byzantine_threshold == self.byzantine_threshold,
            r.max_block_size_bytes == self.max_block_size_bytes,
            r.enable_fast_path == self.enable_fast_path,
            r.enable_signature_aggregation == self.enable_signature_aggregation,
    {
        let mut s = self;
        s.max_transactions_per_block = max_tx;
        s
    }

    /// Sets the maximum block size in bytes.
    pub fn with_max_block_size(self, max_size: usize) -> (r: Self)
        ensures
            r.max_block_size_bytes == max_size,
            r.node_id == self.node_id && r.validators@ == self.validators@ && r.timeouts == self.timeouts,
            r.byzantine_threshold == self.byzantine_threshold,
            r.max_transactions_per_block == self.max_transactions_per_block,
            r.enable_fast_path == self.enable_fast_path,
            r.enable_signature_aggregation == self.enable_signature_aggregation,
    {
        let mut s = self;
        s.max_block_size_bytes = max_size;
        s
    }
}

} // verus!

verus! {

/// Quorum intersection: among `3f + 1` validators, any two quorums of
/// `2f + 1` validators share at least `f + 1` of them, so at least one
/// honest validator when at most `f` are Byzantine.
pub proof fn quorums_intersect(validators: Set<NodeId>, a: Set<NodeId>, b: Set<NodeId>, f: nat)
    requires
        validators.finite(),
        validators.len() == 3 * f + 1,
        a.subset_of(validators),
        b.subset_of(validators),
        a.len() >= 2 * f + 1,
        b.len() >= 2 * f + 1,
    ensures
        a.intersect(b).len() >= f + 1,
{
    vstd::set_lib::lemma_len_subset(a, validators);
    vstd::set_lib::lemma_len_subset(b, validators);
    vstd::set_lib::lemma_len_subset(a.union(b), validators);
    vstd::set_lib::lemma_set_intersect_union_lens(a, b);
}

} // verus!
