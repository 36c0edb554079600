//! Settings and counters of the high-throughput network layer. The
//! counters are snapshots of the layer's atomic counters.

use vstd::prelude::*;
use crate::net::types::PeerId;
use crate::net::error::TransportError;
use crate::platform::{now_millis, instant_now, nanos_since};

verus! {

/// High-performance network configuration.
#[derive(Debug, Clone, Copy)]
pub struct OptimizedNetworkConfig {
    pub target_msgs_per_sec: u64,
    pub connection_pool_size: usize,
    pub max_connections_per_peer: usize,
    pub message_buffer_size: usize,
    pub enable_zero_copy: bool,
    pub enable_simd_processing: bool,
    pub backpressure_threshold: usize,
    pub connection_timeout_ms: u64,
    pub keepalive_interval_ms: u64,
}

impl Default for OptimizedNetworkConfig {
    fn default() -> (r: Self)
        ensures
            r.target_msgs_per_sec == 100_000,
            r.connection_pool_size == 1000,
            r.max_connections_per_peer == 10,
            r.message_buffer_size == 65536,
            r.enable_zero_copy,
            r.enable_simd_processing,
            r.backpressure_threshold == 10000,
            r.connection_timeout_ms == 5000,
            r.keepalive_interval_ms == 30000,
    {
        OptimizedNetworkConfig {
            target_msgs_per_sec: 100_000,
            connection_pool_size: 1000,
            max_connections_per_peer: 10,
            message_buffer_size: 65536,
            enable_zero_copy: true,
            enable_simd_processing: true,
            backpressure_threshold: 10000,
            connection_timeout_ms: 5000,
            keepalive_interval_ms: 30000,
        }
    }
}

/// Kinds of network messages.
#[derive(Debug, Clone, Copy, PartialEq, Eq, Hash, Structural)]
pub enum MessageType {
    Consensus,
    Crdt,
    Heartbeat,
    Control,
    Data,
}

/// Connection pool counters.
#[derive(Debug, Clone, Copy, PartialEq, Eq, Structural)]
pub struct ConnectionPoolStats {
    pub total_connections: usize,
    pub active_connections: usize,
    pub pool_hits: u64,
    pub pool_misses: u64,
    pub connection_errors: u64,
    pub avg_pool_utilization: u64,
}

impl Default for ConnectionPoolStats {
    fn default() -> (r: Self)
        ensures
            r.total_connections == 0,
            r.active_connections == 0,
            r.pool_hits == 0,
            r.pool_misses == 0,
            r.connection_errors == 0,
            r.avg_pool_utilization == 0,
    {
        ConnectionPoolStats { total_connections: 0, active_connections: 0, pool_hits: 0, pool_misses: 0, connection_errors: 0, avg_pool_utilization: 0 }
    }
}

/// Message processor counters.
#[derive(Debug, Clone, Copy, PartialEq, Eq, Structural)]
pub struct MessageProcessorStats {
    pub messages_processed: u64,
    pub batches_processed: u64,
    pub processing_time_ns: u64,
    pub simd_operations: u64,
    pub bytes_processed: u64,
}

impl Default for MessageProcessorStats {
    fn default() -> (r: Self)
        ensures
            r.messages_processed == 0,
            r.batches_processed == 0,
            r.processing_time_ns == 0,
            r.simd_operations == 0,
            r.bytes_processed == 0,
    {
        MessageProcessorStats { messages_processed: 0, batches_processed: 0, processing_time_ns: 0, simd_operations: 0, bytes_processed: 0 }
    }
}

/// Network performance counters.
#[derive(Debug, Clone, Copy, PartialEq, Eq, Structural)]
pub struct NetworkPerformanceStats {
    pub messages_sent: u64,
    pub messages_received: u64,
    pub bytes_sent: u64,
    pub bytes_received: u64,
    pub current_msgs_per_sec: u64,
    pub avg_latency_ms: u64,
    pub connection_count: usize,
    pub backpressure_events: u64,
}

impl Default for NetworkPerformanceStats {
    fn default() -> (r: Self)
        ensures
            r.messages_sent == 0,
            r.messages_received == 0,
            r.bytes_sent == 0,
            r.bytes_received == 0,
            r.current_msgs_per_sec == 0,
            r.avg_latency_ms == 0,
            r.connection_count == 0,
            r.backpressure_events == 0,
    {
        NetworkPerformanceStats { messages_sent: 0, messages_received: 0, bytes_sent: 0, bytes_received: 0, current_msgs_per_sec: 0, avg_latency_ms: 0, connection_count: 0, backpressure_events: 0 }
    }
}

/// All the layer's counters.
#[derive(Debug, Clone, Copy)]
pub struct OptimizedNetworkStats {
    pub network_performance: NetworkPerformanceStats,
    pub connection_pool: ConnectionPoolStats,
    pub message_processor: MessageProcessorStats,
}

/// The outcome of sending a batch of messages.
#[derive(Debug, Clone, Copy)]
pub struct BatchSendResult {
    pub successful: usize,
    pub failed: usize,
    pub total_bytes: usize,
    pub batch_time_ms: u64,
    pub msgs_per_sec: u64,
}

/// Mock connection for benchmarking.
#[derive(Debug)]
pub struct MockConnection {
    peer_id: PeerId,
    /// When the connection was made, in milliseconds since the Unix epoch
    connected_at: i64,
}

impl MockConnection {
    pub closed spec fn peer(&self) -> PeerId {
        self.peer_id
    }

    /// A connection to `peer_id`, made now.
    pub fn new(peer_id: PeerId) -> (r: Self)
        ensures
            r.peer() == peer_id,
    {
        MockConnection { peer_id, connected_at: now_millis() }
    }

    /// The peer of the connection.
    pub fn peer_id(&self) -> (r: PeerId)
        ensures
            r == self.peer(),
    {
        self.peer_id
    }

    /// A mock connection is always connected.
    pub fn is_connected(&self) -> (r: bool)
        ensures
            r,
    {
        true
    }
}


/// The length of the run of bytes equal to `d[i]` that starts at `i`,
/// counted on from `c`, at most 255.
pub open spec fn run_length(d: Seq<u8>, i: int, c: int) -> int
    decreases 255 - c,
{
    if c < 255 && i + c < d.len() && d[i + c] == d[i] {
        run_length(d, i, c + 1)
    } else {
        c
    }
}

/// A run counted on from `c` is at least `c` long, at most 255, and stays
/// inside the data.
pub proof fn lemma_run_length(d: Seq<u8>, i: int, c: int)
    requires
        0 <= i,
        1 <= c <= 255,
        i + c <= d.len(),
    ensures
        c <= run_length(d, i, c) <= 255,
        i + run_length(d, i, c) <= d.len(),
    decreases 255 - c,
{
    if c < 255 && i + c < d.len() && d[i + c] == d[i] {
        lemma_run_length(d, i, c + 1);
    }
}

/// Run-length encoding from position `i`: a run of more than three equal
/// bytes (at most 255) becomes the escape byte 0xFE, its length and the
/// byte; shorter runs stay as they are.
pub open spec fn rle_from(d: Seq<u8>, i: int) -> Seq<u8>
    decreases d.len() - i,
{
    if i < 0 || i >= d.len() {
        Seq::empty()
    } else {
        let c = run_length(d, i, 1);
        proof {
            lemma_run_length(d, i, 1);
        }
        let piece = if c > 3 {
            seq![0xFEu8, c as u8, d[i]]
        } else {
            Seq::new(c as nat, |k: int| d[i])
        };
        piece + rle_from(d, i + c)
    }
}

/// The checksum of a message: the wrapping sum of its bytes, each shifted
/// left by its position modulo 8.
pub open spec fn checksum_of(d: Seq<u8>) -> u64
    decreases d.len(),
{
    if d.len() == 0 {
        0
    } else {
        vstd::wrapping::u64_specs::wrapping_add(
            checksum_of(d.drop_last()),
            (d.last() as u64) << (((d.len() - 1) % 8) as u64),
        )
    }
}

/// A message is valid when it is neither empty nor a megabyte or more.
pub open spec fn message_valid(d: Seq<u8>) -> bool {
    0 < d.len() < 1_000_000
}

/// Messages under this many bytes are not compressed.
pub const MIN_COMPRESS_LEN: usize = 100;

/// What a message holds, as values.
pub struct ZeroCopyMessageView {
    pub data: Seq<u8>,
    pub peer_id: PeerId,
    pub message_type: MessageType,
    pub created_at: std::time::Instant,
    pub compression_ratio_permille: u64,
}

/// A message with its destination and kind.
#[derive(Debug)]
pub struct ZeroCopyMessage {
    pub data: Vec<u8>,
    pub peer_id: PeerId,
    pub message_type: MessageType,
    pub created_at: std::time::Instant,
    /// Compressed over original size, in thousandths
    pub compression_ratio_permille: u64,
}

impl View for ZeroCopyMessage {
    type V = ZeroCopyMessageView;

    open spec fn view(&self) -> ZeroCopyMessageView {
        ZeroCopyMessageView {
            data: self.data@,
            peer_id: self.peer_id,
            message_type: self.message_type,
            created_at: self.created_at,
            compression_ratio_permille: self.compression_ratio_permille,
        }
    }
}

/// The run-length encoding of `data` (see `rle_from`).
fn fast_compress(data: &[u8]) -> (r: Vec<u8>)
    ensures
        r@ == rle_from(data@, 0),
{
    let n = data.len();
    let mut out: Vec<u8> = Vec::new();
    let mut i: usize = 0;
    assert(out@ + rle_from(data@, 0) =~= rle_from(data@, 0));
    while i < n
        invariant
            n == data@.len(),
            i <= n,
            out@ + rle_from(data@, i as int) == rle_from(data@, 0),
        decreases n - i,
    {
        let byte = data[i];
        let mut count: usize = 1;
        proof {
            lemma_run_length(data@, i as int, 1);
        }
        while i + count < n && data[i + count] == byte && count < 255
            invariant
                n == data@.len(),
                i < n,
                byte == data@[i as int],
                1 <= count <= 255,
                i + count <= n,
                run_length(data@, i as int, count as int) == run_length(data@, i as int, 1),
            decreases 255 - count,
        {
            count = count + 1;
        }
        let ghost c = count as int;
        assert(run_length(data@, i as int, 1) == c);
        let ghost before = out@;
        if count > 3 {
            out.push(0xFE);
            out.push(count as u8);
            out.push(byte);
            assert(out@ =~= before + seq![0xFEu8, c as u8, data@[i as int]]);
        } else {
            let mut k: usize = 0;
            while k < count
                invariant
                    k <= count,
                    out@ == before + Seq::new(k as nat, |j: int| byte),
                decreases count - k,
            {
                out.push(byte);
                k = k + 1;
                assert(out@ =~= before + Seq::new(k as nat, |j: int| byte));
            }
            assert(Seq::new(count as nat, |j: int| byte) =~= Seq::new(c as nat, |j: int| data@[i as int]));
        }
        assert(out@ + rle_from(data@, i + count) =~= before + rle_from(data@, i as int));
        i = i + count;
    }
    out
}

impl ZeroCopyMessage {
    /// A message made now, not compressed (ratio one).
    pub fn new(data: Vec<u8>, peer_id: PeerId, message_type: MessageType) -> (r: Self)
        ensures
            r.data@ == data@,
            r.peer_id == peer_id,
            r.message_type == message_type,
            r.compression_ratio_permille == 1000,
    {
        ZeroCopyMessage { data, peer_id, message_type, created_at: instant_now(), compression_ratio_permille: 1000 }
    }

    /// Compresses a message of at least 100 bytes by run-length encoding:
    /// the ratio is recorded, and the encoding replaces the data when it is
    /// under 80% of its size.
    pub fn compress(&mut self) -> (r: Result<(), TransportError>)
        ensures
            r is Ok,
            final(self).peer_id == old(self).peer_id,
            final(self).message_type == old(self).message_type,
            final(self).created_at == old(self).created_at,
            old(self).data@.len() < MIN_COMPRESS_LEN ==> final(self)@ == old(self)@,
            old(self).data@.len() >= MIN_COMPRESS_LEN ==> {
                let enc = rle_from(old(self).data@, 0);
                &&& final(self).compression_ratio_permille == enc.len() * 1000 / old(self).data@.len()
                &&& final(self).data@ == if enc.len() * 10 < old(self).data@.len() * 8 {
                    enc
                } else {
                    old(self).data@
                }
            },
    {
        let original_size = self.data.len();
        if original_size < MIN_COMPRESS_LEN {
            return Ok(());
        }
        let compressed = fast_compress(self.data.as_slice());
        let clen = compressed.len();
        let ratio: u128 = (clen as u128) * 1000 / (original_size as u128);
        assert(clen <= 3 * original_size) by {
            lemma_rle_len(self.data@, 0);
        }
        assert(ratio <= 3000) by (nonlinear_arith)
            requires
                ratio as int == (clen as int) * 1000 / (original_size as int),
                clen <= 3 * original_size,
                original_size > 0,
        ;
        self.compression_ratio_permille = ratio as u64;
        if (clen as u128) * 10 < (original_size as u128) * 8 {
            self.data = compressed;
        }
        Ok(())
    }

    /// A copy of the message.
    pub fn copied(&self) -> (r: Self)
        ensures
            r@ == self@,
    {
        let mut data: Vec<u8> = Vec::new();
        let mut i: usize = 0;
        while i < self.data.len()
            invariant
                i <= self.data@.len(),
                data@ == self.data@.subrange(0, i as int),
            decreases self.data@.len() - i,
        {
            data.push(self.data[i]);
            i = i + 1;
            assert(data@ =~= self.data@.subrange(0, i as int));
        }
        assert(data@ =~= self.data@);
        ZeroCopyMessage {
            data,
            peer_id: self.peer_id,
            message_type: self.message_type,
            created_at: self.created_at,
            compression_ratio_permille: self.compression_ratio_permille,
        }
    }
}

/// The encoding is at most three times as long as the data.
proof fn lemma_rle_len(d: Seq<u8>, i: int)
    requires
        0 <= i <= d.len(),
    ensures
        rle_from(d, i).len() <= 3 * (d.len() - i),
    decreases d.len() - i,
{
    if i < d.len() {
        lemma_run_length(d, i, 1);
        lemma_rle_len(d, i + run_length(d, i, 1));
    }
}

/// A message with its checksum and validity.
#[derive(Debug)]
pub struct ProcessedMessage {
    pub original: ZeroCopyMessage,
    pub checksum: u64,
    pub is_valid: bool,
    pub processed_at: std::time::Instant,
}

/// The checksum of `data` (see `checksum_of`).
fn simd_checksum(data: &[u8]) -> (r: u64)
    ensures
        r == checksum_of(data@),
{
    let mut acc: u64 = 0;
    let mut i: usize = 0;
    while i < data.len()
        invariant
            i <= data@.len(),
            acc == checksum_of(data@.take(i as int)),
        decreases data@.len() - i,
    {
        assert(data@.take(i + 1).drop_last() =~= data@.take(i as int));
        acc = acc.wrapping_add((data[i] as u64) << ((i % 8) as u64));
        i = i + 1;
    }
    assert(data@.take(i as int) =~= data@);
    acc
}

/// Whether a message is valid (see `message_valid`).
fn simd_validate(data: &[u8]) -> (r: bool)
    ensures
        r == message_valid(data@),
{
    data.len() > 0 && data.len() < 1_000_000
}

/// Checksums and validates messages in batches, and counts its work.
pub struct SimdMessageProcessor {
    processor_stats: MessageProcessorStats,
    buffer_count: usize,
    batch_size: usize,
}

/// The processed form of each message, in order, with its checksum and
/// validity.
pub open spec fn processed_as(out: Seq<ProcessedMessage>, msgs: Seq<ZeroCopyMessage>) -> bool {
    &&& out.len() == msgs.len()
    &&& forall|i: int| 0 <= i < msgs.len() ==> {
        &&& (#[trigger] out[i]).original@ == msgs[i]@
        &&& out[i].checksum == checksum_of(msgs[i].data@)
        &&& out[i].is_valid == message_valid(msgs[i].data@)
    }
}

/// The total bytes of messages.
pub open spec fn total_bytes(msgs: Seq<ZeroCopyMessage>) -> int
    decreases msgs.len(),
{
    if msgs.len() == 0 {
        0
    } else {
        total_bytes(msgs.drop_last()) + msgs.last().data@.len()
    }
}

impl SimdMessageProcessor {
    pub closed spec fn stats_spec(&self) -> MessageProcessorStats {
        self.processor_stats
    }

    pub closed spec fn batch_size_spec(&self) -> usize {
        self.batch_size
    }

    /// A processor for batches of `batch_size` messages, with
    /// `buffer_count` message buffers.
    pub fn new(batch_size: usize, buffer_count: usize) -> (r: Self)
        ensures
            r.batch_size_spec() == batch_size,
            r.stats_spec() == (MessageProcessorStats {
                messages_processed: 0,
                batches_processed: 0,
                processing_time_ns: 0,
                simd_operations: 0,
                bytes_processed: 0,
            }),
    {
        SimdMessageProcessor { processor_stats: MessageProcessorStats::default(), buffer_count, batch_size }
    }

    /// Checksums and validates each message, in batches; the counters add
    /// the messages, the whole batches, the time taken, one operation and
    /// the bytes, each wrapping as the atomic counters do.
    pub fn process_message_batch(&mut self, messages: Vec<ZeroCopyMessage>) -> (r: Result<Vec<ProcessedMessage>, TransportError>)
        requires
            old(self).batch_size_spec() > 0,
        ensures
            r matches Ok(out) && processed_as(out@, messages@),
            final(self).batch_size_spec() == old(self).batch_size_spec(),
            final(self).stats_spec().messages_processed == vstd::wrapping::u64_specs::wrapping_add(
                old(self).stats_spec().messages_processed,
                messages@.len() as u64,
            ),
            final(self).stats_spec().batches_processed == vstd::wrapping::u64_specs::wrapping_add(
                old(self).stats_spec().batches_processed,
                (messages@.len() as int / old(self).batch_size_spec() as int) as u64,
            ),
            final(self).stats_spec().simd_operations == vstd::wrapping::u64_specs::wrapping_add(
                old(self).stats_spec().simd_operations,
                1,
            ),
            final(self).stats_spec().bytes_processed == vstd::wrapping::u64_specs::wrapping_add(
                old(self).stats_spec().bytes_processed,
                (total_bytes(messages@) % 0x1_0000_0000_0000_0000) as u64,
            ),
    {
        let start = instant_now();
        let mut processed: Vec<ProcessedMessage> = Vec::new();
        let mut bytes: u64 = 0;
        let mut i: usize = 0;
        while i < messages.len()
            invariant
                i <= messages@.len(),
                processed@.len() == i,
                forall|j: int| 0 <= j < i ==> {
                    &&& (#[trigger] processed@[j]).original@ == messages@[j]@
                    &&& processed@[j].checksum == checksum_of(messages@[j].data@)
                    &&& processed@[j].is_valid == message_valid(messages@[j].data@)
                },
                bytes == total_bytes(messages@.take(i as int)) % 0x1_0000_0000_0000_0000,
            decreases messages@.len() - i,
        {
            let m = &messages[i];
            let checksum = simd_checksum(m.data.as_slice());
            let is_valid = simd_validate(m.data.as_slice());
            processed.push(ProcessedMessage { original: m.copied(), checksum, is_valid, processed_at: instant_now() });
            assert(messages@.take(i + 1).drop_last() =~= messages@.take(i as int));
            assert(messages@.take(i + 1).last() == messages@[i as int]);
            bytes = bytes.wrapping_add(m.data.len() as u64);
            i = i + 1;
        }
        assert(messages@.take(i as int) =~= messages@);
        let elapsed = nanos_since(&start);
        #[verifier::truncate]
        let elapsed_ns = elapsed as u64;
        let n = messages.len() as u64;
        let batches = (messages.len() / self.batch_size) as u64;
        self.processor_stats.messages_processed = self.processor_stats.messages_processed.wrapping_add(n);
        self.processor_stats.batches_processed = self.processor_stats.batches_processed.wrapping_add(batches);
        self.processor_stats.processing_time_ns = self.processor_stats.processing_time_ns.wrapping_add(elapsed_ns);
        self.processor_stats.simd_operations = self.processor_stats.simd_operations.wrapping_add(1);
        self.processor_stats.bytes_processed = self.processor_stats.bytes_processed.wrapping_add(bytes);
        Ok(processed)
    }

    /// The counters.
    pub fn stats(&self) -> (r: MessageProcessorStats)
        ensures
            r == self.stats_spec(),
    {
        self.processor_stats
    }
}

/// A pooled connection's counters and health, as plain values; the
/// connection itself stays with the transport. `last_used_ms` is a time on
/// the monotonic clock, in milliseconds.
#[derive(Debug, Clone, Copy)]
pub struct PooledConnection {
    pub last_used_ms: u64,
    pub message_count: u64,
    pub bytes_sent: u64,
    pub bytes_received: u64,
    pub is_healthy: bool,
    pub latency_ms: u64,
}

impl PooledConnection {
    /// A connection just opened at `now_ms`: no traffic yet, healthy, with
    /// the 10 ms baseline latency.
    pub fn opened_at(now_ms: u64) -> (r: Self)
        ensures
            r == (PooledConnection {
                last_used_ms: now_ms,
                message_count: 0,
                bytes_sent: 0,
                bytes_received: 0,
                is_healthy: true,
                latency_ms: 10,
            }),
    {
        PooledConnection {
            last_used_ms: now_ms,
            message_count: 0,
            bytes_sent: 0,
            bytes_received: 0,
            is_healthy: true,
            latency_ms: 10,
        }
    }

    /// Counts one message of `bytes` bytes sent, which took `latency_ms`;
    /// the counters wrap around, as the atomic counters they stand for do.
    pub fn record_send(&mut self, bytes: u64, latency_ms: u64)
        ensures
            *final(self) == (PooledConnection {
                message_count: old(self).message_count.wrapping_add(1),
                bytes_sent: old(self).bytes_sent.wrapping_add(bytes),
                latency_ms,
                ..*old(self)
            }),
    {
        self.message_count = self.message_count.wrapping_add(1);
        self.bytes_sent = self.bytes_sent.wrapping_add(bytes);
        self.latency_ms = latency_ms;
    }

    /// Still usable at `now_ms` with the idle limit `timeout_ms`: healthy,
    /// and used less than `timeout_ms` before `now_ms`.
    pub fn is_usable_at(&self, now_ms: u64, timeout_ms: u64) -> (r: bool)
        ensures
            r == usable_connection(*self, now_ms, timeout_ms),
    {
        self.is_healthy && now_ms.saturating_sub(self.last_used_ms) < timeout_ms
    }
}

/// A connection is usable at `now_ms`: healthy, and used less than
/// `timeout_ms` before (a last use after `now_ms` counts as no time).
pub open spec fn usable_connection(c: PooledConnection, now_ms: u64, timeout_ms: u64) -> bool {
    c.is_healthy && (if now_ms >= c.last_used_ms { now_ms - c.last_used_ms } else { 0 }) < timeout_ms
}

/// The position of the least loaded healthy connection of a peer: the
/// healthy one with the fewest messages, the first of them on a tie; `None`
/// when none is healthy.
pub fn least_loaded_healthy(conns: &Vec<PooledConnection>) -> (r: Option<usize>)
    ensures
        match r {
            Some(i) => {
                &&& i < conns@.len()
                &&& conns@[i as int].is_healthy
                &&& forall|j: int| 0 <= j < conns@.len() && (#[trigger] conns@[j]).is_healthy ==> conns@[i as int].message_count
                    <= conns@[j].message_count
                &&& forall|j: int| 0 <= j < i && (#[trigger] conns@[j]).is_healthy ==> conns@[i as int].message_count
                    < conns@[j].message_count
            },
            None => forall|j: int| 0 <= j < conns@.len() ==> !(#[trigger] conns@[j]).is_healthy,
        },
{
    let mut best: Option<usize> = None;
    let n = conns.len();
    let mut i: usize = 0;
    while i < n
        invariant
            n == conns@.len(),
            i <= n,
            match best {
                Some(b) => {
                    &&& b < i
                    &&& conns@[b as int].is_healthy
                    &&& forall|j: int| 0 <= j < i && (#[trigger] conns@[j]).is_healthy ==> conns@[b as int].message_count
                        <= conns@[j].message_count
                    &&& forall|j: int| 0 <= j < b && (#[trigger] conns@[j]).is_healthy ==> conns@[b as int].message_count
                        < conns@[j].message_count
                },
                None => forall|j: int| 0 <= j < i ==> !(#[trigger] conns@[j]).is_healthy,
            },
        decreases n - i,
    {
        if conns[i].is_healthy {
            match best {
                Some(b) => {
                    if conns[i].message_count < conns[b].message_count {
                        best = Some(i);
                    }
                },
                None => {
                    best = Some(i);
                },
            }
        }
        i = i + 1;
    }
    best
}

/// Whether a peer's connections are worth keeping at `now_ms`: at least one
/// of them is usable with the idle limit `timeout_ms`.
pub fn any_usable(conns: &Vec<PooledConnection>, now_ms: u64, timeout_ms: u64) -> (r: bool)
    ensures
        r == exists|j: int| 0 <= j < conns@.len() && usable_connection(#[trigger] conns@[j], now_ms, timeout_ms),
{
    let n = conns.len();
    let mut i: usize = 0;
    while i < n
        invariant
            n == conns@.len(),
            i <= n,
            forall|j: int| 0 <= j < i ==> !usable_connection(#[trigger] conns@[j], now_ms, timeout_ms),
        decreases n - i,
    {
        if conns[i].is_usable_at(now_ms, timeout_ms) {
            assert(usable_connection(conns@[i as int], now_ms, timeout_ms));
            return true;
        }
        i = i + 1;
    }
    false
}

} // verus!
