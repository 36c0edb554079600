//! Compression: the algorithms, the compressors that run them through the
//! `zstd` and `lz4_flex` crates, streaming settings, and the choice of an
//! algorithm for a payload.

use vstd::prelude::*;

verus! {

/// The most bytes a decompression may produce (1 MiB).
pub const MAX_DECOMPRESSED: usize = 1048576;

/// Supported compression algorithms.
#[derive(Debug, Clone, Copy, PartialEq, Eq, Hash, Structural)]
pub enum Algorithm {
    Zstd,
    Lz4,
    /// No compression
    NoCompression,
}

impl Algorithm {
    pub open spec fn name(&self) -> Seq<char> {
        match self {
            Algorithm::Zstd => "zstd"@,
            Algorithm::Lz4 => "lz4"@,
            Algorithm::NoCompression => "none"@,
        }
    }

    /// The algorithm's name.
    pub fn as_str(&self) -> (r: &'static str)
        ensures
            r@ == self.name(),
    {
        match self {
            Algorithm::Zstd => "zstd",
            Algorithm::Lz4 => "lz4",
            Algorithm::NoCompression => "none",
        }
    }

    /// The algorithm's name, as an owned string.
    pub fn to_string(&self) -> (r: String)
        ensures
            r@ == self.name(),
    {
        String::from_str(self.as_str())
    }
}

/// Errors that can occur during compression operations.
#[derive(Debug, Clone)]
pub enum CompressionError {
    CompressionFailed { reason: String },
    DecompressionFailed { reason: String },
    InvalidLevel { level: i32 },
    DictionaryError { reason: String },
    StreamError { reason: String },
    ConfigError { reason: String },
}

#[verifier::external_type_specification]
#[verifier::external_body]
pub struct ExIoError(std::io::Error);

#[verifier::external_type_specification]
#[verifier::external_body]
pub struct ExLz4DecompressError(lz4_flex::block::DecompressError);

/// The zstd frame that `zstd::bulk::compress` makes of `data` at `level`.
pub uninterp spec fn zstd_frame(data: Seq<u8>, level: i32) -> Seq<u8>;

/// The LZ4 block that `lz4_flex::block::compress` makes of `data`.
pub uninterp spec fn lz4_block(data: Seq<u8>) -> Seq<u8>;

/// Calls `zstd::bulk::compress`. Trusted claims: a successful result is
/// the frame of `data` at `level`, a function of the two alone; and at a
/// level from 1 to 21 the call succeeds. The crate compresses into a buffer
/// of `compress_bound(data.len())` bytes, which zstd.h documents as enough
/// room to compress successfully; the other failures zstd.h leaves open are
/// those of resources (memory allocation), which are not modelled here, as
/// they are not for std's collections.
#[verifier::external_body]
fn zstd_compress(data: &[u8], level: i32) -> (r: Result<Vec<u8>, std::io::Error>)
    ensures
        r matches Ok(v) ==> v@ == zstd_frame(data@, level),
        1 <= level < 22 ==> r is Ok,
{
    zstd::bulk::compress(data, level)
}

/// Calls `zstd::bulk::decompress`. Trusted claims: a result holds at most
/// `capacity` bytes, as its documentation says; and a frame that compression
/// made at a level from 1 to 21 of at most `capacity` bytes decompresses to
/// those bytes.
#[verifier::external_body]
fn zstd_decompress(data: &[u8], capacity: usize) -> (r: Result<Vec<u8>, std::io::Error>)
    ensures
        r matches Ok(v) ==> v@.len() <= capacity,
        r is Err ==> forall|orig: Seq<u8>, level: i32| !(1 <= level < 22 && orig.len() <= capacity && data@ == #[trigger] zstd_frame(orig, level)),
        r matches Ok(v) ==> forall|orig: Seq<u8>, level: i32| 1 <= level < 22 && orig.len() <= capacity && data@ == #[trigger] zstd_frame(orig, level) ==> v@ == orig,
{
    zstd::bulk::decompress(data, capacity)
}

/// Calls `lz4_flex::block::compress`. Trusted claim: the result is the
/// block of `data`, a function of `data` alone.
#[verifier::external_body]
fn lz4_compress(data: &[u8]) -> (r: Vec<u8>)
    ensures
        r@ == lz4_block(data@),
{
    lz4_flex::block::compress(data)
}

/// Calls `lz4_flex::block::decompress` (which, with the crate's default
/// checked decoding, reports too small an output as an error). Trusted
/// claims: a result holds at most `min_size` bytes; and the block of at most
/// `min_size` bytes decompresses to those bytes, as its documentation says.
#[verifier::external_body]
fn lz4_decompress(data: &[u8], min_size: usize) -> (r: Result<Vec<u8>, lz4_flex::block::DecompressError>)
    ensures
        r matches Ok(v) ==> v@.len() <= min_size,
        r is Err ==> forall|orig: Seq<u8>| !(orig.len() <= min_size && data@ == #[trigger] lz4_block(orig)),
        r matches Ok(v) ==> forall|orig: Seq<u8>| orig.len() <= min_size && data@ == #[trigger] lz4_block(orig) ==> v@ == orig,
{
    lz4_flex::block::decompress(data, min_size)
}

/// Formats an I/O error with its `Display`. Nothing is claimed of the text.
#[verifier::external_body]
fn io_error_text(e: &std::io::Error) -> (r: String) {
    format!("{}", e)
}

/// Formats an LZ4 decompression error with its `Display`. Nothing is
/// claimed of the text.
#[verifier::external_body]
fn lz4_error_text(e: &lz4_flex::block::DecompressError) -> (r: String) {
    format!("{}", e)
}

/// A copy of a byte slice.
fn copy_slice(data: &[u8]) -> (r: Vec<u8>)
    ensures
        r@ == data@,
{
    let mut r: Vec<u8> = Vec::new();
    let n = data.len();
    let mut i: usize = 0;
    while i < n
        invariant
            n == data@.len(),
            i <= n,
            r@ == data@.subrange(0, i as int),
        decreases n - i,
    {
        r.push(data[i]);
        i = i + 1;
        assert(r@ =~= data@.subrange(0, i as int));
    }
    assert(data@.subrange(0, n as int) =~= data@);
    r
}

/// Zstandard compression.
#[derive(Debug)]
pub struct ZstandardCompressor {
    default_level: i32,
}

impl ZstandardCompressor {
    pub closed spec fn level(&self) -> i32 {
        self.default_level
    }

    /// A compressor whose default level is 0, which is outside the supported
    /// levels: a level must then be given with each call.
    pub fn new() -> (r: Self)
        ensures
            r.level() == 0,
    {
        ZstandardCompressor { default_level: 0 }
    }

    /// A compressor with the given default level.
    pub fn with_level(level: i32) -> (r: Self)
        ensures
            r.level() == level,
    {
        ZstandardCompressor { default_level: level }
    }

    /// Compresses `data` at `level`, or at the default level when none is
    /// given; a level outside 1 to 21 is refused.
    pub fn compress(&self, data: &[u8], level: Option<i32>) -> (r: Result<Vec<u8>, CompressionError>)
        ensures
            ({
                let l = match level {
                    Some(l) => l,
                    None => self.level(),
                };
                &&& !(1 <= l < 22) ==> (r matches Err(CompressionError::InvalidLevel { level: x }) && x == l)
                &&& 1 <= l < 22 ==> (r matches Ok(v) && v@ == zstd_frame(data@, l))
            }),
    {
        let l = match level {
            Some(l) => l,
            None => self.default_level,
        };
        if !(1 <= l && l < 22) {
            return Err(CompressionError::InvalidLevel { level: l });
        }
        match zstd_compress(data, l) {
            Ok(v) => Ok(v),
            Err(e) => {
                let mut reason = String::from_str("Zstd compression failed: ");
                let text = io_error_text(&e);
                reason.append(text.as_str());
                Err(CompressionError::CompressionFailed { reason })
            },
        }
    }

    /// Decompresses a zstd frame of at most 1 MiB of content.
    pub fn decompress(&self, data: &[u8]) -> (r: Result<Vec<u8>, CompressionError>)
        ensures
            r matches Ok(v) ==> v@.len() <= MAX_DECOMPRESSED,
            r matches Err(e) ==> e is DecompressionFailed,
            forall|orig: Seq<u8>, level: i32|
                1 <= level < 22 && orig.len() <= MAX_DECOMPRESSED && data@ == #[trigger] zstd_frame(orig, level)
                    ==> (r matches Ok(v) && v@ == orig),
    {
        match zstd_decompress(data, MAX_DECOMPRESSED) {
            Ok(v) => Ok(v),
            Err(e) => {
                let mut reason = String::from_str("Zstd decompression failed: ");
                let text = io_error_text(&e);
                reason.append(text.as_str());
                Err(CompressionError::DecompressionFailed { reason })
            },
        }
    }

    pub fn algorithm_name(&self) -> (r: &'static str)
        ensures
            r@ == "zstd"@,
    {
        "zstd"
    }

    /// The supported levels: 1 to 21.
    pub fn supported_levels(&self) -> (r: std::ops::Range<i32>)
        ensures
            r.start == 1 && r.end == 22,
    {
        1..22
    }
}

/// LZ4 compression.
#[derive(Debug)]
pub struct Lz4Compressor {
    high_compression: bool,
}

impl Lz4Compressor {
    pub closed spec fn high(&self) -> bool {
        self.high_compression
    }

    pub fn new() -> (r: Self)
        ensures
            !r.high(),
    {
        Lz4Compressor { high_compression: false }
    }

    pub fn with_high_compression(high_compression: bool) -> (r: Self)
        ensures
            r.high() == high_compression,
    {
        Lz4Compressor { high_compression }
    }

    /// Compresses `data` into an LZ4 block; the level is not used, and the
    /// high-compression setting compresses the same way.
    pub fn compress(&self, data: &[u8], _level: Option<i32>) -> (r: Result<Vec<u8>, CompressionError>)
        ensures
            r matches Ok(v) && v@ == lz4_block(data@),
    {
        Ok(lz4_compress(data))
    }

    /// Decompresses an LZ4 block of at most 1 MiB of content.
    pub fn decompress(&self, data: &[u8]) -> (r: Result<Vec<u8>, CompressionError>)
        ensures
            r matches Ok(v) ==> v@.len() <= MAX_DECOMPRESSED,
            r matches Err(e) ==> e is DecompressionFailed,
            forall|orig: Seq<u8>|
                orig.len() <= MAX_DECOMPRESSED && data@ == #[trigger] lz4_block(orig) ==> (r matches Ok(v) && v@
                    == orig),
    {
        match lz4_decompress(data, MAX_DECOMPRESSED) {
            Ok(v) => Ok(v),
            Err(e) => {
                let mut reason = String::from_str("LZ4 decompression failed: ");
                let text = lz4_error_text(&e);
                reason.append(text.as_str());
                Err(CompressionError::DecompressionFailed { reason })
            },
        }
    }

    pub fn algorithm_name(&self) -> (r: &'static str)
        ensures
            r@ == "lz4"@,
    {
        "lz4"
    }

    /// The supported levels: 0 (standard) and 1 (high compression).
    pub fn supported_levels(&self) -> (r: std::ops::Range<i32>)
        ensures
            r.start == 0 && r.end == 2,
    {
        0..2
    }
}

/// The `k`-th 4-byte chunk of `d`.
pub open spec fn chunk(d: Seq<u8>, k: int) -> Seq<u8> {
    d.subrange(4 * k, 4 * k + 4)
}

/// The `k`-th chunk of `d` equals an earlier one.
pub open spec fn repeats_earlier(d: Seq<u8>, k: int) -> bool {
    exists|j: int| 0 <= j < k && #[trigger] chunk(d, j) == chunk(d, k)
}

/// How many of the first `n` whole 4-byte chunks of `d` repeat an earlier
/// chunk.
pub open spec fn duplicate_chunks(d: Seq<u8>, n: int) -> nat
    decreases n,
{
    if n <= 0 {
        0
    } else {
        duplicate_chunks(d, n - 1) + if repeats_earlier(d, n - 1) {
            1nat
        } else {
            0nat
        }
    }
}

/// The big-endian number a 4-byte chunk spells.
pub open spec fn chunk_key(d: Seq<u8>, k: int) -> int {
    d[4 * k] * 16777216 + d[4 * k + 1] * 65536 + d[4 * k + 2] * 256 + d[4 * k + 3]
}

/// Chunks are equal exactly when their numbers are.
proof fn lemma_chunk_key(d: Seq<u8>, j: int, k: int)
    requires
        0 <= j,
        0 <= k,
        4 * j + 4 <= d.len(),
        4 * k + 4 <= d.len(),
    ensures
        (chunk(d, j) == chunk(d, k)) <==> (chunk_key(d, j) == chunk_key(d, k)),
{
    let (a0, a1, a2, a3) = (d[4 * j], d[4 * j + 1], d[4 * j + 2], d[4 * j + 3]);
    let (b0, b1, b2, b3) = (d[4 * k], d[4 * k + 1], d[4 * k + 2], d[4 * k + 3]);
    assert(a0 * 16777216 + a1 * 65536 + a2 * 256 + a3 == b0 * 16777216 + b1 * 65536 + b2 * 256 + b3 ==> a0 == b0
        && a1 == b1 && a2 == b2 && a3 == b3) by (bit_vector);
    if chunk_key(d, j) == chunk_key(d, k) {
        assert(chunk(d, j) =~= chunk(d, k)) by {
            assert(chunk(d, j)[0] == a0 && chunk(d, k)[0] == b0);
            assert(chunk(d, j)[1] == a1 && chunk(d, k)[1] == b1);
            assert(chunk(d, j)[2] == a2 && chunk(d, k)[2] == b2);
            assert(chunk(d, j)[3] == a3 && chunk(d, k)[3] == b3);
        }
    }
    if chunk(d, j) == chunk(d, k) {
        assert(chunk(d, j)[0] == a0 && chunk(d, k)[0] == b0);
        assert(chunk(d, j)[1] == a1 && chunk(d, k)[1] == b1);
        assert(chunk(d, j)[2] == a2 && chunk(d, k)[2] == b2);
        assert(chunk(d, j)[3] == a3 && chunk(d, k)[3] == b3);
    }
}

/// The number of whole 4-byte chunks of `data` that repeat an earlier
/// chunk, the basis of the LZ4 compression estimate; a last, shorter chunk
/// is not counted.
pub fn count_duplicate_chunks(data: &[u8]) -> (r: usize)
    ensures
        r == duplicate_chunks(data@, data@.len() as int / 4),
{
    broadcast use vstd::std_specs::hash::group_hash_axioms;
    let ghost d = data@;
    let n = data.len() / 4;
    assert(n * 4 <= data.len());
    let mut seen: std::collections::HashSet<u32> = std::collections::HashSet::new();
    let mut dups: usize = 0;
    let mut k: usize = 0;
    while k < n
        invariant
            d == data@,
            n == d.len() / 4,
            n * 4 <= data.len(),
            k <= n,
            dups <= k,
            dups == duplicate_chunks(d, k as int),
            forall|x: u32| #[trigger] seen@.contains(x) <==> exists|j: int| 0 <= j < k && chunk_key(d, j) == x,
        decreases n - k,
    {
        assert(4 * k + 4 <= d.len());
        assert(data@.len() == data.len());
        let i = k * 4;
        let key: u32 = (data[i] as u32) * 16777216 + (data[i + 1] as u32) * 65536 + (data[i + 2] as u32) * 256
            + (data[i + 3] as u32);
        assert(key == chunk_key(d, k as int));
        let ghost before = seen@;
        let fresh = seen.insert(key);
        proof {
            if fresh {
                assert forall|j: int| 0 <= j < k implies !(#[trigger] chunk(d, j) == chunk(d, k as int)) by {
                    lemma_chunk_key(d, j, k as int);
                    if chunk_key(d, j) == key {
                        assert(before.contains(key));
                    }
                }
                assert(!repeats_earlier(d, k as int));
            } else {
                let j = choose|j: int| 0 <= j < k && chunk_key(d, j) == key;
                lemma_chunk_key(d, j, k as int);
                assert(chunk(d, j) == chunk(d, k as int));
                assert(repeats_earlier(d, k as int));
            }
            assert forall|x: u32| #[trigger] seen@.contains(x) <==> exists|j: int| 0 <= j < k + 1 && chunk_key(d, j) == x by {
                if seen@.contains(x) && x != key {
                    assert(before.contains(x));
                }
                if x == key {
                    assert(chunk_key(d, k as int) == x);
                }
            }
        }
        if !fresh {
            dups = dups + 1;
        }
        k = k + 1;
    }
    dups
}

/// No-op compressor for testing and fallback.
#[derive(Debug)]
pub struct NoopCompressor;

impl NoopCompressor {
    /// The data itself.
    pub fn compress(&self, data: &[u8], _level: Option<i32>) -> (r: Result<Vec<u8>, CompressionError>)
        ensures
            r matches Ok(v) && v@ == data@,
    {
        Ok(copy_slice(data))
    }

    /// The data itself.
    pub fn decompress(&self, data: &[u8]) -> (r: Result<Vec<u8>, CompressionError>)
        ensures
            r matches Ok(v) && v@ == data@,
    {
        Ok(copy_slice(data))
    }

    pub fn algorithm_name(&self) -> (r: &'static str)
        ensures
            r@ == "none"@,
    {
        "none"
    }

    /// The supported levels: 0 only.
    pub fn supported_levels(&self) -> (r: std::ops::Range<i32>)
        ensures
            r.start == 0 && r.end == 1,
    {
        0..1
    }

    /// The estimated compression ratio, in thousandths: none.
    pub fn estimate_compression_ratio_permille(&self, _data: &[u8]) -> (r: u32)
        ensures
            r == 0,
    {
        0
    }
}

/// Configuration for streaming compression.
#[derive(Debug, Clone, Copy)]
pub struct StreamConfig {
    pub chunk_size: usize,
    pub buffer_size: usize,
    pub compression_level: i32,
    pub algorithm: Algorithm,
}

impl Default for StreamConfig {
    fn default() -> (r: Self)
        ensures
            r.chunk_size == 32 * 1024,
            r.buffer_size == 64 * 1024,
            r.compression_level == 6,
            r.algorithm == Algorithm::Zstd,
    {
        StreamConfig { chunk_size: 32 * 1024, buffer_size: 64 * 1024, compression_level: 6, algorithm: Algorithm::Zstd }
    }
}

/// Streaming compression of data in chunks under a stream configuration.
#[derive(Debug)]
pub struct StreamCompressor {
    config: StreamConfig,
}

impl StreamCompressor {
    pub closed spec fn config_spec(&self) -> StreamConfig {
        self.config
    }

    pub fn new(config: StreamConfig) -> (r: Self)
        ensures
            r.config_spec() == config,
    {
        StreamCompressor { config }
    }

    /// The stream configuration.
    pub fn config(&self) -> (r: StreamConfig)
        ensures
            r == self.config_spec(),
    {
        self.config
    }

    /// The chunk size suited to the configured algorithm: 64 KiB for zstd,
    /// 16 KiB for the faster LZ4, 1 MiB without compression.
    pub fn optimal_chunk_size(&self) -> (r: usize)
        ensures
            r == match self.config_spec().algorithm {
                Algorithm::Zstd => 65536usize,
                Algorithm::Lz4 => 16384usize,
                Algorithm::NoCompression => 1048576usize,
            },
    {
        match self.config.algorithm {
            Algorithm::Zstd => 64 * 1024,
            Algorithm::Lz4 => 16 * 1024,
            Algorithm::NoCompression => 1024 * 1024,
        }
    }
}

/// Streaming decompression with a buffer of a given size.
#[derive(Debug)]
pub struct StreamDecompressor {
    buffer_size: usize,
}

impl StreamDecompressor {
    pub closed spec fn buffer_size_spec(&self) -> usize {
        self.buffer_size
    }

    pub fn new(buffer_size: usize) -> (r: Self)
        ensures
            r.buffer_size_spec() == buffer_size,
    {
        StreamDecompressor { buffer_size }
    }

    /// The buffer size.
    pub fn buffer_size(&self) -> (r: usize)
        ensures
            r == self.buffer_size_spec(),
    {
        self.buffer_size
    }
}

/// Error recovery settings for stream compression failures.
#[derive(Debug)]
pub struct StreamRecovery {
    max_retries: usize,
    fallback_algorithm: Algorithm,
}

impl StreamRecovery {
    pub closed spec fn retries(&self) -> usize {
        self.max_retries
    }

    pub closed spec fn fallback(&self) -> Algorithm {
        self.fallback_algorithm
    }

    pub fn new(max_retries: usize, fallback_algorithm: Algorithm) -> (r: Self)
        ensures
            r.retries() == max_retries,
            r.fallback() == fallback_algorithm,
    {
        StreamRecovery { max_retries, fallback_algorithm }
    }

    /// How many times a failed compression is retried.
    pub fn max_retries(&self) -> (r: usize)
        ensures
            r == self.retries(),
    {
        self.max_retries
    }

    /// The algorithm to fall back to.
    pub fn fallback_algorithm(&self) -> (r: Algorithm)
        ensures
            r == self.fallback(),
    {
        self.fallback_algorithm
    }
}

/// Strategy for selecting compression algorithms.
#[derive(Debug, Clone, Copy, PartialEq, Eq, Structural)]
pub enum SelectionStrategy {
    /// Always use the fastest algorithm
    Speed,
    /// Always use the best compression ratio
    Ratio,
    /// Balance between speed and compression ratio
    Balanced,
    /// Adapt based on data characteristics and performance history
    Adaptive,
}

/// The algorithm chosen for `len` bytes under `strategy`; `best_scored` is
/// the algorithm with the highest positive performance score so far, if
/// any, which the adaptive strategy follows.
pub open spec fn choose_algorithm(strategy: SelectionStrategy, len: nat, best_scored: Option<Algorithm>) -> Algorithm {
    if len < 32 {
        Algorithm::NoCompression
    } else {
        match strategy {
            SelectionStrategy::Speed => if len < 1024 { Algorithm::NoCompression } else { Algorithm::Lz4 },
            SelectionStrategy::Ratio => Algorithm::Zstd,
            SelectionStrategy::Balanced => if len < 1024 { Algorithm::Lz4 } else { Algorithm::Zstd },
            SelectionStrategy::Adaptive => match best_scored {
                Some(a) => a,
                None => if len < 1024 { Algorithm::Lz4 } else { Algorithm::Zstd },
            },
        }
    }
}

/// How the algorithm is chosen: payloads under 32 bytes are never
/// compressed; from 32 bytes on, the ratio strategy always takes zstd,
/// whatever the length; the speed strategy leaves payloads under 1024
/// bytes uncompressed and takes LZ4 from there; the balanced strategy takes
/// LZ4 under 1024 bytes and zstd from there; the adaptive strategy follows
/// the best-scored algorithm and, without one, chooses as the balanced
/// strategy does. Beyond 1024 bytes the length no longer matters.
pub proof fn algorithm_choice_rules(strategy: SelectionStrategy, len: nat, best_scored: Option<Algorithm>)
    ensures
        len < 32 ==> choose_algorithm(strategy, len, best_scored) == Algorithm::NoCompression,
        len >= 32 && strategy == SelectionStrategy::Ratio ==> choose_algorithm(strategy, len, best_scored)
            == Algorithm::Zstd,
        32 <= len < 1024 && strategy == SelectionStrategy::Speed ==> choose_algorithm(strategy, len, best_scored)
            == Algorithm::NoCompression,
        len >= 1024 && strategy == SelectionStrategy::Speed ==> choose_algorithm(strategy, len, best_scored)
            == Algorithm::Lz4,
        32 <= len < 1024 && strategy == SelectionStrategy::Balanced ==> choose_algorithm(strategy, len, best_scored)
            == Algorithm::Lz4,
        len >= 1024 && strategy == SelectionStrategy::Balanced ==> choose_algorithm(strategy, len, best_scored)
            == Algorithm::Zstd,
        len >= 32 && strategy == SelectionStrategy::Adaptive && best_scored is Some ==> choose_algorithm(
            strategy,
            len,
            best_scored,
        ) == best_scored->0,
        len >= 32 && strategy == SelectionStrategy::Adaptive && best_scored is None ==> choose_algorithm(
            strategy,
            len,
            best_scored,
        ) == choose_algorithm(SelectionStrategy::Balanced, len, None),
        forall|other: nat|
            len >= 1024 && other >= 1024 ==> #[trigger] choose_algorithm(strategy, other, best_scored) == choose_algorithm(
                strategy,
                len,
                best_scored,
            ),
{
}

/// Adaptive compression algorithm selector over the three compressors.
#[derive(Debug)]
pub struct AdaptiveSelector {
    strategy: SelectionStrategy,
    min_compression_ratio_permille: u32,
    zstd: ZstandardCompressor,
    lz4: Lz4Compressor,
    noop: NoopCompressor,
}

impl AdaptiveSelector {
    pub closed spec fn strategy_spec(&self) -> SelectionStrategy {
        self.strategy
    }

    /// The zstd compressor's default level.
    pub closed spec fn zstd_level(&self) -> i32 {
        self.zstd.level()
    }

    /// The least compression ratio worth compressing for, in thousandths.
    pub closed spec fn min_ratio_spec(&self) -> u32 {
        self.min_compression_ratio_permille
    }

    /// A selector with the given strategy, the least compression ratio worth
    /// compressing for (in thousandths) and default compressors.
    pub fn new(strategy: SelectionStrategy, min_compression_ratio_permille: u32) -> (r: Self)
        ensures
            r.strategy_spec() == strategy,
            r.min_ratio_spec() == min_compression_ratio_permille,
            r.zstd_level() == 0,
    {
        AdaptiveSelector {
            strategy,
            min_compression_ratio_permille,
            zstd: ZstandardCompressor::new(),
            lz4: Lz4Compressor::new(),
            noop: NoopCompressor,
        }
    }

    /// The algorithm for `data`: none for very small payloads, otherwise as
    /// the strategy says; the adaptive strategy follows `best_scored`, the
    /// algorithm with the highest positive score, and without one goes by size.
    pub fn select_algorithm(&self, data: &[u8], best_scored: Option<Algorithm>) -> (r: Algorithm)
        ensures
            r == choose_algorithm(self.strategy_spec(), data@.len(), best_scored),
            data@.len() < 32 ==> r == Algorithm::NoCompression,
            data@.len() >= 32 && self.strategy_spec() == SelectionStrategy::Ratio ==> r == Algorithm::Zstd,
    {
        proof {
            algorithm_choice_rules(self.strategy_spec(), data@.len(), best_scored);
        }
        let len = data.len();
        if len < 32 {
            return Algorithm::NoCompression;
        }
        match self.strategy {
            SelectionStrategy::Speed => if len < 1024 {
                Algorithm::NoCompression
            } else {
                Algorithm::Lz4
            },
            SelectionStrategy::Ratio => Algorithm::Zstd,
            SelectionStrategy::Balanced => if len < 1024 {
                Algorithm::Lz4
            } else {
                Algorithm::Zstd
            },
            SelectionStrategy::Adaptive => match best_scored {
                Some(a) => a,
                None => if len < 1024 {
                    Algorithm::Lz4
                } else {
                    Algorithm::Zstd
                },
            },
        }
    }

    /// Compresses `data` with the compressor of `algorithm`.
    pub fn compress_with(&self, algorithm: Algorithm, data: &[u8], level: Option<i32>) -> (r: Result<Vec<u8>, CompressionError>)
        ensures
            algorithm == Algorithm::NoCompression ==> (r matches Ok(v) && v@ == data@),
            algorithm == Algorithm::Lz4 ==> (r matches Ok(v) && v@ == lz4_block(data@)),
            algorithm == Algorithm::Zstd ==> ({
                let l = match level {
                    Some(l) => l,
                    None => self.zstd_level(),
                };
                &&& !(1 <= l < 22) ==> (r matches Err(CompressionError::InvalidLevel { level: x }) && x == l)
                &&& 1 <= l < 22 ==> (r matches Ok(v) && v@ == zstd_frame(data@, l))
            }),
    {
        match algorithm {
            Algorithm::Zstd => self.zstd.compress(data, level),
            Algorithm::Lz4 => self.lz4.compress(data, level),
            Algorithm::NoCompression => self.noop.compress(data, level),
        }
    }

    /// Decompresses `data` with the compressor of `algorithm`.
    pub fn decompress(&self, data: &[u8], algorithm: Algorithm) -> (r: Result<Vec<u8>, CompressionError>)
        ensures
            algorithm == Algorithm::NoCompression ==> (r matches Ok(v) && v@ == data@),
            algorithm == Algorithm::Lz4 ==> forall|orig: Seq<u8>|
                orig.len() <= MAX_DECOMPRESSED && data@ == #[trigger] lz4_block(orig) ==> (r matches Ok(v) && v@
                    == orig),
            algorithm == Algorithm::Zstd ==> forall|orig: Seq<u8>, level: i32|
                1 <= level < 22 && orig.len() <= MAX_DECOMPRESSED && data@ == #[trigger] zstd_frame(orig, level)
                    ==> (r matches Ok(v) && v@ == orig),
            algorithm != Algorithm::NoCompression ==> (r matches Err(e) ==> e is DecompressionFailed),
    {
        match algorithm {
            Algorithm::Zstd => self.zstd.decompress(data),
            Algorithm::Lz4 => self.lz4.decompress(data),
            Algorithm::NoCompression => self.noop.decompress(data),
        }
    }

    /// Update strategy.
    pub fn set_strategy(&mut self, strategy: SelectionStrategy)
        ensures
            final(self).strategy_spec() == strategy,
            final(self).min_ratio_spec() == old(self).min_ratio_spec(),
            final(self).zstd_level() == old(self).zstd_level(),
    {
        self.strategy = strategy;
    }

    /// Get current strategy.
    pub fn strategy(&self) -> (r: SelectionStrategy)
        ensures
            r == self.strategy_spec(),
    {
        self.strategy
    }

    /// The least compression ratio worth compressing for, in thousandths.
    pub fn min_compression_ratio_permille(&self) -> (r: u32)
        ensures
            r == self.min_ratio_spec(),
    {
        self.min_compression_ratio_permille
    }
}

} // verus!

verus! {

/// Compression configuration. The minimum compression ratio is in
/// thousandths (100 stands for 0.1).
#[derive(Debug, Clone, Copy)]
pub struct CompressionConfig {
    /// Minimum compression ratio to consider compression worthwhile
    pub min_compression_ratio_permille: u32,
    /// Maximum compression level to use
    pub max_level: i32,
    /// Enable adaptive algorithm selection
    pub adaptive_selection: bool,
    /// Dictionary size for dictionary-based compression
    pub dictionary_size: usize,
    /// Stream chunk size
    pub stream_chunk_size: usize,
}

impl Default for CompressionConfig {
    fn default() -> (r: Self)
        ensures
            r.min_compression_ratio_permille == 100,
            r.max_level == 6,
            r.adaptive_selection,
            r.dictionary_size == 65536,
            r.stream_chunk_size == 32768,
    {
        CompressionConfig {
            min_compression_ratio_permille: 100,
            max_level: 6,
            adaptive_selection: true,
            dictionary_size: 64 * 1024,
            stream_chunk_size: 32 * 1024,
        }
    }
}

/// Protocol-aware compression negotiation. The minimum compression ratio
/// is in thousandths (100 stands for 0.1).
#[derive(Debug, Clone)]
pub struct CompressionNegotiation {
    pub supported_algorithms: Vec<Algorithm>,
    pub preferred_algorithm: Algorithm,
    pub min_compression_ratio_permille: u32,
    pub max_compression_level: i32,
}

impl Default for CompressionNegotiation {
    fn default() -> (r: Self)
        ensures
            r.supported_algorithms@ == seq![Algorithm::Zstd, Algorithm::Lz4, Algorithm::NoCompression],
            r.preferred_algorithm == Algorithm::Zstd,
            r.min_compression_ratio_permille == 100,
            r.max_compression_level == 6,
    {
        let mut supported_algorithms = Vec::new();
        supported_algorithms.push(Algorithm::Zstd);
        supported_algorithms.push(Algorithm::Lz4);
        supported_algorithms.push(Algorithm::NoCompression);
        assert(supported_algorithms@ =~= seq![Algorithm::Zstd, Algorithm::Lz4, Algorithm::NoCompression]);
        CompressionNegotiation {
            supported_algorithms,
            preferred_algorithm: Algorithm::Zstd,
            min_compression_ratio_permille: 100,
            max_compression_level: 6,
        }
    }
}

/// The peer's algorithms that we support too, in the peer's order.
pub open spec fn common_algorithms(peer: Seq<Algorithm>, ours: Seq<Algorithm>) -> Seq<Algorithm>
    decreases peer.len(),
{
    if peer.len() == 0 {
        Seq::empty()
    } else {
        let rest = common_algorithms(peer.drop_last(), ours);
        if ours.contains(peer.last()) {
            rest.push(peer.last())
        } else {
            rest
        }
    }
}

/// The first of our algorithms, in our order, that is in `common`.
pub open spec fn first_in(ours: Seq<Algorithm>, common: Seq<Algorithm>, i: int) -> Option<Algorithm>
    decreases ours.len() - i,
{
    if i < 0 || i >= ours.len() {
        None
    } else if common.contains(ours[i]) {
        Some(ours[i])
    } else {
        first_in(ours, common, i + 1)
    }
}

/// Whether `a` is in `v`.
fn algorithm_in(v: &Vec<Algorithm>, a: Algorithm) -> (r: bool)
    ensures
        r == v@.contains(a),
{
    let n = v.len();
    let mut i: usize = 0;
    while i < n
        invariant
            n == v@.len(),
            i <= n,
            forall|j: int| 0 <= j < i ==> v@[j] != a,
        decreases n - i,
    {
        if v[i] == a {
            assert(v@[i as int] == a);
            return true;
        }
        i = i + 1;
    }
    false
}

proof fn lemma_first_in(ours: Seq<Algorithm>, common: Seq<Algorithm>, i: int)
    requires
        0 <= i,
    ensures
        first_in(ours, common, i) matches Some(a) ==> common.contains(a) && ours.contains(a),
    decreases ours.len() - i,
{
    if i < ours.len() {
        lemma_first_in(ours, common, i + 1);
    }
}

proof fn lemma_common(peer: Seq<Algorithm>, ours: Seq<Algorithm>)
    ensures
        forall|a: Algorithm| #[trigger] common_algorithms(peer, ours).contains(a) ==> peer.contains(a) && ours.contains(a),
    decreases peer.len(),
{
    if peer.len() > 0 {
        lemma_common(peer.drop_last(), ours);
        assert forall|a: Algorithm| #[trigger] common_algorithms(peer, ours).contains(a) implies peer.contains(a)
            && ours.contains(a) by {
            let rest = common_algorithms(peer.drop_last(), ours);
            if rest.contains(a) {
                let k = choose|k: int| 0 <= k < rest.len() && rest[k] == a;
                let m = choose|m: int| 0 <= m < peer.drop_last().len() && peer.drop_last()[m] == a;
                assert(peer[m] == a);
            } else {
                assert(a == peer.last());
                assert(peer[peer.len() - 1] == a);
            }
        }
    }
}

/// A negotiated preference is supported by both sides: with algorithms in
/// common, the preferred one is offered by the peer and supported by us.
pub proof fn negotiated_preference_is_common(peer: Seq<Algorithm>, ours: Seq<Algorithm>)
    requires
        common_algorithms(peer, ours).len() > 0,
    ensures
        ({
            let common = common_algorithms(peer, ours);
            let preferred = match first_in(ours, common, 0) {
                Some(a) => a,
                None => common[0],
            };
            peer.contains(preferred) && ours.contains(preferred)
        }),
{
    let common = common_algorithms(peer, ours);
    lemma_first_in(ours, common, 0);
    lemma_common(peer, ours);
    assert(common.contains(common[0]));
}

/// The first of `ours` that is in `common`.
fn first_common(ours: &Vec<Algorithm>, common: &Vec<Algorithm>) -> (r: Option<Algorithm>)
    ensures
        r == first_in(ours@, common@, 0),
{
    let m = ours.len();
    let mut j: usize = 0;
    while j < m
        invariant
            m == ours@.len(),
            j <= m,
            first_in(ours@, common@, 0) == first_in(ours@, common@, j as int),
        decreases m - j,
    {
        if algorithm_in(common, ours[j]) {
            return Some(ours[j]);
        }
        j = j + 1;
    }
    None
}

/// A frame of data as it travels: the algorithm that compressed it, the
/// size before compression and the compression level.
#[derive(Debug, Clone)]
pub struct CompressedFrame {
    pub algorithm: Algorithm,
    pub original_size: usize,
    pub compressed_data: Vec<u8>,
    pub dictionary_id: Option<String>,
    pub compression_level: i32,
}

impl CompressedFrame {
    pub fn new(
        algorithm: Algorithm,
        original_size: usize,
        compressed_data: Vec<u8>,
        dictionary_id: Option<String>,
        compression_level: i32,
    ) -> (r: Self)
        ensures
            r.algorithm == algorithm,
            r.original_size == original_size,
            r.compressed_data@ == compressed_data@,
            r.dictionary_id == dictionary_id,
            r.compression_level == compression_level,
    {
        CompressedFrame { algorithm, original_size, compressed_data, dictionary_id, compression_level }
    }

    pub open spec fn is_compressed_spec(&self) -> bool {
        self.algorithm != Algorithm::NoCompression
    }

    /// Whether the frame's data is compressed.
    pub fn is_compressed(&self) -> (r: bool)
        ensures
            r == (self.algorithm != Algorithm::NoCompression),
    {
        self.algorithm != Algorithm::NoCompression
    }

    /// The share of the original size saved, in thousandths (negative when
    /// the data grew); 0 for an empty original.
    pub fn compression_ratio_permille(&self) -> (r: i128)
        ensures
            r == if self.original_size > 0 {
                1000 - (self.compressed_data@.len() as int) * 1000 / (self.original_size as int)
            } else {
                0
            },
    {
        if self.original_size > 0 {
            let q: u128 = (self.compressed_data.len() as u128) * 1000 / (self.original_size as u128);
            assert(q <= (self.compressed_data.len() as u128) * 1000) by (nonlinear_arith)
                requires
                    q as int == (self.compressed_data.len() as int) * 1000 / (self.original_size as int),
                    self.original_size >= 1,
            ;
            1000 - q as i128
        } else {
            0
        }
    }
}

/// The network-layer compression manager: its selector and our side of
/// the negotiation.
#[derive(Debug)]
pub struct NetworkCompressionManager {
    selector: AdaptiveSelector,
    negotiation: CompressionNegotiation,
}

impl NetworkCompressionManager {
    pub closed spec fn ours(&self) -> Seq<Algorithm> {
        self.negotiation.supported_algorithms@
    }

    pub closed spec fn min_ratio(&self) -> u32 {
        self.negotiation.min_compression_ratio_permille
    }

    pub closed spec fn max_level(&self) -> i32 {
        self.negotiation.max_compression_level
    }

    pub closed spec fn strategy_spec(&self) -> SelectionStrategy {
        self.selector.strategy_spec()
    }

    pub closed spec fn selector_min_ratio(&self) -> u32 {
        self.selector.min_ratio_spec()
    }

    /// Our side of the negotiation.
    pub closed spec fn negotiation_spec(&self) -> CompressionNegotiation {
        self.negotiation
    }

    /// Our side of the negotiation.
    pub fn negotiation(&self) -> (r: &CompressionNegotiation)
        ensures
            *r == self.negotiation_spec(),
    {
        &self.negotiation
    }

    /// A manager whose selector adapts when the configuration asks for
    /// adaptive selection and balances otherwise, with the configured least
    /// compression ratio and the default negotiation.
    pub fn new(config: CompressionConfig) -> (r: Self)
        ensures
            r.strategy_spec() == (if config.adaptive_selection {
                SelectionStrategy::Adaptive
            } else {
                SelectionStrategy::Balanced
            }),
            r.selector_min_ratio() == config.min_compression_ratio_permille,
            r.negotiation_spec().preferred_algorithm == Algorithm::Zstd,
            r.ours() == seq![Algorithm::Zstd, Algorithm::Lz4, Algorithm::NoCompression],
            r.min_ratio() == 100,
            r.max_level() == 6,
    {
        let strategy = if config.adaptive_selection {
            SelectionStrategy::Adaptive
        } else {
            SelectionStrategy::Balanced
        };
        NetworkCompressionManager {
            selector: AdaptiveSelector::new(strategy, config.min_compression_ratio_permille),
            negotiation: CompressionNegotiation::default(),
        }
    }

    /// The data a frame carries: its data as it is when uncompressed,
    /// otherwise what the frame's algorithm decompresses it to.
    pub fn decompress_message(&self, frame: &CompressedFrame) -> (r: Result<Vec<u8>, CompressionError>)
        ensures
            !frame.is_compressed_spec() ==> (r matches Ok(v) && v@ == frame.compressed_data@),
            frame.algorithm == Algorithm::Lz4 ==> forall|orig: Seq<u8>|
                orig.len() <= MAX_DECOMPRESSED && frame.compressed_data@ == #[trigger] lz4_block(orig) ==> (r matches Ok(
                    v,
                ) && v@ == orig),
            frame.algorithm == Algorithm::Zstd ==> forall|orig: Seq<u8>, level: i32|
                1 <= level < 22 && orig.len() <= MAX_DECOMPRESSED && frame.compressed_data@ == #[trigger] zstd_frame(
                    orig,
                    level,
                ) ==> (r matches Ok(v) && v@ == orig),
            frame.is_compressed_spec() ==> (r matches Err(e) ==> e is DecompressionFailed),
    {
        if !frame.is_compressed() {
            return Ok(copy_slice(frame.compressed_data.as_slice()));
        }
        self.selector.decompress(frame.compressed_data.as_slice(), frame.algorithm)
    }

    /// Sets the selector's strategy.
    pub fn update_strategy(&mut self, strategy: SelectionStrategy)
        ensures
            final(self).strategy_spec() == strategy,
            final(self).ours() == old(self).ours(),
            final(self).min_ratio() == old(self).min_ratio(),
            final(self).max_level() == old(self).max_level(),
    {
        self.selector.set_strategy(strategy);
    }

    /// Negotiates with a peer offering `peer_algorithms`: the algorithms in
    /// common (in the peer's order), preferring the first of ours that is
    /// among them, with our limits; with nothing in common, no compression.
    pub fn negotiate_compression(&mut self, peer_algorithms: &[Algorithm]) -> (r: CompressionNegotiation)
        ensures
            ({
                let common = common_algorithms(peer_algorithms@, old(self).ours());
                if common.len() == 0 {
                    &&& r.supported_algorithms@ == seq![Algorithm::NoCompression]
                    &&& r.preferred_algorithm == Algorithm::NoCompression
                    &&& r.min_compression_ratio_permille == 0
                    &&& r.max_compression_level == 0
                } else {
                    &&& r.supported_algorithms@ == common
                    &&& r.preferred_algorithm == (match first_in(old(self).ours(), common, 0) {
                        Some(a) => a,
                        None => common[0],
                    })
                    &&& r.min_compression_ratio_permille == old(self).min_ratio()
                    &&& r.max_compression_level == old(self).max_level()
                }
            }),
            final(self).ours() == old(self).ours(),
            final(self).min_ratio() == old(self).min_ratio(),
            final(self).max_level() == old(self).max_level(),
            final(self).strategy_spec() == old(self).strategy_spec(),
    {
        let mut common: Vec<Algorithm> = Vec::new();
        let n = peer_algorithms.len();
        let mut i: usize = 0;
        while i < n
            invariant
                n == peer_algorithms@.len(),
                i <= n,
                common@ == common_algorithms(peer_algorithms@.take(i as int), self.ours()),
            decreases n - i,
        {
            proof {
                assert(peer_algorithms@.take(i + 1).drop_last() =~= peer_algorithms@.take(i as int));
            }
            let a = peer_algorithms[i];
            if algorithm_in(&self.negotiation.supported_algorithms, a) {
                common.push(a);
            }
            i = i + 1;
        }
        assert(peer_algorithms@.take(n as int) =~= peer_algorithms@);
        if common.len() == 0 {
            let mut only = Vec::new();
            only.push(Algorithm::NoCompression);
            assert(only@ =~= seq![Algorithm::NoCompression]);
            return CompressionNegotiation {
                supported_algorithms: only,
                preferred_algorithm: Algorithm::NoCompression,
                min_compression_ratio_permille: 0,
                max_compression_level: 0,
            };
        }
        let preferred = match first_common(&self.negotiation.supported_algorithms, &common) {
            Some(a) => a,
            None => common[0],
        };
        CompressionNegotiation {
            supported_algorithms: common,
            preferred_algorithm: preferred,
            min_compression_ratio_permille: self.negotiation.min_compression_ratio_permille,
            max_compression_level: self.negotiation.max_compression_level,
        }
    }
}

} // verus!
