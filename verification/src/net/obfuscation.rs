//! Traffic obfuscation: padding packets to random sizes, normalising them
//! to one size, and taking either off again on the other side. A padded
//! packet is the data, its length as a 4-byte big-endian header, then
//! random bytes. Times are milliseconds since the Unix epoch.

use vstd::prelude::*;
use crate::net::error::{NetworkError, PrivacyError};
use crate::net::privacy::{ObfuscationMethod, PaddingDistribution};
use crate::net::crypto::aead::{random_bytes, random_in_range};
use crate::platform::now_millis;

verus! {

/// Parameters for traffic padding.
#[derive(Debug, Clone, Copy)]
pub struct PaddingParams {
    /// Minimum packet size
    pub min_packet_size: usize,
    /// Maximum packet size
    pub max_packet_size: usize,
    /// Padding distribution
    pub distribution: PaddingDistribution,
    /// Padding rate, in thousandths of a packet per second
    pub padding_rate_millis: u64,
}

impl Default for PaddingParams {
    fn default() -> (r: Self)
        ensures
            r.min_packet_size == 256,
            r.max_packet_size == 1500,
            r.distribution == PaddingDistribution::Uniform,
            r.padding_rate_millis == 1000,
    {
        PaddingParams {
            min_packet_size: 256,
            max_packet_size: 1500,
            distribution: PaddingDistribution::Uniform,
            padding_rate_millis: 1000,
        }
    }
}

/// The four bytes of `n`, most significant first.
pub open spec fn be_bytes(n: u32) -> Seq<u8> {
    seq![(n / 16777216) as u8, ((n / 65536) % 256) as u8, ((n / 256) % 256) as u8, (n % 256) as u8]
}

/// The number that the four bytes of `s` from position `i` spell, most
/// significant first.
pub open spec fn be32_at(s: Seq<u8>, i: int) -> int {
    s[i] * 16777216 + s[i + 1] * 65536 + s[i + 2] * 256 + s[i + 3]
}

/// The smaller of the two packet sizes: no padded packet is shorter.
pub open spec fn size_floor(params: PaddingParams) -> int {
    if params.min_packet_size <= params.max_packet_size {
        params.min_packet_size as int
    } else {
        params.max_packet_size as int
    }
}

/// `out` carries `data` padded: the data, its length as a big-endian
/// header, and whatever follows.
pub open spec fn carries_padding(data: Seq<u8>, out: Seq<u8>) -> bool {
    &&& out.len() >= data.len() + 4
    &&& out.subrange(0, data.len() as int) == data
    &&& out.subrange(data.len() as int, data.len() as int + 4) == be_bytes(data.len() as u32)
}

/// The packet sizes that padding may choose for `len` bytes: no more than
/// `len` once `len` reaches the maximum size, else between `len` and the
/// maximum size, and not under the floor.
pub open spec fn padding_target_ok(params: PaddingParams, len: int, target: int) -> bool {
    if len >= params.max_packet_size {
        target <= len
    } else {
        &&& len <= target <= params.max_packet_size
        &&& target >= size_floor(params)
    }
}

/// What padding `data` may give: the data unchanged where the chosen size
/// is no larger, else the data padded to the chosen size (at least the
/// header's four bytes more).
pub open spec fn padding_outcome(data: Seq<u8>, out: Seq<u8>, params: PaddingParams) -> bool {
    if data.len() >= params.max_packet_size {
        out == data
    } else {
        ||| out == data && data.len() >= size_floor(params)
        ||| {
            &&& carries_padding(data, out)
            &&& out.len() <= params.max_packet_size || out.len() == data.len() + 4
            &&& out.len() >= size_floor(params)
        }
    }
}

/// Padding `len` bytes under `params` is defined: the uniform and normal
/// choices need the minimum size to be no larger than the maximum.
pub open spec fn padding_defined(params: PaddingParams, len: int) -> bool {
    match params.distribution {
        PaddingDistribution::Exponential => true,
        PaddingDistribution::Normal => params.min_packet_size <= params.max_packet_size,
        _ => len < params.max_packet_size ==> params.min_packet_size <= params.max_packet_size,
    }
}

/// What normalising `data` to `size` bytes gives: the data unchanged if it
/// is that long already, else the data padded to exactly `size` bytes.
pub open spec fn normalized_outcome(data: Seq<u8>, out: Seq<u8>, size: int) -> bool {
    if data.len() >= size {
        out == data
    } else {
        carries_padding(data, out) && out.len() == size
    }
}

/// The data inside a padded packet, read from the header in its last four
/// bytes; `None` when there is no room for a header or it claims more
/// bytes than precede it.
pub open spec fn unpadded(data: Seq<u8>) -> Option<Seq<u8>> {
    if data.len() < 4 {
        None
    } else if be32_at(data, data.len() - 4) > data.len() - 4 {
        None
    } else {
        Some(data.subrange(0, be32_at(data, data.len() - 4)))
    }
}

/// Position `i` holds a length header that names `i` itself.
pub open spec fn self_header(data: Seq<u8>, i: int) -> bool {
    0 <= i && i + 4 <= data.len() && be32_at(data, i) == i
}

/// `i` is the first position that holds a header naming itself.
pub open spec fn first_self_header(data: Seq<u8>, i: int) -> bool {
    self_header(data, i) && forall|j: int| 0 <= j < i ==> !#[trigger] self_header(data, j)
}

/// The header of `n` reads back as `n`.
proof fn be_bytes_read_back(s: Seq<u8>, i: int, n: u32)
    requires
        0 <= i,
        i + 4 <= s.len(),
        s.subrange(i, i + 4) == be_bytes(n),
    ensures
        be32_at(s, i) == n,
{
    assert(s[i] == be_bytes(n)[0]);
    assert(s[i + 1] == be_bytes(n)[1]);
    assert(s[i + 2] == be_bytes(n)[2]);
    assert(s[i + 3] == be_bytes(n)[3]);
    assert(((n / 16777216) as u8) as int * 16777216 + ((n / 65536) % 256) as u8 as int * 65536
        + ((n / 256) % 256) as u8 as int * 256 + (n % 256) as u8 as int == n) by (bit_vector);
}

/// Padding comes off whole: a packet that carries `data` padded with
/// nothing after the header gives `data` back.
pub proof fn padding_comes_off(data: Seq<u8>, out: Seq<u8>)
    requires
        carries_padding(data, out),
        out.len() == data.len() + 4,
        data.len() <= u32::MAX,
    ensures
        unpadded(out) == Some(data),
{
    be_bytes_read_back(out, data.len() as int, data.len() as u32);
    assert(out.subrange(0, data.len() as int) == data);
}

/// Normalisation comes off whole: in a packet that carries `data` padded,
/// the header after the data is the first header that names its own
/// position, unless the data itself holds an earlier one.
pub proof fn normalization_comes_off(data: Seq<u8>, out: Seq<u8>)
    requires
        carries_padding(data, out),
        data.len() <= u32::MAX,
        forall|j: int| 0 <= j < data.len() ==> !#[trigger] self_header(out, j),
    ensures
        first_self_header(out, data.len() as int),
        out.subrange(0, data.len() as int) == data,
{
    be_bytes_read_back(out, data.len() as int, data.len() as u32);
}

/// A copy of the first `n` bytes of `data`.
fn copy_prefix(data: &[u8], n: usize) -> (r: Vec<u8>)
    requires
        n <= data@.len(),
    ensures
        r@ == data@.subrange(0, n as int),
        n == data@.len() ==> r@ == data@,
{
    let mut r: Vec<u8> = Vec::new();
    let mut i: usize = 0;
    while i < n
        invariant
            n <= data@.len(),
            i <= n,
            r@ == data@.subrange(0, i as int),
        decreases n - i,
    {
        r.push(data[i]);
        i = i + 1;
        assert(r@ =~= data@.subrange(0, i as int));
    }
    assert(n == data@.len() ==> data@.subrange(0, n as int) =~= data@);
    r
}

/// `out` with the bytes of `more` after it.
fn append_bytes(out: &mut Vec<u8>, more: &[u8])
    ensures
        final(out)@ == old(out)@ + more@,
{
    let n = more.len();
    let mut i: usize = 0;
    while i < n
        invariant
            n == more@.len(),
            i <= n,
            out@ == old(out)@ + more@.subrange(0, i as int),
        decreases n - i,
    {
        out.push(more[i]);
        i = i + 1;
        assert(out@ =~= old(out)@ + more@.subrange(0, i as int));
    }
    assert(more@.subrange(0, n as int) =~= more@);
}

/// `data`, its length as a big-endian header, then `tail` random bytes.
fn pad_with_header(data: &[u8], tail: usize) -> (r: Vec<u8>)
    ensures
        carries_padding(data@, r@),
        r@.len() == data@.len() + 4 + tail,
{
    let n = data.len();
    let mut out = copy_prefix(data, n);
    #[verifier::truncate]
    let h: u32 = n as u32;
    out.push((h / 16777216) as u8);
    out.push(((h / 65536) % 256) as u8);
    out.push(((h / 256) % 256) as u8);
    out.push((h % 256) as u8);
    let ghost before = out@;
    assert(before.subrange(0, n as int) =~= data@);
    assert(before.subrange(n as int, n + 4) =~= be_bytes(h));
    let rest = random_bytes(tail);
    append_bytes(&mut out, &rest);
    assert(out@.subrange(0, n as int) =~= before.subrange(0, n as int));
    assert(out@.subrange(n as int, n + 4) =~= before.subrange(n as int, n + 4));
    out
}

/// The number that four bytes of `data` from `i` spell, most significant
/// first.
fn read_be32(data: &[u8], i: usize) -> (r: u32)
    requires
        i + 4 <= data@.len(),
    ensures
        r == be32_at(data@, i as int),
{
    (data[i] as u32) * 16777216 + (data[i + 1] as u32) * 65536 + (data[i + 2] as u32) * 256 + (data[i + 3] as u32)
}

/// Traffic obfuscation state.
#[derive(Debug, Clone)]
pub struct ObfuscationState {
    /// Current obfuscation method
    method: ObfuscationMethod,
    /// Padding parameters
    padding_params: PaddingParams,
    /// Last activity, in milliseconds since the Unix epoch
    last_activity: i64,
    /// Bytes sent without padding
    real_bytes_sent: u64,
    /// Total bytes sent (including padding)
    total_bytes_sent: u64,
}

/// Obfuscation statistics.
#[derive(Debug, Clone, Copy)]
pub struct ObfuscationStats {
    /// Current obfuscation method
    pub method: ObfuscationMethod,
    /// Real bytes sent (without obfuscation)
    pub real_bytes_sent: u64,
    /// Total bytes sent (with obfuscation)
    pub total_bytes_sent: u64,
    /// Padding over real data, in thousandths
    pub overhead_permille: u128,
    /// Last activity, in milliseconds since the Unix epoch
    pub last_activity: i64,
}

impl ObfuscationState {
    /// The obfuscation method in use.
    pub closed spec fn method_spec(&self) -> ObfuscationMethod {
        self.method
    }

    /// The padding parameters in use.
    pub closed spec fn params_spec(&self) -> PaddingParams {
        self.padding_params
    }

    /// Bytes of data sent in padded packets.
    pub closed spec fn real_spec(&self) -> u64 {
        self.real_bytes_sent
    }

    /// Bytes of padded packets sent.
    pub closed spec fn total_spec(&self) -> u64 {
        self.total_bytes_sent
    }

    /// The last recorded activity.
    pub closed spec fn last_activity_spec(&self) -> i64 {
        self.last_activity
    }

    /// Padded packets are never shorter than the data they carry.
    pub open spec fn wf(&self) -> bool {
        self.real_spec() <= self.total_spec()
    }

    /// Obfuscating `len` outgoing bytes is defined: padding needs ordered
    /// sizes where it draws between them, and normalising needs room for
    /// the header once the data is shorter than the target size.
    pub open spec fn outgoing_defined(&self, len: int) -> bool {
        match self.method_spec() {
            ObfuscationMethod::Padding => padding_defined(self.params_spec(), len),
            ObfuscationMethod::SizeNormalization =>
                len < self.params_spec().max_packet_size ==> len + 4 <= self.params_spec().max_packet_size,
            _ => true,
        }
    }

    /// Creates a new obfuscation state.
    pub fn new(method: ObfuscationMethod) -> (r: Self)
        ensures
            r.wf(),
            r.method_spec() == method,
            r.params_spec().min_packet_size == 256,
            r.params_spec().max_packet_size == 1500,
            r.params_spec().distribution == PaddingDistribution::Uniform,
            r.params_spec().padding_rate_millis == 1000,
            r.real_spec() == 0,
            r.total_spec() == 0,
    {
        ObfuscationState {
            method,
            padding_params: PaddingParams::default(),
            last_activity: now_millis(),
            real_bytes_sent: 0,
            total_bytes_sent: 0,
        }
    }

    /// Applies obfuscation to outgoing data.
    pub fn obfuscate_outgoing(&mut self, data: &[u8]) -> (r: Result<Vec<u8>, NetworkError>)
        requires
            old(self).wf(),
            old(self).outgoing_defined(data@.len() as int),
        ensures
            final(self).wf(),
            final(self).method_spec() == old(self).method_spec(),
            final(self).params_spec() == old(self).params_spec(),
            match r {
                Ok(out) => {
                    &&& match old(self).method_spec() {
                        ObfuscationMethod::Padding => padding_outcome(data@, out@, old(self).params_spec()),
                        ObfuscationMethod::SizeNormalization =>
                            normalized_outcome(data@, out@, old(self).params_spec().max_packet_size as int),
                        _ => out@ == data@,
                    }
                    &&& if old(self).method_spec() == ObfuscationMethod::Padding && out@.len() > data@.len() {
                        &&& final(self).real_spec() == old(self).real_spec().saturating_add(data@.len() as u64)
                        &&& final(self).total_spec() == old(self).total_spec().saturating_add(out@.len() as u64)
                    } else {
                        &&& final(self).real_spec() == old(self).real_spec()
                        &&& final(self).total_spec() == old(self).total_spec()
                    }
                },
                Err(_) => false,
            },
            old(self).method_spec() != ObfuscationMethod::TimingObfuscation ==>
                final(self).last_activity_spec() == old(self).last_activity_spec(),
    {
        match self.method {
            ObfuscationMethod::Padding => Ok(self.apply_padding(data)),
            ObfuscationMethod::SizeNormalization => Ok(self.normalize_size(data)),
            ObfuscationMethod::TimingObfuscation => {
                self.last_activity = now_millis();
                Ok(copy_prefix(data, data.len()))
            },
            _ => Ok(copy_prefix(data, data.len())),
        }
    }

    /// Removes obfuscation from incoming data.
    pub fn deobfuscate_incoming(&mut self, data: &[u8]) -> (r: Result<Vec<u8>, NetworkError>)
        ensures
            *final(self) == *old(self),
            old(self).method_spec() == ObfuscationMethod::Padding ==> match unpadded(data@) {
                Some(d) => r matches Ok(out) && out@ == d,
                None => r matches Err(NetworkError::Privacy(PrivacyError::AnonymizationFailed(_))),
            },
            old(self).method_spec() == ObfuscationMethod::SizeNormalization ==> match r {
                Ok(out) => first_self_header(data@, out@.len() as int) && out@ == data@.subrange(0, out@.len() as int),
                Err(e) => (forall|j: int| !#[trigger] self_header(data@, j))
                    && e matches NetworkError::Privacy(PrivacyError::AnonymizationFailed(_)),
            },
            old(self).method_spec() != ObfuscationMethod::Padding
                && old(self).method_spec() != ObfuscationMethod::SizeNormalization ==>
                (r matches Ok(out) && out@ == data@),
    {
        match self.method {
            ObfuscationMethod::Padding => self.remove_padding(data),
            ObfuscationMethod::SizeNormalization => self.denormalize_size(data),
            _ => Ok(copy_prefix(data, data.len())),
        }
    }

    /// The packet size to pad `original_size` bytes to, drawn by the
    /// configured distribution.
    fn calculate_padded_size(&self, original_size: usize) -> (r: usize)
        requires
            padding_defined(self.padding_params, original_size as int),
        ensures
            padding_target_ok(self.padding_params, original_size as int, r as int),
    {
        let min = self.padding_params.min_packet_size;
        let max = self.padding_params.max_packet_size;
        match self.padding_params.distribution {
            PaddingDistribution::Exponential => {
                let base = if original_size > min { original_size } else { min };
                // between 1.0 and 1.5 times the base, in thousandths
                let m = random_in_range(1000, 1499);
                assert((base as int) * (m as int) >= (base as int) * 1000) by (nonlinear_arith)
                    requires m >= 1000;
                assert((base as int) * (m as int) <= (base as int) * 1500) by (nonlinear_arith)
                    requires m <= 1500;
                let scaled: u128 = (base as u128) * (m as u128) / 1000;
                if scaled < max as u128 {
                    scaled as usize
                } else {
                    max
                }
            },
            PaddingDistribution::Normal => {
                let mean = min + (max - min) / 2;
                let spread = (max - min) / 4;
                let offset = random_in_range(0, 2 * spread);
                let mut t = mean - spread + offset;
                if original_size > t {
                    t = original_size;
                }
                if min > t {
                    t = min;
                }
                if t > max {
                    t = max;
                }
                t
            },
            _ => {
                if original_size >= max {
                    return original_size;
                }
                let lo = if original_size > min { original_size } else { min };
                random_in_range(lo, max)
            },
        }
    }

    /// Pads `data` to a size drawn by the configured distribution.
    fn apply_padding(&mut self, data: &[u8]) -> (r: Vec<u8>)
        requires
            old(self).wf(),
            padding_defined(old(self).padding_params, data@.len() as int),
        ensures
            final(self).wf(),
            padding_outcome(data@, r@, old(self).padding_params),
            final(self).method == old(self).method,
            final(self).padding_params == old(self).padding_params,
            final(self).last_activity == old(self).last_activity,
            r@.len() > data@.len() ==> {
                &&& final(self).real_bytes_sent == old(self).real_bytes_sent.saturating_add(data@.len() as u64)
                &&& final(self).total_bytes_sent == old(self).total_bytes_sent.saturating_add(r@.len() as u64)
            },
            r@.len() <= data@.len() ==> {
                &&& final(self).real_bytes_sent == old(self).real_bytes_sent
                &&& final(self).total_bytes_sent == old(self).total_bytes_sent
            },
    {
        let n = data.len();
        let target = self.calculate_padded_size(n);
        if target <= n {
            return copy_prefix(data, n);
        }
        let tail = if target - n >= 4 { target - n - 4 } else { 0 };
        let padded = pad_with_header(data, tail);
        self.real_bytes_sent = self.real_bytes_sent.saturating_add(n as u64);
        self.total_bytes_sent = self.total_bytes_sent.saturating_add(padded.len() as u64);
        padded
    }

    /// Takes the padding off a packet, by the header in its last four bytes.
    fn remove_padding(&self, data: &[u8]) -> (r: Result<Vec<u8>, NetworkError>)
        ensures
            match unpadded(data@) {
                Some(d) => r matches Ok(out) && out@ == d,
                None => r matches Err(NetworkError::Privacy(PrivacyError::AnonymizationFailed(_))),
            },
    {
        if data.len() < 4 {
            return Err(NetworkError::Privacy(PrivacyError::AnonymizationFailed(
                String::from_str("Data too small to contain padding header"),
            )));
        }
        let header_start = data.len() - 4;
        let original_len = read_be32(data, header_start) as usize;
        if original_len > header_start {
            return Err(NetworkError::Privacy(PrivacyError::AnonymizationFailed(
                String::from_str("Invalid padding header"),
            )));
        }
        Ok(copy_prefix(data, original_len))
    }

    /// Pads `data` to exactly the maximum packet size.
    fn normalize_size(&self, data: &[u8]) -> (r: Vec<u8>)
        requires
            data@.len() < self.padding_params.max_packet_size ==> data@.len() + 4 <= self.padding_params.max_packet_size,
        ensures
            normalized_outcome(data@, r@, self.padding_params.max_packet_size as int),
    {
        let target = self.padding_params.max_packet_size;
        let n = data.len();
        if n >= target {
            return copy_prefix(data, n);
        }
        pad_with_header(data, target - n - 4)
    }

    /// Cuts a normalised packet at the first length header that names its
    /// own position.
    fn denormalize_size(&self, data: &[u8]) -> (r: Result<Vec<u8>, NetworkError>)
        ensures
            match r {
                Ok(out) => first_self_header(data@, out@.len() as int) && out@ == data@.subrange(0, out@.len() as int),
                Err(e) => (forall|j: int| !#[trigger] self_header(data@, j))
                    && e matches NetworkError::Privacy(PrivacyError::AnonymizationFailed(_)),
            },
    {
        if data.len() < 4 {
            return Err(NetworkError::Privacy(PrivacyError::AnonymizationFailed(
                String::from_str("Data too small for denormalization"),
            )));
        }
        let mut i: usize = 0;
        while i < data.len() - 3
            invariant
                4 <= data@.len(),
                i + 3 <= data@.len(),
                forall|j: int| 0 <= j < i ==> !#[trigger] self_header(data@, j),
            decreases data@.len() - i,
        {
            let v = read_be32(data, i);
            if v as usize == i {
                return Ok(copy_prefix(data, i));
            }
            i = i + 1;
        }
        Err(NetworkError::Privacy(PrivacyError::AnonymizationFailed(
            String::from_str("Could not find valid length header"),
        )))
    }

    /// Gets obfuscation statistics.
    pub fn get_stats(&self) -> (r: ObfuscationStats)
        requires
            self.wf(),
        ensures
            r.method == self.method_spec(),
            r.real_bytes_sent == self.real_spec(),
            r.total_bytes_sent == self.total_spec(),
            r.overhead_permille == (if self.real_spec() > 0 {
                (self.total_spec() - self.real_spec()) * 1000 / (self.real_spec() as int)
            } else {
                0
            }),
            r.last_activity == self.last_activity_spec(),
    {
        let overhead: u128 = if self.real_bytes_sent > 0 {
            ((self.total_bytes_sent - self.real_bytes_sent) as u128) * 1000 / (self.real_bytes_sent as u128)
        } else {
            0
        };
        ObfuscationStats {
            method: self.method,
            real_bytes_sent: self.real_bytes_sent,
            total_bytes_sent: self.total_bytes_sent,
            overhead_permille: overhead,
            last_activity: self.last_activity,
        }
    }

    /// Updates padding parameters.
    pub fn update_padding_params(&mut self, params: PaddingParams)
        ensures
            final(self).params_spec() == params,
            final(self).method_spec() == old(self).method_spec(),
            final(self).real_spec() == old(self).real_spec(),
            final(self).total_spec() == old(self).total_spec(),
            final(self).last_activity_spec() == old(self).last_activity_spec(),
    {
        self.padding_params = params;
    }
}

impl Default for ObfuscationState {
    fn default() -> (r: Self)
        ensures
            r.wf(),
            r.method_spec() == ObfuscationMethod::Padding,
            r.params_spec().min_packet_size == 256,
            r.params_spec().max_packet_size == 1500,
            r.real_spec() == 0,
            r.total_spec() == 0,
    {
        Self::new(ObfuscationMethod::Padding)
    }
}

} // verus!
