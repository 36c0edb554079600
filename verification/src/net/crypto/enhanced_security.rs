//! The security policy: cipher suites and their strength, the
//! configuration of pinning and auditing, security metrics, key material
//! with an expiry, and the security manager: suite negotiation, sessions
//! made from handshake secrets, authenticated encryption of their traffic,
//! certificate validation with pinning and the running metrics.

use vstd::prelude::*;
use crate::net::error::{NetworkError, SecurityError};
use crate::net::crypto::certificates::{CertificatePinner, pin_accepts};
use crate::net::crypto::key_derivation::{KeyDerivationFunction, KeyRatchet, kdf_okm, ratchet_info};
use crate::net::crypto::session::{
    Session, SessionManager, alive_at, lifetime_fits, keys_from, uuid_bytes, session_info, usable_at, touchable_at,
    lookup_outcome, touch_outcome,
};
use crate::net::crypto::aead::{
    aead_seal, aead_open, random_bytes, aead_len_ok, chacha20poly1305_seal, chacha20poly1305_open,
};
use crate::platform::{now_millis, instant_now, micros_since};

verus! {

/// Secure cipher suite with quantum-resistant options.
#[derive(Debug, Clone, Copy, PartialEq, Eq, Structural)]
pub enum SecureCipherSuite {
    /// ChaCha20-Poly1305 with X25519 (classical)
    ChaCha20Poly1305X25519,
    /// AES-256-GCM with X25519 (classical)
    Aes256GcmX25519,
    /// Kyber768 + ChaCha20-Poly1305 (post-quantum)
    Kyber768ChaCha20,
    /// Kyber1024 + ChaCha20-Poly1305 (post-quantum)
    Kyber1024ChaCha20,
    /// Hybrid X25519 + Kyber1024 + ChaCha20 (hybrid)
    HybridX25519Kyber1024ChaCha20,
    /// Hybrid X25519 + Kyber1024 + AES-256-GCM (hybrid)
    HybridX25519Kyber1024Aes256,
}

impl SecureCipherSuite {
    pub open spec fn level(self) -> u16 {
        match self {
            SecureCipherSuite::ChaCha20Poly1305X25519 | SecureCipherSuite::Aes256GcmX25519 => 128,
            SecureCipherSuite::Kyber768ChaCha20 => 192,
            _ => 256,
        }
    }

    pub open spec fn post_quantum(self) -> bool {
        !(self is ChaCha20Poly1305X25519 || self is Aes256GcmX25519)
    }

    pub open spec fn hybrid(self) -> bool {
        self is HybridX25519Kyber1024ChaCha20 || self is HybridX25519Kyber1024Aes256
    }

    /// The suite's name, as peers advertise it among their capabilities.
    pub open spec fn name(self) -> Seq<char> {
        match self {
            SecureCipherSuite::ChaCha20Poly1305X25519 => "ChaCha20Poly1305X25519"@,
            SecureCipherSuite::Aes256GcmX25519 => "Aes256GcmX25519"@,
            SecureCipherSuite::Kyber768ChaCha20 => "Kyber768ChaCha20"@,
            SecureCipherSuite::Kyber1024ChaCha20 => "Kyber1024ChaCha20"@,
            SecureCipherSuite::HybridX25519Kyber1024ChaCha20 => "HybridX25519Kyber1024ChaCha20"@,
            SecureCipherSuite::HybridX25519Kyber1024Aes256 => "HybridX25519Kyber1024Aes256"@,
        }
    }

    /// Returns the security level in bits.
    pub fn security_level(self) -> (r: u16)
        ensures
            r == self.level(),
    {
        match self {
            SecureCipherSuite::ChaCha20Poly1305X25519 | SecureCipherSuite::Aes256GcmX25519 => 128,
            SecureCipherSuite::Kyber768ChaCha20 => 192,
            SecureCipherSuite::Kyber1024ChaCha20
            | SecureCipherSuite::HybridX25519Kyber1024ChaCha20
            | SecureCipherSuite::HybridX25519Kyber1024Aes256 => 256,
        }
    }

    /// Returns whether this suite provides post-quantum security.
    pub fn is_post_quantum(self) -> (r: bool)
        ensures
            r == self.post_quantum(),
    {
        match self {
            SecureCipherSuite::Kyber768ChaCha20
            | SecureCipherSuite::Kyber1024ChaCha20
            | SecureCipherSuite::HybridX25519Kyber1024ChaCha20
            | SecureCipherSuite::HybridX25519Kyber1024Aes256 => true,
            _ => false,
        }
    }

    /// Returns whether this is a hybrid classical/post-quantum suite.
    pub fn is_hybrid(self) -> (r: bool)
        ensures
            r == self.hybrid(),
    {
        match self {
            SecureCipherSuite::HybridX25519Kyber1024ChaCha20 | SecureCipherSuite::HybridX25519Kyber1024Aes256 => true,
            _ => false,
        }
    }

    /// The suite's name.
    pub fn suite_name(self) -> (r: &'static str)
        ensures
            r@ == self.name(),
    {
        match self {
            SecureCipherSuite::ChaCha20Poly1305X25519 => "ChaCha20Poly1305X25519",
            SecureCipherSuite::Aes256GcmX25519 => "Aes256GcmX25519",
            SecureCipherSuite::Kyber768ChaCha20 => "Kyber768ChaCha20",
            SecureCipherSuite::Kyber1024ChaCha20 => "Kyber1024ChaCha20",
            SecureCipherSuite::HybridX25519Kyber1024ChaCha20 => "HybridX25519Kyber1024ChaCha20",
            SecureCipherSuite::HybridX25519Kyber1024Aes256 => "HybridX25519Kyber1024Aes256",
        }
    }
}

/// A hybrid suite is post-quantum, and a post-quantum suite offers at
/// least 192 bits, more than any classical suite.
pub proof fn suite_strength(s: SecureCipherSuite)
    ensures
        s.hybrid() ==> s.post_quantum(),
        s.post_quantum() ==> s.level() >= 192,
        !s.post_quantum() ==> s.level() == 128,
{
}

/// Certificate pin validation modes.
#[derive(Debug, Clone, Copy, PartialEq, Eq, Structural)]
pub enum PinValidationMode {
    /// Strict: All connections must match pinned certificates
    Strict,
    /// Permissive: Allow non-pinned certificates with warnings
    Permissive,
    /// Advisory: Log mismatches but don't block connections
    Advisory,
}

/// Certificate pinning configuration.
#[derive(Debug, Clone)]
pub struct CertificatePinningConfig {
    /// Enable certificate pinning
    pub enabled: bool,
    /// Pinned certificate hashes
    pub pinned_hashes: Vec<[u8; 32]>,
    /// Allow backup certificates (for key rotation)
    pub allow_backup_certs: bool,
    /// Pin validation mode
    pub validation_mode: PinValidationMode,
}

/// Security audit configuration.
#[derive(Debug, Clone)]
pub struct SecurityAuditConfig {
    /// Enable security event logging
    pub enable_audit_log: bool,
    /// Log encryption/decryption operations
    pub log_crypto_ops: bool,
    /// Log key generation events
    pub log_key_events: bool,
    /// Log authentication attempts
    pub log_auth_attempts: bool,
    /// Security event retention period, in seconds
    pub retention_period: u64,
}

/// Configuration for enhanced security features.
#[derive(Debug, Clone)]
pub struct EnhancedSecurityConfig {
    /// Enable post-quantum cryptography
    pub enable_post_quantum: bool,
    /// Preferred cipher suites (in order of preference)
    pub preferred_cipher_suites: Vec<SecureCipherSuite>,
    /// Key rotation interval, in seconds
    pub key_rotation_interval: u64,
    /// Session timeout, in seconds
    pub session_timeout: u64,
    /// Enable constant-time operations
    pub constant_time_ops: bool,
    /// Certificate pinning configuration
    pub certificate_pinning: CertificatePinningConfig,
    /// Security audit configuration
    pub audit_config: SecurityAuditConfig,
}

impl Default for EnhancedSecurityConfig {
    fn default() -> (r: Self)
        ensures
            r.enable_post_quantum,
            r.preferred_cipher_suites@ == seq![
                SecureCipherSuite::HybridX25519Kyber1024ChaCha20,
                SecureCipherSuite::Kyber1024ChaCha20,
                SecureCipherSuite::ChaCha20Poly1305X25519,
            ],
            r.key_rotation_interval == 300,
            r.session_timeout == 3600,
            r.constant_time_ops,
            r.certificate_pinning.enabled,
            r.certificate_pinning.pinned_hashes@.len() == 0,
            r.certificate_pinning.allow_backup_certs,
            r.certificate_pinning.validation_mode == PinValidationMode::Permissive,
            r.audit_config.enable_audit_log,
            !r.audit_config.log_crypto_ops,
            r.audit_config.log_key_events,
            r.audit_config.log_auth_attempts,
            r.audit_config.retention_period == 86400 * 30,
    {
        let mut suites = Vec::new();
        suites.push(SecureCipherSuite::HybridX25519Kyber1024ChaCha20);
        suites.push(SecureCipherSuite::Kyber1024ChaCha20);
        suites.push(SecureCipherSuite::ChaCha20Poly1305X25519);
        assert(suites@ =~= seq![
            SecureCipherSuite::HybridX25519Kyber1024ChaCha20,
            SecureCipherSuite::Kyber1024ChaCha20,
            SecureCipherSuite::ChaCha20Poly1305X25519,
        ]);
        EnhancedSecurityConfig {
            enable_post_quantum: true,
            preferred_cipher_suites: suites,
            key_rotation_interval: 300,
            session_timeout: 3600,
            constant_time_ops: true,
            certificate_pinning: CertificatePinningConfig {
                enabled: true,
                pinned_hashes: Vec::new(),
                allow_backup_certs: true,
                validation_mode: PinValidationMode::Permissive,
            },
            audit_config: SecurityAuditConfig {
                enable_audit_log: true,
                log_crypto_ops: false,
                log_key_events: true,
                log_auth_attempts: true,
                retention_period: 86400 * 30,
            },
        }
    }
}

/// Types of security events.
#[derive(Debug, Clone, Copy, PartialEq, Eq, Structural)]
pub enum SecurityEventType {
    /// Key generation event
    KeyGeneration,
    /// Key rotation event
    KeyRotation,
    /// Encryption operation
    Encryption,
    /// Decryption operation
    Decryption,
    /// Authentication attempt
    Authentication,
    /// Certificate validation
    CertificateValidation,
    /// Security violation
    SecurityViolation,
    /// Session creation
    SessionCreated,
    /// Session terminated
    SessionTerminated,
}

/// Security event severity levels.
#[derive(Debug, Clone, Copy, PartialEq, Eq, Structural)]
pub enum SecurityEventSeverity {
    /// Informational event
    Info,
    /// Warning event
    Warning,
    /// Error event
    Error,
    /// Critical security event
    Critical,
}

/// A security event for the audit log.
#[derive(Debug, Clone)]
pub struct SecurityEvent {
    /// When it happened, in milliseconds since the Unix epoch
    pub timestamp: i64,
    /// Event type
    pub event_type: SecurityEventType,
    /// Session concerned, if any
    pub session_id: Option<u128>,
    /// Peer concerned, if any
    pub peer_id: Option<String>,
    /// Further details, as key and value
    pub details: Vec<(String, String)>,
    /// Severity
    pub severity: SecurityEventSeverity,
}

/// Security metrics for monitoring.
#[derive(Debug, Clone, Copy, PartialEq, Eq, Structural)]
pub struct SecurityMetrics {
    /// Total encryptions performed
    pub encryptions_count: u64,
    /// Total decryptions performed
    pub decryptions_count: u64,
    /// Total key generations
    pub key_generations_count: u64,
    /// Total key rotations
    pub key_rotations_count: u64,
    /// Authentication successes
    pub auth_successes: u64,
    /// Authentication failures
    pub auth_failures: u64,
    /// Certificate validation successes
    pub cert_validations_success: u64,
    /// Certificate validation failures
    pub cert_validations_failure: u64,
    /// Post-quantum operations count
    pub pq_operations_count: u64,
    /// Average operation latency (microseconds)
    pub avg_operation_latency_us: u64,
}

/// All counters at zero.
pub open spec fn zero_metrics() -> SecurityMetrics {
    SecurityMetrics {
        encryptions_count: 0,
        decryptions_count: 0,
        key_generations_count: 0,
        key_rotations_count: 0,
        auth_successes: 0,
        auth_failures: 0,
        cert_validations_success: 0,
        cert_validations_failure: 0,
        pq_operations_count: 0,
        avg_operation_latency_us: 0,
    }
}

impl Default for SecurityMetrics {
    fn default() -> (r: Self)
        ensures
            r == zero_metrics(),
    {
        SecurityMetrics {
            encryptions_count: 0,
            decryptions_count: 0,
            key_generations_count: 0,
            key_rotations_count: 0,
            auth_successes: 0,
            auth_failures: 0,
            cert_validations_success: 0,
            cert_validations_failure: 0,
            pq_operations_count: 0,
            avg_operation_latency_us: 0,
        }
    }
}

/// The running average after one more operation of latency `new_latency`,
/// when `total_ops` operations (this one included) have been counted.
pub open spec fn next_average(avg: u64, total_ops: nat, new_latency: u64) -> int {
    if total_ops > 0 {
        (avg * (total_ops - 1) + new_latency) / (total_ops as int)
    } else {
        new_latency as int
    }
}

/// `t + d`, or the largest time when that is beyond it.
fn add_capped(t: i64, d: i64) -> (r: i64)
    requires
        d >= 0,
    ensures
        r == (if t + d > i64::MAX { i64::MAX as int } else { t + d }),
{
    if t > i64::MAX - d {
        i64::MAX
    } else {
        t + d
    }
}

/// Secure key material with a lifetime; times are milliseconds since the
/// Unix epoch.
pub struct SecureKeyMaterial {
    /// The key bytes
    key: Vec<u8>,
    /// Key derivation function used
    kdf: KeyDerivationFunction,
    /// Key generation time
    created_at: i64,
    /// Key expiry time
    expires_at: i64,
}

impl SecureKeyMaterial {
    pub closed spec fn key_bytes(&self) -> Seq<u8> {
        self.key@
    }

    pub closed spec fn kdf_spec(&self) -> KeyDerivationFunction {
        self.kdf
    }

    pub closed spec fn created(&self) -> i64 {
        self.created_at
    }

    pub closed spec fn expires(&self) -> i64 {
        self.expires_at
    }

    /// Key material created at `now` that expires `lifetime_ms` later (at
    /// the end of time's range if that is beyond it).
    pub fn new_at(key: Vec<u8>, kdf: KeyDerivationFunction, lifetime_ms: u64, now: i64) -> (r: Self)
        ensures
            r.key_bytes() == key@,
            r.kdf_spec() == kdf,
            r.created() == now,
            r.expires() == (if now + lifetime_ms > i64::MAX { i64::MAX as int } else { now + lifetime_ms }),
    {
        let e: i128 = now as i128 + lifetime_ms as i128;
        let expires_at = if e > i64::MAX as i128 {
            i64::MAX
        } else {
            e as i64
        };
        SecureKeyMaterial { key, kdf, created_at: now, expires_at }
    }

    /// Key material created now, with a lifetime in milliseconds.
    pub fn new(key: Vec<u8>, kdf: KeyDerivationFunction, lifetime_ms: u64) -> (r: Self)
        ensures
            r.key_bytes() == key@,
            r.kdf_spec() == kdf,
            r.expires() == (if r.created() + lifetime_ms > i64::MAX { i64::MAX as int } else { r.created() + lifetime_ms }),
    {
        let now = now_millis();
        SecureKeyMaterial::new_at(key, kdf, lifetime_ms, now)
    }

    /// Returns the key bytes.
    pub fn key(&self) -> (r: &[u8])
        ensures
            r@ == self.key_bytes(),
    {
        self.key.as_slice()
    }

    /// Whether the key has expired at time `now`.
    pub fn is_expired_at(&self, now: i64) -> (r: bool)
        ensures
            r == self.expired_at(now),
    {
        now > self.expires_at
    }

    /// The key has expired at `now`.
    pub open spec fn expired_at(&self, now: i64) -> bool {
        now > self.expires()
    }

    /// Whether the key has expired now.
    pub fn is_expired(&self) -> (r: bool)
        ensures
            exists|now: i64| r == #[trigger] self.expired_at(now),
    {
        let now = now_millis();
        self.is_expired_at(now)
    }

    /// Replaces the key with the ratchet's next key, valid for an hour from
    /// `now`.
    pub fn rotate_at(&mut self, ratchet: &mut KeyRatchet, now: i64) -> (r: Result<(), NetworkError>)
        requires
            old(ratchet).gen() < u64::MAX,
        ensures
            ({
                let l = old(ratchet).kdf_spec().out_len();
                let okm = kdf_okm(
                    old(ratchet).kdf_spec(),
                    None,
                    old(ratchet).chain(),
                    ratchet_info(old(ratchet).gen() as nat),
                    2 * l,
                );
                &&& r is Ok
                &&& final(self).key_bytes() == okm.subrange(l as int, 2 * l as int)
                &&& final(self).created() == now
                &&& final(self).expires() == (if now + 3_600_000 > i64::MAX { i64::MAX as int } else { now + 3_600_000 })
                &&& final(self).kdf_spec() == old(self).kdf_spec()
                &&& final(ratchet).gen() == old(ratchet).gen() + 1
            }),
    {
        let new_key = match ratchet.advance() {
            Ok(k) => k,
            Err(e) => {
                return Err(e);
            },
        };
        self.key = new_key;
        self.created_at = now;
        self.expires_at = add_capped(now, 3_600_000);
        Ok(())
    }
}

/// Whether a peer advertising `caps` supports `suite`: it names the suite,
/// or the suite is the ChaCha20-Poly1305/X25519 fallback every peer has.
pub open spec fn peer_supports(caps: Seq<Seq<char>>, suite: SecureCipherSuite) -> bool {
    caps.contains(suite.name()) || suite == SecureCipherSuite::ChaCha20Poly1305X25519
}

/// The position of the first preferred suite the peer supports, from `i` on.
pub open spec fn first_supported(prefs: Seq<SecureCipherSuite>, caps: Seq<Seq<char>>, i: int) -> Option<SecureCipherSuite>
    decreases prefs.len() - i,
{
    if i < 0 || i >= prefs.len() {
        None
    } else if peer_supports(caps, prefs[i]) {
        Some(prefs[i])
    } else {
        first_supported(prefs, caps, i + 1)
    }
}

/// The negotiated suite: the caller's preference if the peer supports it,
/// else the first configured preference it supports, else the default (the
/// hybrid suite when post-quantum is enabled, the classical one otherwise).
pub open spec fn negotiated_suite(
    pq_enabled: bool,
    prefs: Seq<SecureCipherSuite>,
    caps: Seq<Seq<char>>,
    preferred: Option<SecureCipherSuite>,
) -> SecureCipherSuite {
    if preferred is Some && peer_supports(caps, preferred->0) {
        preferred->0
    } else {
        match first_supported(prefs, caps, 0) {
            Some(s) => s,
            None => if pq_enabled {
                SecureCipherSuite::HybridX25519Kyber1024ChaCha20
            } else {
                SecureCipherSuite::ChaCha20Poly1305X25519
            },
        }
    }
}

/// The character sequences of a list of strings.
pub open spec fn caps_view(v: Seq<String>) -> Seq<Seq<char>> {
    v.map_values(|s: String| s@)
}

/// Calls `constant_time_eq::constant_time_eq` on the bytes of two strings.
/// Trusted claim: the result says whether the two strings are equal, as
/// equal texts have equal UTF-8 bytes and the crate compares bytes.
#[verifier::external_body]
fn ct_text_eq(a: &str, b: &str) -> (r: bool)
    ensures
        r == (a@ == b@),
{
    constant_time_eq::constant_time_eq(a.as_bytes(), b.as_bytes())
}

/// Whether a peer advertising `caps` supports `suite`; every capability is
/// compared, in constant time.
fn suite_supported(suite: SecureCipherSuite, caps: &Vec<String>) -> (r: bool)
    ensures
        r == peer_supports(caps_view(caps@), suite),
{
    let name = suite.suite_name();
    let ghost cv = caps_view(caps@);
    let mut supported = false;
    let n = caps.len();
    let mut i: usize = 0;
    while i < n
        invariant
            n == caps@.len(),
            cv == caps_view(caps@),
            name@ == suite.name(),
            i <= n,
            supported == (exists|k: int| 0 <= k < i && cv[k] == suite.name()),
        decreases n - i,
    {
        assert(cv[i as int] == caps@[i as int]@);
        let m = ct_text_eq(caps[i].as_str(), name);
        supported = supported || m;
        i = i + 1;
    }
    proof {
        if supported {
            let k = choose|k: int| 0 <= k < n && cv[k] == suite.name();
            assert(cv.contains(suite.name()));
        } else {
            assert(!cv.contains(suite.name()));
        }
    }
    supported || suite == SecureCipherSuite::ChaCha20Poly1305X25519
}

/// Whether `frame` is a 12-byte nonce followed by the ChaCha20-Poly1305
/// sealing of `data` under `key` with that nonce, which opens back to
/// `data`.
pub open spec fn frame_seals(key: Seq<u8>, frame: Seq<u8>, data: Seq<u8>) -> bool {
    &&& frame.len() >= 12
    &&& frame.skip(12) == chacha20poly1305_seal(key, frame.take(12), data)
    &&& chacha20poly1305_open(key, frame.take(12), frame.skip(12)) == Some(data)
}

/// What a frame opens to under `key`: its first 12 bytes are the nonce and
/// the rest is the sealed message; a frame shorter than a nonce opens to
/// nothing.
pub open spec fn frame_opening(key: Seq<u8>, frame: Seq<u8>) -> Option<Seq<u8>> {
    if frame.len() < 12 {
        None
    } else {
        chacha20poly1305_open(key, frame.take(12), frame.skip(12))
    }
}

/// A frame that `encrypt_secure` sealed under a key opens, under the same
/// key, to exactly the data that was sealed: while the session keeps its
/// client write key, `decrypt_secure` gives that data back, and nothing
/// else.
pub proof fn sealed_frame_opens_to_its_data(key: Seq<u8>, frame: Seq<u8>, data: Seq<u8>)
    requires
        frame_seals(key, frame, data),
    ensures
        frame_opening(key, frame) == Some(data),
{
}

/// Encrypting for the session `found` data of `len` bytes (with
/// `encrypt_secure`, or the security layer's `encrypt`) succeeds when the session is usable at `now`, the data fits the cipher's
/// limit, and the session can be marked active at `later`.
pub open spec fn sealable(found: Option<Session>, max_idle: u64, len: nat, now: i64, later: i64) -> bool {
    &&& found matches Some(s)
    &&& usable_at(found->0, now, max_idle)
    &&& aead_len_ok(len)
    &&& touchable_at(found->0, later)
}

/// `decrypt_secure` succeeds for the session `found` and `frame` when the
/// session is usable at `now`, the frame opens under the session's client
/// write key, and the session can be marked active at `later`.
pub open spec fn openable(found: Option<Session>, max_idle: u64, frame: Seq<u8>, now: i64, later: i64) -> bool {
    &&& found matches Some(s)
    &&& usable_at(found->0, now, max_idle)
    &&& frame_opening(found->0.keys.client_write_key@, frame) is Some
    &&& touchable_at(found->0, later)
}

/// A copy of a byte slice.
fn bytes_of(v: &[u8]) -> (r: Vec<u8>)
    ensures
        r@ == v@,
{
    let mut r: Vec<u8> = Vec::new();
    let n = v.len();
    let mut i: usize = 0;
    while i < n
        invariant
            n == v@.len(),
            i <= n,
            r@ == v@.subrange(0, i as int),
        decreases n - i,
    {
        r.push(v[i]);
        i = i + 1;
        assert(r@ =~= v@.subrange(0, i as int));
    }
    assert(v@.subrange(0, n as int) =~= v@);
    r
}

/// The enhanced security manager: its configuration, its metrics, the
/// certificate pinner it validates with and the sessions it encrypts for.
pub struct EnhancedSecurityManager {
    config: EnhancedSecurityConfig,
    metrics: SecurityMetrics,
    cert_pinner: CertificatePinner,
    session_manager: SessionManager,
}

impl EnhancedSecurityManager {
    pub closed spec fn pq_enabled(&self) -> bool {
        self.config.enable_post_quantum
    }

    pub closed spec fn preferences(&self) -> Seq<SecureCipherSuite> {
        self.config.preferred_cipher_suites@
    }

    pub closed spec fn pinning_enabled(&self) -> bool {
        self.config.certificate_pinning.enabled
    }

    pub closed spec fn pin_mode(&self) -> PinValidationMode {
        self.config.certificate_pinning.validation_mode
    }

    pub closed spec fn pins(&self) -> Seq<Seq<u8>> {
        self.cert_pinner.pins()
    }

    pub closed spec fn backup_allowed(&self) -> bool {
        self.cert_pinner.allows_backup()
    }

    pub closed spec fn metrics_spec(&self) -> SecurityMetrics {
        self.metrics
    }

    pub closed spec fn sessions(&self) -> SessionManager {
        self.session_manager
    }

    /// The manager's invariant: its sessions are well formed.
    pub open spec fn wf(&self) -> bool {
        self.sessions().wf()
    }

    /// A manager over `config`, with zeroed metrics and a pinner that has no
    /// pins and allows backup certificates.
    pub fn new(config: EnhancedSecurityConfig) -> (r: Result<Self, NetworkError>)
        ensures
            r matches Ok(m) && m.metrics_spec() == zero_metrics() && m.pins().len() == 0 && m.backup_allowed()
                && m.pq_enabled() == config.enable_post_quantum && m.preferences() == config.preferred_cipher_suites@
                && m.pinning_enabled() == config.certificate_pinning.enabled && m.pin_mode()
                == config.certificate_pinning.validation_mode && m.wf() && m.sessions().entries().len() == 0,
    {
        Ok(
            EnhancedSecurityManager {
                config,
                metrics: SecurityMetrics::default(),
                cert_pinner: CertificatePinner::new(),
                session_manager: SessionManager::new(),
            },
        )
    }

    /// The cipher suite to use with a peer advertising `peer_capabilities`.
    pub fn select_cipher_suite(&self, peer_capabilities: &Vec<String>, preferred: Option<SecureCipherSuite>) -> (r:
        SecureCipherSuite)
        ensures
            r == negotiated_suite(self.pq_enabled(), self.preferences(), caps_view(peer_capabilities@), preferred),
    {
        let ghost caps = caps_view(peer_capabilities@);
        match preferred {
            Some(suite) => {
                if suite_supported(suite, peer_capabilities) {
                    return suite;
                }
            },
            None => {},
        }
        let ghost prefs = self.preferences();
        let n = self.config.preferred_cipher_suites.len();
        let mut i: usize = 0;
        while i < n
            invariant
                n == prefs.len(),
                prefs == self.preferences(),
                caps == caps_view(peer_capabilities@),
                !(preferred is Some && peer_supports(caps, preferred->0)),
                i <= n,
                first_supported(prefs, caps, 0) == first_supported(prefs, caps, i as int),
            decreases n - i,
        {
            let suite = self.config.preferred_cipher_suites[i];
            if suite_supported(suite, peer_capabilities) {
                return suite;
            }
            i = i + 1;
        }
        if self.config.enable_post_quantum {
            SecureCipherSuite::HybridX25519Kyber1024ChaCha20
        } else {
            SecureCipherSuite::ChaCha20Poly1305X25519
        }
    }

    /// Validates a certificate chain (DER certificates, end entity first)
    /// with pinning. `chain_check` is the outcome of the standard chain
    /// validation. An empty chain fails and is counted as a failure; a chain
    /// that fails standard validation fails with that error; in strict mode
    /// the end entity must pass pinning; otherwise the validation succeeds
    /// and is counted as a success.
    pub fn validate_certificate_with_pinning(&mut self, cert_chain: &Vec<Vec<u8>>, chain_check: Result<(), NetworkError>) -> (r:
        Result<(), NetworkError>)
        requires
            old(self).metrics_spec().cert_validations_failure < u64::MAX,
            old(self).metrics_spec().cert_validations_success < u64::MAX,
        ensures
            final(self).pins() == old(self).pins(),
            final(self).backup_allowed() == old(self).backup_allowed(),
            final(self).pq_enabled() == old(self).pq_enabled(),
            final(self).preferences() == old(self).preferences(),
            final(self).pinning_enabled() == old(self).pinning_enabled(),
            final(self).pin_mode() == old(self).pin_mode(),
            final(self).sessions() == old(self).sessions(),
            ({
                let m0 = old(self).metrics_spec();
                let m1 = final(self).metrics_spec();
                if cert_chain@.len() == 0 {
                    &&& r matches Err(NetworkError::Security(SecurityError::Certificate(msg)))
                    &&& msg@ == "Empty certificate chain"@
                    &&& m1 == SecurityMetrics { cert_validations_failure: (m0.cert_validations_failure + 1) as u64, ..m0 }
                } else if chain_check is Err {
                    &&& r == chain_check
                    &&& m1 == m0
                } else if old(self).pinning_enabled() && old(self).pin_mode() == PinValidationMode::Strict
                    && !pin_accepts(old(self).pins(), old(self).backup_allowed(), cert_chain@[0]@) {
                    &&& r matches Err(NetworkError::Security(SecurityError::Certificate(_)))
                    &&& m1 == m0
                } else {
                    &&& r is Ok
                    &&& m1 == SecurityMetrics { cert_validations_success: (m0.cert_validations_success + 1) as u64, ..m0 }
                }
            }),
    {
        if cert_chain.len() == 0 {
            self.metrics.cert_validations_failure = self.metrics.cert_validations_failure + 1;
            let msg = String::from_str("Empty certificate chain");
            proof {
                reveal_strlit("Empty certificate chain");
            }
            return Err(NetworkError::Security(SecurityError::Certificate(msg)));
        }
        match chain_check {
            Err(e) => {
                return Err(e);
            },
            Ok(()) => {},
        }
        if self.config.certificate_pinning.enabled {
            match self.config.certificate_pinning.validation_mode {
                PinValidationMode::Strict => {
                    match self.cert_pinner.validate(cert_chain[0].as_slice()) {
                        Err(e) => {
                            return Err(e);
                        },
                        Ok(()) => {},
                    }
                },
                PinValidationMode::Permissive | PinValidationMode::Advisory => {},
            }
        }
        self.metrics.cert_validations_success = self.metrics.cert_validations_success + 1;
        Ok(())
    }

    /// Folds one more operation's latency into the running average over
    /// all encryptions, decryptions and key generations counted so far.
    pub fn update_avg_latency(&mut self, new_latency: u64)
        requires
            old(self).metrics_spec().encryptions_count + old(self).metrics_spec().decryptions_count
                + old(self).metrics_spec().key_generations_count <= u64::MAX,
            old(self).metrics_spec().avg_operation_latency_us * (old(self).metrics_spec().encryptions_count
                + old(self).metrics_spec().decryptions_count + old(self).metrics_spec().key_generations_count)
                + new_latency <= u64::MAX,
        ensures
            ({
                let m0 = old(self).metrics_spec();
                let total = (m0.encryptions_count + m0.decryptions_count + m0.key_generations_count) as nat;
                final(self).metrics_spec() == SecurityMetrics {
                    avg_operation_latency_us: next_average(m0.avg_operation_latency_us, total, new_latency) as u64,
                    ..m0
                }
            }),
            final(self).pins() == old(self).pins(),
            final(self).backup_allowed() == old(self).backup_allowed(),
            final(self).pq_enabled() == old(self).pq_enabled(),
            final(self).preferences() == old(self).preferences(),
            final(self).pinning_enabled() == old(self).pinning_enabled(),
            final(self).pin_mode() == old(self).pin_mode(),
            final(self).sessions() == old(self).sessions(),
    {
        let total_ops = self.metrics.encryptions_count + self.metrics.decryptions_count
            + self.metrics.key_generations_count;
        if total_ops > 0 {
            let avg = self.metrics.avg_operation_latency_us;
            assert(avg * (total_ops - 1) <= avg * total_ops) by (nonlinear_arith)
                requires
                    total_ops > 0,
            ;
            let v = (avg * (total_ops - 1) + new_latency) / total_ops;
            self.metrics.avg_operation_latency_us = v;
        } else {
            self.metrics.avg_operation_latency_us = new_latency;
        }
    }

    /// Folds a measured latency into the average when the running sum fits
    /// in 64 bits; beyond that the average is left as it was.
    fn record_latency(&mut self, latency: u64)
        ensures
            ({
                let m0 = old(self).metrics_spec();
                let total = (m0.encryptions_count + m0.decryptions_count + m0.key_generations_count) as nat;
                final(self).metrics_spec() == SecurityMetrics {
                    avg_operation_latency_us: if total <= u64::MAX && m0.avg_operation_latency_us * total + latency
                        <= u64::MAX {
                        next_average(m0.avg_operation_latency_us, total, latency) as u64
                    } else {
                        m0.avg_operation_latency_us
                    },
                    ..m0
                }
            }),
            final(self).pins() == old(self).pins(),
            final(self).backup_allowed() == old(self).backup_allowed(),
            final(self).pq_enabled() == old(self).pq_enabled(),
            final(self).preferences() == old(self).preferences(),
            final(self).pinning_enabled() == old(self).pinning_enabled(),
            final(self).pin_mode() == old(self).pin_mode(),
            final(self).sessions() == old(self).sessions(),
    {
        let total: u128 = self.metrics.encryptions_count as u128 + self.metrics.decryptions_count as u128
            + self.metrics.key_generations_count as u128;
        if total <= u64::MAX as u128 {
            let avg = self.metrics.avg_operation_latency_us as u128;
            assert(avg * total <= 0xffff_ffff_ffff_ffffu128 * 0xffff_ffff_ffff_ffffu128) by (nonlinear_arith)
                requires
                    avg <= 0xffff_ffff_ffff_ffffu128,
                    total <= 0xffff_ffff_ffff_ffffu128,
            ;
            if avg * total + latency as u128 <= u64::MAX as u128 {
                self.update_avg_latency(latency);
            }
        }
    }

    /// The handshake's last step, once the key exchange (made by the caller,
    /// classical or post-quantum) has produced `shared_secret` with the peer
    /// `peer_id`: a session is created from the secret with HKDF-SHA256, the
    /// key generation is counted, and so is a post-quantum operation when
    /// the exchange was post-quantum. Returns the new session's id.
    pub fn complete_handshake(&mut self, peer_id: String, shared_secret: Vec<u8>, post_quantum: bool) -> (r: Result<
        u128,
        NetworkError,
    >)
        requires
            old(self).wf(),
            old(self).metrics_spec().key_generations_count < u64::MAX,
            old(self).metrics_spec().pq_operations_count < u64::MAX,
        ensures
            final(self).wf(),
            final(self).pins() == old(self).pins(),
            final(self).backup_allowed() == old(self).backup_allowed(),
            final(self).pq_enabled() == old(self).pq_enabled(),
            final(self).preferences() == old(self).preferences(),
            final(self).pinning_enabled() == old(self).pinning_enabled(),
            final(self).pin_mode() == old(self).pin_mode(),
            r matches Ok(id) ==> final(self).sessions().session(id) matches Some(s) && s.state.peer_id@ == peer_id@
                && s.state.rotation_count == 0 && !s.state.authenticated && s.ratchet.chain() == shared_secret@,
            r matches Ok(id) ==> final(self).sessions().session(id) matches Some(s) && {
                &&& s.state.expires_at == s.state.created_at + old(self).sessions().lifetime()
                &&& s.state.last_activity == s.state.created_at
                &&& keys_from(
                    s.keys,
                    kdf_okm(KeyDerivationFunction::HkdfSha256, Some(uuid_bytes(id)), shared_secret@, session_info(peer_id@), 160),
                )
                &&& s.ratchet.kdf_spec() == KeyDerivationFunction::HkdfSha256
            },
            r matches Ok(id) ==> forall|q: u128| q != id ==> #[trigger] final(self).sessions().session(q) == old(self).sessions().session(q),
            exists|now: i64| (r is Ok <==> #[trigger] lifetime_fits(old(self).sessions().lifetime(), now)),
            r is Err ==> (r matches Err(NetworkError::Security(SecurityError::SessionExpired(_))) && final(self).sessions().entries() == old(self).sessions().entries()),
            r is Ok ==> final(self).metrics_spec() == (SecurityMetrics {
                key_generations_count: (old(self).metrics_spec().key_generations_count + 1) as u64,
                pq_operations_count: if post_quantum {
                    (old(self).metrics_spec().pq_operations_count + 1) as u64
                } else {
                    old(self).metrics_spec().pq_operations_count
                },
                ..old(self).metrics_spec()
            }),
            r is Err ==> final(self).metrics_spec() == old(self).metrics_spec(),
    {
        let id = match self.session_manager.create_session(peer_id, shared_secret, KeyDerivationFunction::HkdfSha256) {
            Ok(id) => id,
            Err(e) => {
                return Err(e);
            },
        };
        if post_quantum {
            self.metrics.pq_operations_count = self.metrics.pq_operations_count + 1;
        }
        self.metrics.key_generations_count = self.metrics.key_generations_count + 1;
        Ok(id)
    }

    /// Encrypts `data` for the session `session_id`: a fresh random 12-byte
    /// nonce followed by the ChaCha20-Poly1305 sealing of the data under the
    /// session's client write key. The session must exist and be usable
    /// now; it is then marked active (which may rotate its keys), and the
    /// encryption is counted.
    pub fn encrypt_secure(&mut self, data: &[u8], session_id: u128) -> (r: Result<Vec<u8>, NetworkError>)
        requires
            old(self).wf(),
            old(self).metrics_spec().encryptions_count < u64::MAX,
        ensures
            final(self).wf(),
            final(self).pins() == old(self).pins(),
            final(self).backup_allowed() == old(self).backup_allowed(),
            final(self).pq_enabled() == old(self).pq_enabled(),
            final(self).preferences() == old(self).preferences(),
            final(self).pinning_enabled() == old(self).pinning_enabled(),
            final(self).pin_mode() == old(self).pin_mode(),
            exists|now: i64, later: i64|
                (r is Ok <==> #[trigger] sealable(
                    old(self).sessions().session(session_id),
                    old(self).sessions().max_idle(),
                    data@.len(),
                    now,
                    later,
                )),
            old(self).sessions().session(session_id) is None ==> r matches Err(
                NetworkError::Security(SecurityError::SessionExpired(_)),
            ),
            r matches Err(e) ==> ((e matches NetworkError::Security(SecurityError::SessionExpired(_))) || (e matches NetworkError::Security(
                SecurityError::Encryption(_),
            ))),
            r matches Ok(frame) ==> old(self).sessions().session(session_id) matches Some(s) && frame_seals(
                s.keys.client_write_key@,
                frame@,
                data@,
            ),
            r matches Ok(frame) ==> frame@.len() == data@.len() + 28,
            r is Ok ==> final(self).metrics_spec() == (SecurityMetrics {
                encryptions_count: (old(self).metrics_spec().encryptions_count + 1) as u64,
                avg_operation_latency_us: final(self).metrics_spec().avg_operation_latency_us,
                ..old(self).metrics_spec()
            }),
            r is Err ==> final(self).metrics_spec() == old(self).metrics_spec(),
            r is Err ==> final(self).sessions().entries() == old(self).sessions().entries(),
            forall|q: u128| q != session_id ==> #[trigger] final(self).sessions().session(q) == old(self).sessions().session(q),
    {
        let ghost found = self.sessions().session(session_id);
        let ghost idle = self.sessions().max_idle();
        let start = instant_now();
        let got = self.session_manager.get_session(session_id);
        let ghost now = choose|now: i64| lookup_outcome(found, idle, now, got);
        let key = match got {
            Ok(session) => {
                proof {
                    self.session_manager.lemma_session_wf(session_id);
                }
                bytes_of(session.keys.client_write_key.as_slice())
            },
            Err(e) => {
                assert(!sealable(found, idle, data@.len(), now, 0));
                return Err(e);
            },
        };
        let nonce = random_bytes(12);
        let sealed = match aead_seal(key.as_slice(), nonce.as_slice(), data) {
            Ok(c) => c,
            Err(_) => {
                assert(!sealable(found, idle, data@.len(), now, 0));
                return Err(NetworkError::Security(SecurityError::Encryption(String::from_str("AEAD encryption failed"))));
            },
        };
        let mut frame = bytes_of(nonce.as_slice());
        let n = sealed.len();
        let mut i: usize = 0;
        while i < n
            invariant
                n == sealed@.len(),
                nonce@.len() == 12,
                i <= n,
                frame@ == nonce@ + sealed@.subrange(0, i as int),
            decreases n - i,
        {
            frame.push(sealed[i]);
            i = i + 1;
            assert(frame@ =~= nonce@ + sealed@.subrange(0, i as int));
        }
        assert(sealed@.subrange(0, n as int) =~= sealed@);
        assert(frame@.take(12) =~= nonce@);
        assert(frame@.skip(12) =~= sealed@);
        let touched = self.session_manager.touch_session(session_id);
        let ghost later = choose|later: i64| touch_outcome(found, self.sessions().session(session_id), old(self).sessions().rotation(), later, touched);
        match touched {
            Ok(()) => {},
            Err(e) => {
                assert(!sealable(found, idle, data@.len(), now, later));
                return Err(e);
            },
        }
        assert(sealable(found, idle, data@.len(), now, later));
        self.metrics.encryptions_count = self.metrics.encryptions_count + 1;
        let latency = micros_since(&start);
        self.record_latency(latency);
        Ok(frame)
    }

    /// Decrypts a frame of the session `session_id`: its first 12 bytes are
    /// the nonce, the rest is opened with ChaCha20-Poly1305 under the
    /// session's client write key, the key `encrypt_secure` seals with. A
    /// frame shorter than a nonce, a missing or unusable session, or a frame
    /// that does not authenticate is refused; otherwise the session is
    /// marked active and the decryption counted.
    pub fn decrypt_secure(&mut self, data: &[u8], session_id: u128) -> (r: Result<Vec<u8>, NetworkError>)
        requires
            old(self).wf(),
            old(self).metrics_spec().decryptions_count < u64::MAX,
        ensures
            final(self).wf(),
            final(self).pins() == old(self).pins(),
            final(self).backup_allowed() == old(self).backup_allowed(),
            final(self).pq_enabled() == old(self).pq_enabled(),
            final(self).preferences() == old(self).preferences(),
            final(self).pinning_enabled() == old(self).pinning_enabled(),
            final(self).pin_mode() == old(self).pin_mode(),
            data@.len() < 12 ==> (r matches Err(NetworkError::Security(SecurityError::Decryption(msg)))
                && msg@ == "Invalid ciphertext length"@),
            data@.len() >= 12 && old(self).sessions().session(session_id) is None ==> r matches Err(
                NetworkError::Security(SecurityError::SessionExpired(_)),
            ),
            exists|now: i64, later: i64| {
                &&& (r is Ok <==> #[trigger] openable(
                    old(self).sessions().session(session_id),
                    old(self).sessions().max_idle(),
                    data@,
                    now,
                    later,
                ))
                &&& (data@.len() >= 12 && old(self).sessions().session(session_id) is Some && usable_at(
                    old(self).sessions().session(session_id)->0,
                    now,
                    old(self).sessions().max_idle(),
                ) && frame_opening(old(self).sessions().session(session_id)->0.keys.client_write_key@, data@) is None)
                    ==> (r matches Err(
                    NetworkError::Security(SecurityError::Decryption(msg)),
                ) && msg@ == "AEAD decryption failed - authentication tag mismatch"@)
            },
            r matches Ok(m) ==> old(self).sessions().session(session_id) matches Some(s) && frame_opening(
                s.keys.client_write_key@,
                data@,
            ) == Some(m@),
            r is Ok ==> final(self).metrics_spec() == (SecurityMetrics {
                decryptions_count: (old(self).metrics_spec().decryptions_count + 1) as u64,
                avg_operation_latency_us: final(self).metrics_spec().avg_operation_latency_us,
                ..old(self).metrics_spec()
            }),
            r is Err ==> final(self).metrics_spec() == old(self).metrics_spec(),
            r is Err ==> final(self).sessions().entries() == old(self).sessions().entries(),
            forall|q: u128| q != session_id ==> #[trigger] final(self).sessions().session(q) == old(self).sessions().session(q),
    {
        let ghost found = self.sessions().session(session_id);
        let ghost idle = self.sessions().max_idle();
        let start = instant_now();
        if data.len() < 12 {
            let msg = String::from_str("Invalid ciphertext length");
            proof {
                reveal_strlit("Invalid ciphertext length");
                assert(!openable(found, idle, data@, 0, 0));
            }
            return Err(NetworkError::Security(SecurityError::Decryption(msg)));
        }
        let got = self.session_manager.get_session(session_id);
        let ghost now = choose|now: i64| lookup_outcome(found, idle, now, got);
        let key = match got {
            Ok(session) => {
                proof {
                    self.session_manager.lemma_session_wf(session_id);
                }
                bytes_of(session.keys.client_write_key.as_slice())
            },
            Err(e) => {
                assert(!openable(found, idle, data@, now, 0));
                return Err(e);
            },
        };
        let (nonce, ciphertext) = data.split_at(12);
        assert(nonce@ =~= data@.take(12));
        assert(ciphertext@ =~= data@.skip(12));
        let plaintext = match aead_open(key.as_slice(), nonce, ciphertext) {
            Ok(m) => m,
            Err(_) => {
                let msg = String::from_str("AEAD decryption failed - authentication tag mismatch");
                proof {
                    reveal_strlit("AEAD decryption failed - authentication tag mismatch");
                    assert(!openable(found, idle, data@, now, 0));
                }
                return Err(NetworkError::Security(SecurityError::Decryption(msg)));
            },
        };
        let touched = self.session_manager.touch_session(session_id);
        let ghost later = choose|later: i64| touch_outcome(found, self.sessions().session(session_id), old(self).sessions().rotation(), later, touched);
        match touched {
            Ok(()) => {},
            Err(e) => {
                assert(!openable(found, idle, data@, now, later));
                return Err(e);
            },
        }
        assert(openable(found, idle, data@, now, later));
        self.metrics.decryptions_count = self.metrics.decryptions_count + 1;
        let latency = micros_since(&start);
        self.record_latency(latency);
        Ok(plaintext)
    }

    /// Rotates the keys of the session `session_id` if its rotation
    /// interval has passed, by marking it active, and counts the rotation.
    pub fn rotate_session_keys(&mut self, session_id: u128) -> (r: Result<(), NetworkError>)
        requires
            old(self).wf(),
            old(self).metrics_spec().key_rotations_count < u64::MAX,
        ensures
            final(self).wf(),
            final(self).pins() == old(self).pins(),
            final(self).pq_enabled() == old(self).pq_enabled(),
            final(self).preferences() == old(self).preferences(),
            old(self).sessions().session(session_id) is None ==> r matches Err(
                NetworkError::Security(SecurityError::SessionExpired(_)),
            ),
            r is Ok ==> final(self).metrics_spec() == (SecurityMetrics {
                key_rotations_count: (old(self).metrics_spec().key_rotations_count + 1) as u64,
                ..old(self).metrics_spec()
            }),
            r is Err ==> final(self).metrics_spec() == old(self).metrics_spec(),
            exists|now: i64| #[trigger] touch_outcome(
                old(self).sessions().session(session_id),
                final(self).sessions().session(session_id),
                old(self).sessions().rotation(),
                now,
                r,
            ),
            forall|q: u128| q != session_id ==> #[trigger] final(self).sessions().session(q) == old(self).sessions().session(q),
    {
        let ghost found = self.sessions().session(session_id);
        let touched = self.session_manager.touch_session(session_id);
        let ghost now = choose|now: i64| touch_outcome(found, self.sessions().session(session_id), old(self).sessions().rotation(), now, touched);
        match touched {
            Ok(()) => {},
            Err(e) => {
                assert(touch_outcome(found, self.sessions().session(session_id), old(self).sessions().rotation(), now, Err(e)));
                return Err(e);
            },
        }
        assert(touch_outcome(found, self.sessions().session(session_id), old(self).sessions().rotation(), now, Ok(())));
        self.metrics.key_rotations_count = self.metrics.key_rotations_count + 1;
        Ok(())
    }

    /// Removes the sessions that are no longer alive now (see
    /// `SessionManager::cleanup_expired`).
    pub fn perform_maintenance(&mut self) -> (r: Result<(), NetworkError>)
        requires
            old(self).wf(),
        ensures
            final(self).wf(),
            final(self).metrics_spec() == old(self).metrics_spec(),
            final(self).pins() == old(self).pins(),
            final(self).pq_enabled() == old(self).pq_enabled(),
            final(self).preferences() == old(self).preferences(),
            r is Err ==> final(self).sessions().entries() == old(self).sessions().entries(),
            r is Ok ==> exists|now: i64|
                final(self).sessions().entries() == #[trigger] alive_at(
                    old(self).sessions().entries(),
                    now,
                    old(self).sessions().max_idle(),
                ),
    {
        self.session_manager.cleanup_expired()
    }

    /// Returns security metrics.
    pub fn get_metrics(&self) -> (r: &SecurityMetrics)
        ensures
            *r == self.metrics_spec(),
    {
        &self.metrics
    }
}

} // verus!
