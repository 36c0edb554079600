//! The security layer: cipher suites and authentication methods negotiated
//! from a peer's advertised capabilities, a handshake that ends in a
//! session, and authenticated encryption of the session's traffic.

use vstd::prelude::*;
use crate::net::error::{NetworkError, SecurityError};
use crate::net::types::PeerId;
use crate::net::crypto::aead::{aead_seal, aead_open, random_bytes, aead_len_ok};
use crate::net::crypto::certificates::{blake3_hash, blake3_digest};
use crate::net::crypto::enhanced_security::{frame_seals, frame_opening, sealable};
use crate::net::crypto::key_derivation::KeyDerivationFunction;
use crate::net::crypto::post_quantum::{HybridKeyExchange, PQCipherSuite, PQSignatureAlgorithm};
use crate::net::crypto::session::{
    Session, SessionManager, uuid_bytes, uuid_to_bytes, alive_at, usable_at, touchable_at, lookup_outcome, touch_outcome,
};
use crate::platform::{now_millis, uuid_text, uuid_hyphenated};
use crate::text::{text_contains, contains_text};

verus! {

/// Supported cipher suites.
#[derive(Debug, Clone, Copy, PartialEq, Eq, Structural)]
pub enum CipherSuite {
    /// ChaCha20-Poly1305 with X25519 key exchange
    ChaCha20Poly1305X25519,
    /// AES-256-GCM with X25519 key exchange
    Aes256GcmX25519,
    /// Post-quantum: Kyber768 + ChaCha20-Poly1305
    Kyber768ChaCha20,
    /// Post-quantum: Kyber1024 + ChaCha20-Poly1305
    Kyber1024ChaCha20,
    /// Post-quantum: Kyber1024 + AES-256-GCM
    Kyber1024Aes256,
    /// Hybrid: Classical + Post-Quantum
    HybridX25519Kyber1024,
}

/// Authentication methods.
#[derive(Debug, Clone, Copy, PartialEq, Eq, Structural)]
pub enum AuthMethod {
    /// Ed25519 digital signatures
    Ed25519,
    /// RSA-PSS signatures
    RsaPss,
    /// Post-quantum: Dilithium3
    Dilithium3,
    /// Post-quantum: Dilithium5
    Dilithium5,
    /// Hybrid: Ed25519 + Dilithium5
    HybridEd25519Dilithium5,
    /// Shared secret authentication
    SharedSecret,
}

/// Session keys for encrypted communication.
#[derive(Debug, Clone)]
pub struct SessionKeySet {
    /// Client write key
    pub client_write_key: Vec<u8>,
    /// Server write key
    pub server_write_key: Vec<u8>,
    /// Client MAC key
    pub client_mac_key: Vec<u8>,
    /// Server MAC key
    pub server_mac_key: Vec<u8>,
}

/// Phases of the security handshake.
#[derive(Debug, Clone, Copy, PartialEq, Eq, Structural)]
pub enum HandshakePhase {
    /// Initial hello messages
    Hello,
    /// Key exchange
    KeyExchange,
    /// Authentication
    Authentication,
    /// Handshake complete
    Complete,
    /// Handshake failed
    Failed,
}


/// The name by which a cipher suite is advertised: its variant's name.
pub open spec fn suite_name(s: CipherSuite) -> Seq<char> {
    match s {
        CipherSuite::ChaCha20Poly1305X25519 => "ChaCha20Poly1305X25519"@,
        CipherSuite::Aes256GcmX25519 => "Aes256GcmX25519"@,
        CipherSuite::Kyber768ChaCha20 => "Kyber768ChaCha20"@,
        CipherSuite::Kyber1024ChaCha20 => "Kyber1024ChaCha20"@,
        CipherSuite::Kyber1024Aes256 => "Kyber1024Aes256"@,
        CipherSuite::HybridX25519Kyber1024 => "HybridX25519Kyber1024"@,
    }
}

/// The name by which an authentication method is advertised: its
/// variant's name.
pub open spec fn auth_name(m: AuthMethod) -> Seq<char> {
    match m {
        AuthMethod::Ed25519 => "Ed25519"@,
        AuthMethod::RsaPss => "RsaPss"@,
        AuthMethod::Dilithium3 => "Dilithium3"@,
        AuthMethod::Dilithium5 => "Dilithium5"@,
        AuthMethod::HybridEd25519Dilithium5 => "HybridEd25519Dilithium5"@,
        AuthMethod::SharedSecret => "SharedSecret"@,
    }
}

/// The texts of a list of strings.
pub open spec fn texts_view(v: Seq<String>) -> Seq<Seq<char>> {
    v.map_values(|c: String| c@)
}

/// Some advertised capability mentions `name`.
pub open spec fn offered(caps: Seq<Seq<char>>, name: Seq<char>) -> bool {
    exists|k: int| 0 <= k < caps.len() && contains_text(#[trigger] caps[k], name)
}

/// The first suite from position `i` on whose name a capability mentions.
pub open spec fn first_suite_from(suites: Seq<CipherSuite>, caps: Seq<Seq<char>>, i: int) -> Option<CipherSuite>
    decreases suites.len() - i,
{
    if i < 0 || i >= suites.len() {
        None
    } else if offered(caps, suite_name(suites[i])) {
        Some(suites[i])
    } else {
        first_suite_from(suites, caps, i + 1)
    }
}

/// The first method from position `i` on whose name a capability mentions.
pub open spec fn first_auth_from(methods: Seq<AuthMethod>, caps: Seq<Seq<char>>, i: int) -> Option<AuthMethod>
    decreases methods.len() - i,
{
    if i < 0 || i >= methods.len() {
        None
    } else if offered(caps, auth_name(methods[i])) {
        Some(methods[i])
    } else {
        first_auth_from(methods, caps, i + 1)
    }
}

/// The suite negotiated with a peer: the first enabled suite that the
/// peer's capabilities mention, else ChaCha20-Poly1305 with X25519.
pub open spec fn negotiated_suite(suites: Seq<CipherSuite>, caps: Seq<Seq<char>>) -> CipherSuite {
    match first_suite_from(suites, caps, 0) {
        Some(s) => s,
        None => CipherSuite::ChaCha20Poly1305X25519,
    }
}

/// The authentication method negotiated with a peer: the first enabled
/// method that the peer's capabilities mention, else Ed25519.
pub open spec fn negotiated_auth(methods: Seq<AuthMethod>, caps: Seq<Seq<char>>) -> AuthMethod {
    match first_auth_from(methods, caps, 0) {
        Some(m) => m,
        None => AuthMethod::Ed25519,
    }
}

/// Negotiation picks an enabled suite that the peer mentions, and one
/// that no earlier enabled suite beats; failing that, the default.
pub proof fn negotiated_suite_is_first_offered(suites: Seq<CipherSuite>, caps: Seq<Seq<char>>)
    ensures
        negotiated_suite(suites, caps) == CipherSuite::ChaCha20Poly1305X25519 || exists|k: int|
            0 <= k < suites.len() && suites[k] == negotiated_suite(suites, caps) && offered(
                caps,
                suite_name(suites[k]),
            ) && forall|j: int| 0 <= j < k ==> !offered(caps, #[trigger] suite_name(suites[j])),
{
    lemma_first_suite_from(suites, caps, 0);
}

proof fn lemma_first_suite_from(suites: Seq<CipherSuite>, caps: Seq<Seq<char>>, i: int)
    requires
        0 <= i,
        forall|j: int| 0 <= j < i ==> !offered(caps, #[trigger] suite_name(suites[j])),
    ensures
        first_suite_from(suites, caps, i) matches Some(s) ==> exists|k: int|
            i <= k < suites.len() && suites[k] == s && offered(caps, suite_name(suites[k])) && forall|j: int|
                0 <= j < k ==> !offered(caps, #[trigger] suite_name(suites[j])),
    decreases suites.len() - i,
{
    if i < suites.len() && !offered(caps, suite_name(suites[i])) {
        lemma_first_suite_from(suites, caps, i + 1);
    }
}

/// The suites a layer enables: the classical two, then the post-quantum
/// four when post-quantum cryptography is enabled.
pub open spec fn enabled_suites(post_quantum: bool) -> Seq<CipherSuite> {
    if post_quantum {
        seq![
            CipherSuite::ChaCha20Poly1305X25519,
            CipherSuite::Aes256GcmX25519,
            CipherSuite::Kyber768ChaCha20,
            CipherSuite::Kyber1024ChaCha20,
            CipherSuite::Kyber1024Aes256,
            CipherSuite::HybridX25519Kyber1024,
        ]
    } else {
        seq![CipherSuite::ChaCha20Poly1305X25519, CipherSuite::Aes256GcmX25519]
    }
}

/// The authentication methods a layer enables: Ed25519 and shared
/// secrets, then the three post-quantum ones when enabled.
pub open spec fn enabled_auths(post_quantum: bool) -> Seq<AuthMethod> {
    if post_quantum {
        seq![
            AuthMethod::Ed25519,
            AuthMethod::SharedSecret,
            AuthMethod::Dilithium3,
            AuthMethod::Dilithium5,
            AuthMethod::HybridEd25519Dilithium5,
        ]
    } else {
        seq![AuthMethod::Ed25519, AuthMethod::SharedSecret]
    }
}

/// Whether a suite's key exchange is post-quantum.
pub open spec fn is_pq_suite(s: CipherSuite) -> bool {
    s is Kyber768ChaCha20 || s is Kyber1024ChaCha20 || s is Kyber1024Aes256 || s is HybridX25519Kyber1024
}

/// The post-quantum suite a cipher suite stands for (Kyber768 with
/// ChaCha20 for the classical ones).
pub open spec fn pq_suite_of(s: CipherSuite) -> PQCipherSuite {
    match s {
        CipherSuite::Kyber1024ChaCha20 => PQCipherSuite::Kyber1024ChaCha20,
        CipherSuite::Kyber1024Aes256 => PQCipherSuite::Kyber1024Aes256,
        CipherSuite::HybridX25519Kyber1024 => PQCipherSuite::HybridX25519Kyber1024,
        _ => PQCipherSuite::Kyber768ChaCha20,
    }
}

/// The size of a suite's ephemeral public key: 32 bytes for X25519, the
/// Kyber768 and Kyber1024 public key sizes, and both together for the
/// hybrid.
pub open spec fn ephemeral_key_size(s: CipherSuite) -> nat {
    match s {
        CipherSuite::ChaCha20Poly1305X25519 | CipherSuite::Aes256GcmX25519 => 32,
        CipherSuite::Kyber768ChaCha20 => 1184,
        CipherSuite::Kyber1024ChaCha20 | CipherSuite::Kyber1024Aes256 => 1568,
        CipherSuite::HybridX25519Kyber1024 => 1600,
    }
}

/// The master secret of a classical handshake: the BLAKE3 hash of the
/// ephemeral key material followed by the peer id's bytes.
pub open spec fn classical_master_secret(ephemeral: Seq<u8>, peer: PeerId) -> Seq<u8> {
    blake3_digest(ephemeral + uuid_bytes(peer.0))
}

fn suite_name_text(s: CipherSuite) -> (r: &'static str)
    ensures
        r@ == suite_name(s),
{
    match s {
        CipherSuite::ChaCha20Poly1305X25519 => "ChaCha20Poly1305X25519",
        CipherSuite::Aes256GcmX25519 => "Aes256GcmX25519",
        CipherSuite::Kyber768ChaCha20 => "Kyber768ChaCha20",
        CipherSuite::Kyber1024ChaCha20 => "Kyber1024ChaCha20",
        CipherSuite::Kyber1024Aes256 => "Kyber1024Aes256",
        CipherSuite::HybridX25519Kyber1024 => "HybridX25519Kyber1024",
    }
}

fn auth_name_text(m: AuthMethod) -> (r: &'static str)
    ensures
        r@ == auth_name(m),
{
    match m {
        AuthMethod::Ed25519 => "Ed25519",
        AuthMethod::RsaPss => "RsaPss",
        AuthMethod::Dilithium3 => "Dilithium3",
        AuthMethod::Dilithium5 => "Dilithium5",
        AuthMethod::HybridEd25519Dilithium5 => "HybridEd25519Dilithium5",
        AuthMethod::SharedSecret => "SharedSecret",
    }
}

/// Whether some capability mentions `name`.
fn any_offered(caps: &Vec<String>, name: &str) -> (r: bool)
    ensures
        r == offered(texts_view(caps@), name@),
{
    let ghost cv = texts_view(caps@);
    let mut k: usize = 0;
    while k < caps.len()
        invariant
            cv == texts_view(caps@),
            k <= caps@.len(),
            forall|j: int| 0 <= j < k ==> !contains_text(#[trigger] cv[j], name@),
        decreases caps@.len() - k,
    {
        if text_contains(caps[k].as_str(), name) {
            assert(cv[k as int] == caps@[k as int]@);
            return true;
        }
        k = k + 1;
    }
    false
}

/// Either part of a byte string, one after the other.
fn concat_bytes(a: &[u8], b: &[u8]) -> (r: Vec<u8>)
    ensures
        r@ == a@ + b@,
{
    let mut r: Vec<u8> = Vec::new();
    let mut i: usize = 0;
    while i < a.len()
        invariant
            i <= a@.len(),
            r@ == a@.subrange(0, i as int),
        decreases a@.len() - i,
    {
        r.push(a[i]);
        i = i + 1;
        assert(r@ =~= a@.subrange(0, i as int));
    }
    let mut j: usize = 0;
    while j < b.len()
        invariant
            i == a@.len(),
            j <= b@.len(),
            r@ == a@ + b@.subrange(0, j as int),
        decreases b@.len() - j,
    {
        r.push(b[j]);
        j = j + 1;
        assert(r@ =~= a@ + b@.subrange(0, j as int));
    }
    assert(a@.subrange(0, i as int) =~= a@);
    assert(b@.subrange(0, j as int) =~= b@);
    r
}

/// Handshake state for establishing secure connections.
#[derive(Debug, Clone)]
pub struct HandshakeState {
    /// Current handshake phase
    pub phase: HandshakePhase,
    /// Negotiated cipher suite
    pub cipher_suite: Option<CipherSuite>,
    /// Negotiated authentication method
    pub auth_method: Option<AuthMethod>,
    /// Handshake start, in milliseconds since the Unix epoch
    pub started_at: i64,
    /// Ephemeral key material (for classical suites)
    pub ephemeral_keys: Vec<u8>,
    /// Session ID once established
    pub session_id: Option<u128>,
    /// Post-quantum key exchange, for post-quantum suites
    pub pq_key_exchange: Option<HybridKeyExchange>,
}

/// Security layer that provides encryption and authentication.
pub struct SecurityLayer {
    /// Enabled cipher suites
    cipher_suites: Vec<CipherSuite>,
    /// Post-quantum cipher suites
    pq_cipher_suites: Vec<PQCipherSuite>,
    /// Authentication methods
    auth_methods: Vec<AuthMethod>,
    /// Post-quantum signature algorithms
    pq_signature_algs: Vec<PQSignatureAlgorithm>,
    /// Post-quantum cryptography enabled
    post_quantum_enabled: bool,
    /// Session manager
    session_manager: SessionManager,
}

/// `SecurityLayer::decrypt` succeeds for the session `found` and `frame`
/// when the session is usable at `now`, the frame opens under the
/// session's server write key, and the session can be marked active at
/// `later`.
pub open spec fn layer_openable(found: Option<Session>, max_idle: u64, frame: Seq<u8>, now: i64, later: i64) -> bool {
    &&& found matches Some(s)
    &&& usable_at(found->0, now, max_idle)
    &&& frame_opening(found->0.keys.server_write_key@, frame) is Some
    &&& touchable_at(found->0, later)
}

impl SecurityLayer {
    /// The enabled cipher suites, in order of preference.
    pub closed spec fn suites(&self) -> Seq<CipherSuite> {
        self.cipher_suites@
    }

    /// The enabled authentication methods, in order of preference.
    pub closed spec fn auths(&self) -> Seq<AuthMethod> {
        self.auth_methods@
    }

    /// The enabled post-quantum suites.
    pub closed spec fn pq_suites(&self) -> Seq<PQCipherSuite> {
        self.pq_cipher_suites@
    }

    /// The enabled post-quantum signature algorithms.
    pub closed spec fn pq_signatures(&self) -> Seq<PQSignatureAlgorithm> {
        self.pq_signature_algs@
    }

    /// Whether post-quantum cryptography is enabled.
    pub closed spec fn pq_enabled(&self) -> bool {
        self.post_quantum_enabled
    }

    /// The sessions established.
    pub closed spec fn sessions(&self) -> SessionManager {
        self.session_manager
    }

    pub open spec fn wf(&self) -> bool {
        self.sessions().wf()
    }

    fn build(post_quantum_enabled: bool) -> (r: Self)
        ensures
            r.wf(),
            r.suites() == enabled_suites(post_quantum_enabled),
            r.auths() == enabled_auths(post_quantum_enabled),
            r.pq_enabled() == post_quantum_enabled,
            r.sessions().entries().len() == 0,
            post_quantum_enabled ==> r.pq_suites() == seq![
                PQCipherSuite::Kyber768ChaCha20,
                PQCipherSuite::Kyber1024ChaCha20,
                PQCipherSuite::Kyber1024Aes256,
                PQCipherSuite::HybridX25519Kyber1024,
            ],
            post_quantum_enabled ==> r.pq_signatures() == seq![
                PQSignatureAlgorithm::Dilithium3,
                PQSignatureAlgorithm::Dilithium5,
                PQSignatureAlgorithm::HybridEd25519Dilithium5,
            ],
            !post_quantum_enabled ==> r.pq_suites().len() == 0 && r.pq_signatures().len() == 0,
    {
        let mut cipher_suites = vec![CipherSuite::ChaCha20Poly1305X25519, CipherSuite::Aes256GcmX25519];
        let mut pq_cipher_suites: Vec<PQCipherSuite> = Vec::new();
        let mut auth_methods = vec![AuthMethod::Ed25519, AuthMethod::SharedSecret];
        let mut pq_signature_algs: Vec<PQSignatureAlgorithm> = Vec::new();
        if post_quantum_enabled {
            cipher_suites.push(CipherSuite::Kyber768ChaCha20);
            cipher_suites.push(CipherSuite::Kyber1024ChaCha20);
            cipher_suites.push(CipherSuite::Kyber1024Aes256);
            cipher_suites.push(CipherSuite::HybridX25519Kyber1024);
            pq_cipher_suites = vec![
                PQCipherSuite::Kyber768ChaCha20,
                PQCipherSuite::Kyber1024ChaCha20,
                PQCipherSuite::Kyber1024Aes256,
                PQCipherSuite::HybridX25519Kyber1024,
            ];
            auth_methods.push(AuthMethod::Dilithium3);
            auth_methods.push(AuthMethod::Dilithium5);
            auth_methods.push(AuthMethod::HybridEd25519Dilithium5);
            pq_signature_algs = vec![
                PQSignatureAlgorithm::Dilithium3,
                PQSignatureAlgorithm::Dilithium5,
                PQSignatureAlgorithm::HybridEd25519Dilithium5,
            ];
        }
        proof {
            assert(cipher_suites@ =~= enabled_suites(post_quantum_enabled));
            assert(auth_methods@ =~= enabled_auths(post_quantum_enabled));
        }
        SecurityLayer {
            cipher_suites,
            pq_cipher_suites,
            auth_methods,
            pq_signature_algs,
            post_quantum_enabled,
            session_manager: SessionManager::new(),
        }
    }

    /// Creates a new security layer: the classical suites and methods, and
    /// the post-quantum ones when enabled; no sessions yet.
    pub fn new(post_quantum_enabled: bool) -> (r: Result<Self, NetworkError>)
        ensures
            r matches Ok(l) && {
                &&& l.wf()
                &&& l.suites() == enabled_suites(post_quantum_enabled)
                &&& l.auths() == enabled_auths(post_quantum_enabled)
                &&& l.pq_enabled() == post_quantum_enabled
                &&& l.sessions().entries().len() == 0
            },
    {
        Ok(Self::build(post_quantum_enabled))
    }

    /// Starts a handshake with a peer that advertises `capabilities`: the
    /// suite and method are negotiated, then the key exchange is prepared,
    /// a post-quantum exchange for post-quantum suites, random ephemeral
    /// key material of the suite's size for classical ones.
    pub fn initiate_handshake(&mut self, capabilities: &Vec<String>) -> (r: Result<HandshakeState, NetworkError>)
        ensures
            *final(self) == *old(self),
            r matches Ok(st) && {
                let suite = negotiated_suite(old(self).suites(), texts_view(capabilities@));
                &&& st.phase == HandshakePhase::KeyExchange
                &&& st.cipher_suite == Some(suite)
                &&& st.auth_method == Some(negotiated_auth(old(self).auths(), texts_view(capabilities@)))
                &&& st.session_id is None
                &&& is_pq_suite(suite) ==> (st.pq_key_exchange matches Some(k) && k.suite() == pq_suite_of(suite)
                    && st.ephemeral_keys@.len() == 0)
                &&& !is_pq_suite(suite) ==> (st.pq_key_exchange is None
                    && st.ephemeral_keys@.len() == ephemeral_key_size(suite))
            },
    {
        let suite = self.negotiate_cipher_suite(capabilities);
        let auth = self.negotiate_auth_method(capabilities);
        let started_at = now_millis();
        if Self::is_post_quantum_suite(suite) {
            let kex = match HybridKeyExchange::new(Self::map_to_pq_suite(suite)) {
                Ok(k) => k,
                Err(e) => {
                    return Err(e);
                },
            };
            Ok(HandshakeState {
                phase: HandshakePhase::KeyExchange,
                cipher_suite: Some(suite),
                auth_method: Some(auth),
                started_at,
                ephemeral_keys: Vec::new(),
                session_id: None,
                pq_key_exchange: Some(kex),
            })
        } else {
            Ok(HandshakeState {
                phase: HandshakePhase::KeyExchange,
                cipher_suite: Some(suite),
                auth_method: Some(auth),
                started_at,
                ephemeral_keys: Self::generate_ephemeral_keys(suite),
                session_id: None,
                pq_key_exchange: None,
            })
        }
    }

    /// Completes a handshake in its key-exchange phase with the peer
    /// `peer`: the master secret is the BLAKE3 hash of the ephemeral key
    /// material and the peer id's bytes for a classical exchange, 64 random
    /// bytes for a post-quantum one; a session is created from it with
    /// HKDF-SHA256 for the peer id's text. Returns the session's id.
    pub fn complete_handshake(&mut self, state: HandshakeState, peer: PeerId) -> (r: Result<u128, NetworkError>)
        requires
            old(self).wf(),
        ensures
            final(self).wf(),
            final(self).suites() == old(self).suites(),
            final(self).auths() == old(self).auths(),
            final(self).pq_enabled() == old(self).pq_enabled(),
            state.phase != HandshakePhase::KeyExchange ==> (r matches Err(
                NetworkError::Security(SecurityError::KeyExchange(_)),
            ) && final(self).sessions() == old(self).sessions()),
            r matches Ok(id) ==> {
                &&& state.phase == HandshakePhase::KeyExchange
                &&& final(self).sessions().session(id) matches Some(s) && {
                    &&& s.state.peer_id@ == uuid_hyphenated(peer.0)
                    &&& s.state.rotation_count == 0
                    &&& !s.state.authenticated
                    &&& state.pq_key_exchange is None ==> s.ratchet.chain() == classical_master_secret(
                        state.ephemeral_keys@,
                        peer,
                    )
                    &&& state.pq_key_exchange is Some ==> s.ratchet.chain().len() == 64
                }
            },
    {
        if state.phase != HandshakePhase::KeyExchange {
            return Err(NetworkError::Security(SecurityError::KeyExchange(String::from_str("Invalid handshake phase"))));
        }
        let master_secret = if state.pq_key_exchange.is_some() {
            random_bytes(64)
        } else {
            Self::derive_master_secret(&state, peer)
        };
        let id = match self.session_manager.create_session(uuid_text(peer.0), master_secret, KeyDerivationFunction::HkdfSha256) {
            Ok(id) => id,
            Err(e) => {
                return Err(e);
            },
        };
        Ok(id)
    }

    /// Encrypts `data` for the session `session_id`: a fresh random 12-byte
    /// nonce followed by the ChaCha20-Poly1305 sealing of the data under the
    /// session's client write key. The session must exist and be usable
    /// now; it is then marked active.
    pub fn encrypt(&mut self, data: &[u8], session_id: u128) -> (r: Result<Vec<u8>, NetworkError>)
        requires
            old(self).wf(),
        ensures
            final(self).wf(),
            final(self).suites() == old(self).suites(),
            final(self).auths() == old(self).auths(),
            final(self).pq_enabled() == old(self).pq_enabled(),
            exists|now: i64, later: i64|
                (r is Ok <==> #[trigger] sealable(
                    old(self).sessions().session(session_id),
                    old(self).sessions().max_idle(),
                    data@.len(),
                    now,
                    later,
                )),
            old(self).sessions().session(session_id) is None ==> r matches Err(
                NetworkError::Security(SecurityError::SessionExpired(_)),
            ),
            r matches Err(e) ==> ((e matches NetworkError::Security(SecurityError::SessionExpired(_))) || (e matches NetworkError::Security(
                SecurityError::Encryption(_),
            ))),
            r matches Ok(frame) ==> old(self).sessions().session(session_id) matches Some(s) && frame_seals(
                s.keys.client_write_key@,
                frame@,
                data@,
            ),
            r matches Ok(frame) ==> frame@.len() == data@.len() + 28,
            r is Err ==> final(self).sessions().entries() == old(self).sessions().entries(),
            forall|q: u128| q != session_id ==> #[trigger] final(self).sessions().session(q) == old(self).sessions().session(q),
    {
        let ghost found = self.sessions().session(session_id);
        let ghost idle = self.sessions().max_idle();
        let got = self.session_manager.get_session(session_id);
        let ghost now = choose|now: i64| lookup_outcome(found, idle, now, got);
        let key = match got {
            Ok(session) => {
                proof {
                    self.session_manager.lemma_session_wf(session_id);
                }
                concat_bytes(session.keys.client_write_key.as_slice(), &[])
            },
            Err(e) => {
                assert(!sealable(found, idle, data@.len(), now, 0));
                return Err(e);
            },
        };
        assert(key@ =~= old(self).sessions().session(session_id)->0.keys.client_write_key@);
        let nonce = random_bytes(12);
        let sealed = match aead_seal(key.as_slice(), nonce.as_slice(), data) {
            Ok(c) => c,
            Err(_) => {
                assert(!sealable(found, idle, data@.len(), now, 0));
                return Err(NetworkError::Security(SecurityError::Encryption(String::from_str("Encryption failed"))));
            },
        };
        let frame = concat_bytes(nonce.as_slice(), sealed.as_slice());
        assert(frame@.take(12) =~= nonce@);
        assert(frame@.skip(12) =~= sealed@);
        let touched = self.session_manager.touch_session(session_id);
        let ghost later = choose|later: i64| touch_outcome(found, self.sessions().session(session_id), old(self).sessions().rotation(), later, touched);
        match touched {
            Ok(()) => {},
            Err(e) => {
                assert(!sealable(found, idle, data@.len(), now, later));
                return Err(e);
            },
        }
        assert(sealable(found, idle, data@.len(), now, later));
        Ok(frame)
    }

    /// Decrypts a frame of the session `session_id`: its first 12 bytes are
    /// the nonce, the rest is opened with ChaCha20-Poly1305 under the
    /// session's server write key. A frame shorter than a nonce, a missing
    /// or unusable session, or a frame that does not authenticate is
    /// refused; otherwise the session is marked active.
    pub fn decrypt(&mut self, data: &[u8], session_id: u128) -> (r: Result<Vec<u8>, NetworkError>)
        requires
            old(self).wf(),
        ensures
            final(self).wf(),
            final(self).suites() == old(self).suites(),
            final(self).auths() == old(self).auths(),
            final(self).pq_enabled() == old(self).pq_enabled(),
            data@.len() < 12 ==> (r matches Err(NetworkError::Security(SecurityError::Decryption(msg)))
                && msg@ == "Invalid ciphertext length"@ && final(self).sessions() == old(self).sessions()),
            data@.len() >= 12 && old(self).sessions().session(session_id) is None ==> r matches Err(
                NetworkError::Security(SecurityError::SessionExpired(_)),
            ),
            exists|now: i64, later: i64| {
                &&& (r is Ok <==> #[trigger] layer_openable(
                    old(self).sessions().session(session_id),
                    old(self).sessions().max_idle(),
                    data@,
                    now,
                    later,
                ))
                &&& (data@.len() >= 12 && old(self).sessions().session(session_id) is Some && usable_at(
                    old(self).sessions().session(session_id)->0,
                    now,
                    old(self).sessions().max_idle(),
                ) && frame_opening(old(self).sessions().session(session_id)->0.keys.server_write_key@, data@) is None)
                    ==> (r matches Err(NetworkError::Security(SecurityError::Decryption(msg)))
                    && msg@ == "Decryption failed - authentication tag mismatch"@)
            },
            r matches Ok(m) ==> old(self).sessions().session(session_id) matches Some(s) && frame_opening(
                s.keys.server_write_key@,
                data@,
            ) == Some(m@),
            r is Err ==> final(self).sessions().entries() == old(self).sessions().entries(),
            forall|q: u128| q != session_id ==> #[trigger] final(self).sessions().session(q) == old(self).sessions().session(q),
    {
        let ghost found = self.sessions().session(session_id);
        let ghost idle = self.sessions().max_idle();
        if data.len() < 12 {
            let msg = String::from_str("Invalid ciphertext length");
            proof {
                reveal_strlit("Invalid ciphertext length");
                assert(!layer_openable(found, idle, data@, 0, 0));
            }
            return Err(NetworkError::Security(SecurityError::Decryption(msg)));
        }
        let got = self.session_manager.get_session(session_id);
        let ghost now = choose|now: i64| lookup_outcome(found, idle, now, got);
        let key = match got {
            Ok(session) => {
                proof {
                    self.session_manager.lemma_session_wf(session_id);
                }
                concat_bytes(session.keys.server_write_key.as_slice(), &[])
            },
            Err(e) => {
                assert(!layer_openable(found, idle, data@, now, 0));
                return Err(e);
            },
        };
        assert(key@ =~= old(self).sessions().session(session_id)->0.keys.server_write_key@);
        let (nonce, ciphertext) = data.split_at(12);
        assert(nonce@ =~= data@.take(12));
        assert(ciphertext@ =~= data@.skip(12));
        let plaintext = match aead_open(key.as_slice(), nonce, ciphertext) {
            Ok(m) => m,
            Err(_) => {
                let msg = String::from_str("Decryption failed - authentication tag mismatch");
                proof {
                    reveal_strlit("Decryption failed - authentication tag mismatch");
                    assert(!layer_openable(found, idle, data@, now, 0));
                }
                return Err(NetworkError::Security(SecurityError::Decryption(msg)));
            },
        };
        let touched = self.session_manager.touch_session(session_id);
        let ghost later = choose|later: i64| touch_outcome(found, self.sessions().session(session_id), old(self).sessions().rotation(), later, touched);
        match touched {
            Ok(()) => {},
            Err(e) => {
                assert(!layer_openable(found, idle, data@, now, later));
                return Err(e);
            },
        }
        assert(layer_openable(found, idle, data@, now, later));
        Ok(plaintext)
    }

    /// The first enabled suite that a capability mentions, else
    /// ChaCha20-Poly1305 with X25519.
    fn negotiate_cipher_suite(&self, capabilities: &Vec<String>) -> (r: CipherSuite)
        ensures
            r == negotiated_suite(self.suites(), texts_view(capabilities@)),
    {
        let ghost caps = texts_view(capabilities@);
        let mut i: usize = 0;
        while i < self.cipher_suites.len()
            invariant
                caps == texts_view(capabilities@),
                i <= self.suites().len(),
                first_suite_from(self.suites(), caps, 0) == first_suite_from(self.suites(), caps, i as int),
            decreases self.suites().len() - i,
        {
            let suite = self.cipher_suites[i];
            if any_offered(capabilities, suite_name_text(suite)) {
                return suite;
            }
            i = i + 1;
        }
        CipherSuite::ChaCha20Poly1305X25519
    }

    /// The first enabled authentication method that a capability mentions,
    /// else Ed25519.
    fn negotiate_auth_method(&self, capabilities: &Vec<String>) -> (r: AuthMethod)
        ensures
            r == negotiated_auth(self.auths(), texts_view(capabilities@)),
    {
        let ghost caps = texts_view(capabilities@);
        let mut i: usize = 0;
        while i < self.auth_methods.len()
            invariant
                caps == texts_view(capabilities@),
                i <= self.auths().len(),
                first_auth_from(self.auths(), caps, 0) == first_auth_from(self.auths(), caps, i as int),
            decreases self.auths().len() - i,
        {
            let method = self.auth_methods[i];
            if any_offered(capabilities, auth_name_text(method)) {
                return method;
            }
            i = i + 1;
        }
        AuthMethod::Ed25519
    }

    /// Random ephemeral key material of the suite's public key size.
    fn generate_ephemeral_keys(cipher_suite: CipherSuite) -> (r: Vec<u8>)
        ensures
            r@.len() == ephemeral_key_size(cipher_suite),
    {
        let key_size: usize = match cipher_suite {
            CipherSuite::ChaCha20Poly1305X25519 | CipherSuite::Aes256GcmX25519 => 32,
            CipherSuite::Kyber768ChaCha20 => 1184,
            CipherSuite::Kyber1024ChaCha20 | CipherSuite::Kyber1024Aes256 => 1568,
            CipherSuite::HybridX25519Kyber1024 => 1600,
        };
        random_bytes(key_size)
    }

    /// Keeps the sessions alive now; a clock error removes nothing.
    pub fn cleanup_expired_sessions(&mut self) -> (r: Result<(), NetworkError>)
        requires
            old(self).wf(),
        ensures
            final(self).wf(),
            final(self).suites() == old(self).suites(),
            final(self).auths() == old(self).auths(),
            final(self).pq_enabled() == old(self).pq_enabled(),
            r is Err ==> final(self).sessions().entries() == old(self).sessions().entries(),
            r is Ok ==> exists|now: i64|
                final(self).sessions().entries() == #[trigger] alive_at(
                    old(self).sessions().entries(),
                    now,
                    old(self).sessions().max_idle(),
                ),
    {
        self.session_manager.cleanup_expired()
    }

    /// Whether a cipher suite is post-quantum.
    fn is_post_quantum_suite(suite: CipherSuite) -> (r: bool)
        ensures
            r == is_pq_suite(suite),
    {
        match suite {
            CipherSuite::Kyber768ChaCha20
            | CipherSuite::Kyber1024ChaCha20
            | CipherSuite::Kyber1024Aes256
            | CipherSuite::HybridX25519Kyber1024 => true,
            _ => false,
        }
    }

    /// The post-quantum suite a cipher suite stands for.
    fn map_to_pq_suite(suite: CipherSuite) -> (r: PQCipherSuite)
        ensures
            r == pq_suite_of(suite),
    {
        match suite {
            CipherSuite::Kyber1024ChaCha20 => PQCipherSuite::Kyber1024ChaCha20,
            CipherSuite::Kyber1024Aes256 => PQCipherSuite::Kyber1024Aes256,
            CipherSuite::HybridX25519Kyber1024 => PQCipherSuite::HybridX25519Kyber1024,
            _ => PQCipherSuite::Kyber768ChaCha20,
        }
    }

    /// The master secret of a classical handshake with `peer`.
    fn derive_master_secret(state: &HandshakeState, peer: PeerId) -> (r: Vec<u8>)
        ensures
            r@ == classical_master_secret(state.ephemeral_keys@, peer),
    {
        let id_bytes = uuid_to_bytes(peer.0);
        let combined = concat_bytes(state.ephemeral_keys.as_slice(), id_bytes.as_slice());
        let hash = blake3_hash(combined.as_slice());
        concat_bytes(&hash, &[])
    }
}

impl Default for SecurityLayer {
    fn default() -> (r: Self)
        ensures
            r.wf(),
            r.suites() == enabled_suites(true),
            r.auths() == enabled_auths(true),
            r.pq_enabled(),
    {
        Self::build(true)
    }
}

} // verus!
