//! Secure sessions: each session's keys are derived from a master secret,
//! expire after a lifetime or an idle time, and are rotated through a key
//! ratchet once a rotation interval has passed. Times are milliseconds
//! since the Unix epoch, durations milliseconds.

use vstd::prelude::*;
use vstd::bytes::{spec_u128_to_le_bytes, u128_to_le_bytes};
use vstd::utf8::encode_utf8;
use crate::net::error::{NetworkError, SecurityError};
use crate::net::crypto::key_derivation::{
    derive_session_keys, KeyDerivationFunction, KeyRatchet, SessionKeys, kdf_okm, ratchet_info, salt_view, decimal,
    push_decimal,
};
use crate::net::crypto::key_derivation::{hkdf_sha256_expand, hkdf_sha256_okm};
use crate::net::crypto::aead::{aead_seal, aead_open, random_bytes, aead_len_ok, chacha20poly1305_seal, chacha20poly1305_open};
use crate::platform::{fresh_uuid_value, now_millis};

verus! {

/// Session state information.
#[derive(Debug, Clone)]
pub struct SessionState {
    /// Unique session identifier (a UUID's 128-bit value)
    pub id: u128,
    /// Peer identifier
    pub peer_id: String,
    /// Session creation time
    pub created_at: i64,
    /// Last activity time
    pub last_activity: i64,
    /// Session expiry time
    pub expires_at: i64,
    /// Key rotation counter
    pub rotation_count: u64,
    /// Whether the session is authenticated
    pub authenticated: bool,
}

/// Individual session with its keys and state.
pub struct Session {
    /// Session state
    pub state: SessionState,
    /// Current session keys
    pub keys: SessionKeys,
    /// Key ratchet for rotation
    pub ratchet: KeyRatchet,
    /// Last key rotation time
    pub last_rotation: i64,
}

/// Session ticket for resumption.
#[derive(Debug, Clone)]
pub struct SessionTicket {
    /// Ticket identifier
    pub id: Vec<u8>,
    /// Encrypted session state
    pub encrypted_state: Vec<u8>,
    /// Ticket creation time
    pub created_at: i64,
    /// Ticket lifetime
    pub lifetime: u64,
}

/// The lifetime of a session ticket: a day, in milliseconds.
pub const TICKET_LIFETIME_MS: u64 = 86_400_000;

/// The key a session ticket is sealed with: the given key when it is 32
/// bytes long, otherwise 32 bytes of HKDF-SHA256 from it (salt
/// `session-ticket-salt`, info `session-ticket-encryption`).
pub open spec fn ticket_key(key: Seq<u8>) -> Seq<u8> {
    if key.len() == 32 {
        key
    } else {
        hkdf_sha256_okm(
            Some(encode_utf8("session-ticket-salt"@)),
            key,
            encode_utf8("session-ticket-encryption"@),
            32,
        )
    }
}

/// What a ticket's state opens to under `key`: the nonce is the first 12
/// bytes of the ticket id.
pub open spec fn ticket_opening(t: SessionTicket, key: Seq<u8>) -> Option<Seq<u8>> {
    chacha20poly1305_open(ticket_key(key), t.id@.take(12), t.encrypted_state@)
}

/// A ticket issued for `state` under `key` opens to that state under the
/// same key.
pub proof fn issued_ticket_opens_to_its_state(t: SessionTicket, key: Seq<u8>, state: Seq<u8>)
    requires
        t.id@.len() == 32,
        t.encrypted_state@ == chacha20poly1305_seal(ticket_key(key), t.id@.take(12), state),
        chacha20poly1305_open(ticket_key(key), t.id@.take(12), t.encrypted_state@) == Some(state),
    ensures
        ticket_opening(t, key) == Some(state),
{
}

/// The bytes of a UUID in its standard (big-endian) order.
pub open spec fn uuid_bytes(id: u128) -> Seq<u8> {
    spec_u128_to_le_bytes(id).reverse()
}

/// The HKDF info of a new session with `peer`: `session-` and the peer id.
pub open spec fn session_info(peer: Seq<char>) -> Seq<u8> {
    encode_utf8("session-"@) + encode_utf8(peer)
}

/// The HKDF salt of the rotation numbered `count`: `rotation-` and the
/// count in decimal.
pub open spec fn rotation_salt(count: u64) -> Seq<u8> {
    encode_utf8("rotation-"@) + decimal(count as nat)
}

/// The HKDF info of a rotation for `peer`: `session-`, the peer id and
/// `-rotated`.
pub open spec fn rotation_info(peer: Seq<char>) -> Seq<u8> {
    encode_utf8("session-"@) + encode_utf8(peer) + encode_utf8("-rotated"@)
}

/// Whether `keys` are the six keys cut from `okm` (32-byte keys, 16-byte
/// IVs).
pub open spec fn keys_from(keys: SessionKeys, okm: Seq<u8>) -> bool {
    &&& keys.client_write_key@ == okm.subrange(0, 32)
    &&& keys.server_write_key@ == okm.subrange(32, 64)
    &&& keys.client_mac_key@ == okm.subrange(64, 96)
    &&& keys.server_mac_key@ == okm.subrange(96, 128)
    &&& keys.client_iv@ == okm.subrange(128, 144)
    &&& keys.server_iv@ == okm.subrange(144, 160)
}

/// The 32-byte key of a session ticket (see `ticket_key`).
fn ticket_key_bytes(encryption_key: &[u8]) -> (r: Vec<u8>)
    ensures
        r@ == ticket_key(encryption_key@),
        r@.len() == 32,
{
    if encryption_key.len() == 32 {
        let mut k: Vec<u8> = Vec::new();
        push_bytes(&mut k, encryption_key);
        k
    } else {
        let mut salt: Vec<u8> = Vec::new();
        push_text(&mut salt, "session-ticket-salt");
        let mut info: Vec<u8> = Vec::new();
        push_text(&mut info, "session-ticket-encryption");
        match hkdf_sha256_expand(Some(salt.as_slice()), encryption_key, info.as_slice(), 32) {
            Some(okm) => okm,
            None => Vec::new(),
        }
    }
}

impl SessionTicket {
    /// A ticket for the serialized session state `state_bytes`: a random
    /// 32-byte id, whose first 12 bytes are the nonce the state is sealed
    /// with under the ticket key (see `ticket_key`), created now and valid
    /// for a day. Sealing fails only for a state too long for the cipher.
    pub fn new(state_bytes: &[u8], encryption_key: &[u8]) -> (r: Result<Self, NetworkError>)
        ensures
            r is Ok <==> aead_len_ok(state_bytes@.len()),
            r matches Err(e) ==> e matches NetworkError::Security(SecurityError::Encryption(_)),
            r matches Ok(t) ==> {
                &&& t.id@.len() == 32
                &&& t.lifetime == TICKET_LIFETIME_MS
                &&& t.encrypted_state@ == chacha20poly1305_seal(
                    ticket_key(encryption_key@),
                    t.id@.take(12),
                    state_bytes@,
                )
                &&& ticket_opening(t, encryption_key@) == Some(state_bytes@)
            },
    {
        let id = random_bytes(32);
        let key = ticket_key_bytes(encryption_key);
        let (nonce, _) = id.as_slice().split_at(12);
        assert(nonce@ =~= id@.take(12));
        let encrypted_state = match aead_seal(key.as_slice(), nonce, state_bytes) {
            Ok(c) => c,
            Err(_) => {
                return Err(
                    NetworkError::Security(SecurityError::Encryption(String::from_str("Failed to encrypt session ticket"))),
                );
            },
        };
        Ok(SessionTicket { id, encrypted_state, created_at: now_millis(), lifetime: TICKET_LIFETIME_MS })
    }

    /// The serialized session state of the ticket at time `now`: a ticket
    /// past its lifetime is refused as expired; otherwise the state is
    /// opened under the ticket key, and a state that does not authenticate
    /// is refused.
    pub fn decrypt_at(&self, encryption_key: &[u8], now: i64) -> (r: Result<Vec<u8>, NetworkError>)
        requires
            self.id@.len() >= 12,
        ensures
            ticket_outcome(*self, encryption_key@, now, r),
    {
        if now as i128 > self.created_at as i128 + self.lifetime as i128 {
            return Err(NetworkError::Security(SecurityError::SessionExpired(String::from_str("Session ticket expired"))));
        }
        let key = ticket_key_bytes(encryption_key);
        let (nonce, _) = self.id.as_slice().split_at(12);
        assert(nonce@ =~= self.id@.take(12));
        match aead_open(key.as_slice(), nonce, self.encrypted_state.as_slice()) {
            Ok(m) => Ok(m),
            Err(_) => Err(
                NetworkError::Security(
                    SecurityError::Decryption(String::from_str("Failed to decrypt session ticket - authentication failed")),
                ),
            ),
        }
    }

    /// The serialized session state of the ticket now (see `decrypt_at`).
    pub fn decrypt(&self, encryption_key: &[u8]) -> (r: Result<Vec<u8>, NetworkError>)
        requires
            self.id@.len() >= 12,
        ensures
            exists|now: i64| #[trigger] ticket_outcome(*self, encryption_key@, now, r),
    {
        let now = now_millis();
        let r = self.decrypt_at(encryption_key, now);
        assert(ticket_outcome(*self, encryption_key@, now, r));
        r
    }
}

/// What opening the ticket `t` under `key` at `now` gives: a ticket past
/// its lifetime is expired; otherwise its state opened under the ticket
/// key, or a decryption error when it does not authenticate.
pub open spec fn ticket_outcome(t: SessionTicket, key: Seq<u8>, now: i64, r: Result<Vec<u8>, NetworkError>) -> bool {
    if now > t.created_at + t.lifetime {
        r matches Err(NetworkError::Security(SecurityError::SessionExpired(_)))
    } else {
        match ticket_opening(t, key) {
            Some(m) => r matches Ok(v) && v@ == m,
            None => r matches Err(NetworkError::Security(SecurityError::Decryption(_))),
        }
    }
}

/// A session can be used at `now`: it has not expired, its last activity
/// is not after `now`, and it has not been idle for longer than
/// `max_idle`.
pub open spec fn usable_at(s: Session, now: i64, max_idle: u64) -> bool {
    &&& now <= s.state.expires_at
    &&& now >= s.state.last_activity
    &&& now - s.state.last_activity <= max_idle
}

/// What looking the session `found` up at `now` gives: a missing, expired
/// or idle session is expired, an activity time after `now` is an error;
/// otherwise the session itself.
pub open spec fn lookup_outcome(found: Option<Session>, max_idle: u64, now: i64, r: Result<&Session, NetworkError>) -> bool {
    match found {
        None => r matches Err(NetworkError::Security(SecurityError::SessionExpired(_))),
        Some(s) => if now > s.state.expires_at {
            r matches Err(NetworkError::Security(SecurityError::SessionExpired(_)))
        } else if now < s.state.last_activity {
            r matches Err(NetworkError::Security(SecurityError::Encryption(_)))
        } else if now - s.state.last_activity > max_idle {
            r matches Err(NetworkError::Security(SecurityError::SessionExpired(_)))
        } else {
            r matches Ok(x) && *x == s
        },
    }
}

/// A session can be marked active at `now`: `now` is not before its last
/// rotation, and its rotation count can still grow.
pub open spec fn touchable_at(s: Session, now: i64) -> bool {
    now >= s.last_rotation && s.state.rotation_count < u64::MAX
}

/// `t` is the session `s` marked active at `now`: once more than
/// `rotation` milliseconds have passed since its last rotation, its keys
/// are rotated through its ratchet.
pub open spec fn touched(s: Session, t: Session, rotation: u64, now: i64) -> bool {
    &&& t.state.id == s.state.id
    &&& t.state.peer_id == s.state.peer_id
    &&& t.state.created_at == s.state.created_at
    &&& t.state.expires_at == s.state.expires_at
    &&& t.state.authenticated == s.state.authenticated
    &&& t.state.last_activity == now
    &&& if now - s.last_rotation > rotation {
        let l = s.ratchet.kdf_spec().out_len();
        let next = kdf_okm(s.ratchet.kdf_spec(), None, s.ratchet.chain(), ratchet_info(s.ratchet.gen() as nat), 2 * l);
        &&& t.state.rotation_count == s.state.rotation_count + 1
        &&& t.last_rotation == now
        &&& t.ratchet.gen() == s.ratchet.gen() + 1
        &&& t.ratchet.chain() == next.subrange(0, l as int)
        &&& keys_from(
            t.keys,
            kdf_okm(
                KeyDerivationFunction::HkdfSha256,
                Some(rotation_salt(s.state.rotation_count)),
                next.subrange(l as int, 2 * l as int),
                rotation_info(s.state.peer_id@),
                160,
            ),
        )
    } else {
        &&& t.state.rotation_count == s.state.rotation_count
        &&& t.last_rotation == s.last_rotation
        &&& t.ratchet == s.ratchet
        &&& t.keys == s.keys
    }
}

/// What marking the session `before` active at `now` gives: a missing
/// session is expired, one that cannot be marked at `now` is an error and
/// stays as it was; otherwise the session is marked (see `touched`).
pub open spec fn touch_outcome(before: Option<Session>, after: Option<Session>, rotation: u64, now: i64, r: Result<(), NetworkError>) -> bool {
    match before {
        None => (r matches Err(NetworkError::Security(SecurityError::SessionExpired(_)))) && after is None,
        Some(s) => if touchable_at(s, now) {
            r is Ok && (after matches Some(t) && touched(s, t, rotation, now))
        } else {
            (r matches Err(NetworkError::Security(SecurityError::Encryption(_)))) && after == before
        },
    }
}

impl Session {
    /// The session's ratchet has advanced once per rotation, and its write
    /// keys are 32 bytes long.
    pub open spec fn wf(&self) -> bool {
        &&& self.ratchet.gen() == self.state.rotation_count
        &&& self.keys.client_write_key@.len() == 32
        &&& self.keys.server_write_key@.len() == 32
    }
}

/// The position of the first session with id `id`, from `i` on.
pub open spec fn find_session(ss: Seq<Session>, id: u128, i: int) -> Option<int>
    decreases ss.len() - i,
{
    if i < 0 || i >= ss.len() {
        None
    } else if ss[i].state.id == id {
        Some(i)
    } else {
        find_session(ss, id, i + 1)
    }
}

proof fn lemma_find_session(ss: Seq<Session>, id: u128, i: int)
    requires
        0 <= i,
    ensures
        find_session(ss, id, i) matches Some(j) ==> i <= j < ss.len() && ss[j].state.id == id,
    decreases ss.len() - i,
{
    if i < ss.len() {
        lemma_find_session(ss, id, i + 1);
    }
}

proof fn lemma_find_session_update(ss: Seq<Session>, k: int, s: Session, id: u128, i: int)
    requires
        0 <= i,
        0 <= k < ss.len(),
        s.state.id == ss[k].state.id,
    ensures
        find_session(ss.update(k, s), id, i) == find_session(ss, id, i),
    decreases ss.len() - i,
{
    if i < ss.len() {
        lemma_find_session_update(ss, k, s, id, i + 1);
    }
}

proof fn lemma_find_session_push(ss: Seq<Session>, s: Session, id: u128, i: int)
    requires
        0 <= i <= ss.len(),
    ensures
        find_session(ss, id, i) is Some ==> find_session(ss.push(s), id, i) == find_session(ss, id, i),
        find_session(ss, id, i) is None ==> find_session(ss.push(s), id, i) == (if s.state.id == id {
            Some(ss.len() as int)
        } else {
            None::<int>
        }),
    decreases ss.len() - i,
{
    if i < ss.len() {
        lemma_find_session_push(ss, s, id, i + 1);
        assert(ss.push(s)[i] == ss[i]);
    } else {
        assert(ss.push(s)[i] == s);
        assert(find_session(ss.push(s), id, i + 1) is None);
    }
}

/// Whether a session is alive at `now`: not expired, and not idle for
/// longer than `max_idle`.
pub open spec fn live_at(s: Session, now: i64, max_idle: u64) -> bool {
    now <= s.state.expires_at && now - s.state.last_activity <= max_idle
}

/// The sessions of `ss` alive at `now`, in order.
pub open spec fn alive_at(ss: Seq<Session>, now: i64, max_idle: u64) -> Seq<Session> {
    ss.filter(|s: Session| live_at(s, now, max_idle))
}

/// The session manager's spec view of one lookup: the session with `id`.
pub open spec fn session_with(ss: Seq<Session>, id: u128) -> Option<Session> {
    match find_session(ss, id, 0) {
        Some(j) => Some(ss[j]),
        None => None,
    }
}

/// Session manager for handling multiple secure sessions.
pub struct SessionManager {
    /// Active sessions, by id (first match)
    sessions: Vec<Session>,
    /// Default session lifetime
    default_lifetime: u64,
    /// Key rotation interval
    rotation_interval: u64,
    /// Maximum session idle time
    max_idle_time: u64,
}

/// A session created at `now` with `lifetime` expires at a representable
/// time.
pub open spec fn lifetime_fits(lifetime: u64, now: i64) -> bool {
    lifetime <= i64::MAX && now + lifetime <= i64::MAX
}

/// The UUID bytes of an id, in standard order.
pub(crate) fn uuid_to_bytes(id: u128) -> (r: Vec<u8>)
    ensures
        r@ == uuid_bytes(id),
{
    let le = u128_to_le_bytes(id);
    let mut r: Vec<u8> = Vec::new();
    let n = le.len();
    let mut i: usize = n;
    while i > 0
        invariant
            n == le@.len(),
            i <= n,
            r@ == le@.subrange(i as int, n as int).reverse(),
        decreases i,
    {
        i = i - 1;
        r.push(le[i]);
        assert(r@ =~= le@.subrange(i as int, n as int).reverse());
    }
    assert(le@.subrange(0, n as int) =~= le@);
    r
}

/// Appends bytes.
fn push_bytes(out: &mut Vec<u8>, b: &[u8])
    ensures
        final(out)@ == old(out)@ + b@,
{
    let n = b.len();
    let mut i: usize = 0;
    while i < n
        invariant
            n == b@.len(),
            i <= n,
            out@ == old(out)@ + b@.subrange(0, i as int),
        decreases n - i,
    {
        out.push(b[i]);
        i = i + 1;
        assert(out@ =~= old(out)@ + b@.subrange(0, i as int));
    }
    assert(b@.subrange(0, n as int) =~= b@);
}

/// Appends the UTF-8 bytes of a text.
pub(crate) fn push_text(out: &mut Vec<u8>, s: &str)
    ensures
        final(out)@ == old(out)@ + encode_utf8(s@),
{
    let b = s.as_bytes();
    let n = b.len();
    let mut i: usize = 0;
    while i < n
        invariant
            n == b@.len(),
            b@ == encode_utf8(s@),
            i <= n,
            out@ == old(out)@ + b@.subrange(0, i as int),
        decreases n - i,
    {
        out.push(b[i]);
        i = i + 1;
        assert(out@ =~= old(out)@ + b@.subrange(0, i as int));
    }
    assert(b@.subrange(0, n as int) =~= b@);
}

impl SessionManager {
    pub closed spec fn entries(&self) -> Seq<Session> {
        self.sessions@
    }

    pub closed spec fn lifetime(&self) -> u64 {
        self.default_lifetime
    }

    pub closed spec fn rotation(&self) -> u64 {
        self.rotation_interval
    }

    pub closed spec fn max_idle(&self) -> u64 {
        self.max_idle_time
    }

    /// The session with `id`, if any.
    pub open spec fn session(&self, id: u128) -> Option<Session> {
        session_with(self.entries(), id)
    }

    /// Every session's ratchet has advanced once per rotation.
    pub open spec fn wf(&self) -> bool {
        forall|i: int| 0 <= i < self.entries().len() ==> (#[trigger] self.entries()[i]).wf()
    }

    /// A well-formed manager's sessions are well formed.
    pub proof fn lemma_session_wf(&self, id: u128)
        requires
            self.wf(),
        ensures
            self.session(id) matches Some(s) ==> s.wf(),
    {
        lemma_find_session(self.entries(), id, 0);
    }

    /// A manager with a lifetime of an hour, a rotation interval of five
    /// minutes and an idle limit of fifteen minutes.
    pub fn new() -> (r: Self)
        ensures
            r.entries().len() == 0,
            r.wf(),
            r.lifetime() == 3_600_000,
            r.rotation() == 300_000,
            r.max_idle() == 900_000,
    {
        SessionManager::new_with_config(3_600_000, 300_000, 900_000)
    }

    /// A manager with the given lifetime, rotation interval and idle limit.
    pub fn new_with_config(default_lifetime: u64, rotation_interval: u64, max_idle_time: u64) -> (r: Self)
        ensures
            r.entries().len() == 0,
            r.wf(),
            r.lifetime() == default_lifetime,
            r.rotation() == rotation_interval,
            r.max_idle() == max_idle_time,
    {
        SessionManager { sessions: Vec::new(), default_lifetime, rotation_interval, max_idle_time }
    }

    /// Creates the session `id` with `peer_id` at time `now`: its keys come
    /// from one HKDF expansion of the master secret (the session id's bytes
    /// as salt, `session-<peer>` as info), its ratchet starts from the
    /// master secret, and it expires one lifetime later. A session of the
    /// same id is replaced.
    pub fn create_session_at(&mut self, peer_id: String, master_secret: Vec<u8>, kdf: KeyDerivationFunction, id: u128, now: i64) -> (r:
        Result<u128, NetworkError>)
        requires
            old(self).wf(),
            old(self).lifetime() <= i64::MAX,
            now + old(self).lifetime() <= i64::MAX,
        ensures
            final(self).wf(),
            r == Ok::<u128, NetworkError>(id),
            final(self).lifetime() == old(self).lifetime(),
            final(self).rotation() == old(self).rotation(),
            final(self).max_idle() == old(self).max_idle(),
            final(self).session(id) matches Some(s) && {
                &&& s.state.id == id
                &&& s.state.peer_id@ == peer_id@
                &&& s.state.created_at == now
                &&& s.state.last_activity == now
                &&& s.state.expires_at == now + old(self).lifetime()
                &&& s.state.rotation_count == 0
                &&& !s.state.authenticated
                &&& s.last_rotation == now
                &&& keys_from(s.keys, kdf_okm(kdf, Some(uuid_bytes(id)), master_secret@, session_info(peer_id@), 160))
                &&& s.ratchet.chain() == master_secret@
                &&& s.ratchet.kdf_spec() == kdf
            },
            forall|q: u128| q != id ==> #[trigger] final(self).session(q) == old(self).session(q),
    {
        let salt = uuid_to_bytes(id);
        let mut info: Vec<u8> = Vec::new();
        push_text(&mut info, "session-");
        push_text(&mut info, peer_id.as_str());
        let keys = match derive_session_keys(kdf, master_secret.as_slice(), Some(salt.as_slice()), info.as_slice(), 32, 16) {
            Ok(k) => k,
            Err(e) => {
                return Err(e);
            },
        };
        let ratchet = KeyRatchet::new(master_secret, kdf);
        let session = Session {
            state: SessionState {
                id,
                peer_id,
                created_at: now,
                last_activity: now,
                expires_at: now + self.default_lifetime as i64,
                rotation_count: 0,
                authenticated: false,
            },
            keys,
            ratchet,
            last_rotation: now,
        };
        self.insert_session(session);
        Ok(id)
    }

    /// Creates a session with a fresh random id, now (see
    /// `create_session_at`). It is refused when the session's expiry would
    /// lie beyond the latest representable time.
    pub fn create_session(&mut self, peer_id: String, master_secret: Vec<u8>, kdf: KeyDerivationFunction) -> (r: Result<
        u128,
        NetworkError,
    >)
        requires
            old(self).wf(),
        ensures
            final(self).wf(),
            final(self).lifetime() == old(self).lifetime(),
            final(self).rotation() == old(self).rotation(),
            final(self).max_idle() == old(self).max_idle(),
            exists|now: i64| {
                &&& (r is Ok <==> #[trigger] lifetime_fits(old(self).lifetime(), now))
                &&& r matches Ok(id) ==> (final(self).session(id) matches Some(s) && s.state.created_at == now)
            },
            r matches Ok(id) ==> final(self).session(id) matches Some(s) && {
                &&& s.state.id == id
                &&& s.state.peer_id@ == peer_id@
                &&& s.state.last_activity == s.state.created_at
                &&& s.state.expires_at == s.state.created_at + old(self).lifetime()
                &&& s.state.rotation_count == 0
                &&& !s.state.authenticated
                &&& s.last_rotation == s.state.created_at
                &&& keys_from(s.keys, kdf_okm(kdf, Some(uuid_bytes(id)), master_secret@, session_info(peer_id@), 160))
                &&& s.ratchet.chain() == master_secret@
                &&& s.ratchet.kdf_spec() == kdf
            },
            r matches Ok(id) ==> forall|q: u128| q != id ==> #[trigger] final(self).session(q) == old(self).session(q),
            r is Err ==> (r matches Err(NetworkError::Security(SecurityError::SessionExpired(_)))
                && final(self).entries() == old(self).entries()),
    {
        let now = now_millis();
        if self.default_lifetime > i64::MAX as u64 || now > i64::MAX - self.default_lifetime as i64 {
            assert(!lifetime_fits(old(self).lifetime(), now));
            return Err(NetworkError::Security(SecurityError::SessionExpired(String::from_str("Session lifetime out of range"))));
        }
        assert(lifetime_fits(old(self).lifetime(), now));
        let id = fresh_uuid_value();
        self.create_session_at(peer_id, master_secret, kdf, id, now)
    }

    /// Puts `session` in place of the session of its id, or adds it.
    fn insert_session(&mut self, session: Session)
        requires
            old(self).wf(),
            session.wf(),
        ensures
            final(self).wf(),
            final(self).session(session.state.id) == Some(session),
            forall|q: u128| q != session.state.id ==> #[trigger] final(self).session(q) == old(self).session(q),
            final(self).lifetime() == old(self).lifetime(),
            final(self).rotation() == old(self).rotation(),
            final(self).max_idle() == old(self).max_idle(),
    {
        let ghost ss = self.sessions@;
        let ghost sv = session;
        let id = session.state.id;
        match self.position(id) {
            Some(k) => {
                proof {
                    lemma_find_session(ss, id, 0);
                    assert forall|q: u128| #[trigger] find_session(ss.update(k as int, sv), q, 0) == find_session(ss, q, 0) by {
                        lemma_find_session_update(ss, k as int, sv, q, 0);
                    }
                }
                self.sessions.set(k, session);
                assert(self.sessions@ == ss.update(k as int, sv));
                proof {
                    assert forall|q: u128| q != sv.state.id implies #[trigger] session_with(ss.update(k as int, sv), q)
                        == session_with(ss, q) by {
                        lemma_find_session(ss, q, 0);
                        if let Some(j) = find_session(ss, q, 0) {
                            assert(j != k);
                        }
                    }
                }
            },
            None => {
                proof {
                    assert forall|q: u128| #[trigger] find_session(ss.push(sv), q, 0) == (if find_session(ss, q, 0) is Some {
                        find_session(ss, q, 0)
                    } else if sv.state.id == q {
                        Some(ss.len() as int)
                    } else {
                        None::<int>
                    }) by {
                        lemma_find_session_push(ss, sv, q, 0);
                    }
                    lemma_find_session(ss, id, 0);
                }
                self.sessions.push(session);
                assert(self.sessions@ == ss.push(sv));
                proof {
                    assert forall|q: u128| q != sv.state.id implies #[trigger] session_with(ss.push(sv), q) == session_with(ss, q) by {
                        lemma_find_session(ss, q, 0);
                        if let Some(j) = find_session(ss, q, 0) {
                            assert(ss.push(sv)[j] == ss[j]);
                        }
                    }
                    assert(ss.push(sv)[ss.len() as int] == sv);
                }
            },
        }
    }

    /// The session with `id` at time `now`: missing, expired, with an
    /// activity time after `now`, or idle for longer than the idle limit is
    /// an error; otherwise the session.
    pub fn get_session_at(&self, session_id: u128, now: i64) -> (r: Result<&Session, NetworkError>)
        ensures
            lookup_outcome(self.session(session_id), self.max_idle(), now, r),
    {
        let k = match self.position(session_id) {
            Some(k) => k,
            None => {
                return Err(NetworkError::Security(SecurityError::SessionExpired(String::from_str("Session not found"))));
            },
        };
        proof {
            lemma_find_session(self.entries(), session_id, 0);
        }
        let session = &self.sessions[k];
        if now > session.state.expires_at {
            return Err(NetworkError::Security(SecurityError::SessionExpired(String::from_str("Session has expired"))));
        }
        if now < session.state.last_activity {
            return Err(
                NetworkError::Security(SecurityError::Encryption(String::from_str("Invalid session activity timestamp"))),
            );
        }
        let idle = (now as i128 - session.state.last_activity as i128) as u64;
        if idle > self.max_idle_time {
            return Err(NetworkError::Security(SecurityError::SessionExpired(String::from_str("Session idle timeout"))));
        }
        Ok(session)
    }

    /// The session with `id`, now.
    pub fn get_session(&self, session_id: u128) -> (r: Result<&Session, NetworkError>)
        ensures
            exists|now: i64| #[trigger] lookup_outcome(self.session(session_id), self.max_idle(), now, r),
    {
        let now = now_millis();
        let r = self.get_session_at(session_id, now);
        assert(lookup_outcome(self.session(session_id), self.max_idle(), now, r));
        r
    }

    /// Marks the session with `id` as active at `now`; once the rotation
    /// interval has passed since its last rotation, its keys are rotated:
    /// the ratchet's next key is expanded (the rotation number as salt,
    /// `session-<peer>-rotated` as info) into new keys, and the rotation is
    /// counted.
    pub fn touch_session_at(&mut self, session_id: u128, now: i64) -> (r: Result<(), NetworkError>)
        requires
            old(self).wf(),
            old(self).session(session_id) matches Some(s) ==> now >= s.last_rotation && s.state.rotation_count
                < u64::MAX,
        ensures
            final(self).wf(),
            final(self).lifetime() == old(self).lifetime(),
            final(self).rotation() == old(self).rotation(),
            final(self).max_idle() == old(self).max_idle(),
            forall|q: u128| q != session_id ==> #[trigger] final(self).session(q) == old(self).session(q),
            match old(self).session(session_id) {
                None => r matches Err(NetworkError::Security(SecurityError::SessionExpired(_))) && final(self).entries()
                    == old(self).entries(),
                Some(s) => r is Ok && (final(self).session(session_id) matches Some(t) && touched(
                    s,
                    t,
                    old(self).rotation(),
                    now,
                )),
            },
    {
        let ghost ss = self.sessions@;
        let k = match self.position(session_id) {
            Some(k) => k,
            None => {
                return Err(NetworkError::Security(SecurityError::SessionExpired(String::from_str("Session not found"))));
            },
        };
        proof {
            lemma_find_session(ss, session_id, 0);
        }
        let ghost s0 = ss[k as int];
        let mut session = self.sessions.remove(k);
        assert(session == s0);
        session.state.last_activity = now;
        let since = (now as i128 - session.last_rotation as i128) as u64;
        if since > self.rotation_interval {
            Self::rotate_session_keys(&mut session, now);
        }
        self.sessions.insert(k, session);
        proof {
            let sv = self.sessions@[k as int];
            assert(self.sessions@ =~= ss.update(k as int, sv));
            lemma_find_session_update(ss, k as int, sv, session_id, 0);
            assert forall|q: u128| q != session_id implies #[trigger] session_with(ss.update(k as int, sv), q) == session_with(ss, q) by {
                lemma_find_session_update(ss, k as int, sv, q, 0);
                lemma_find_session(ss, q, 0);
                if let Some(j) = find_session(ss, q, 0) {
                    assert(j != k);
                }
            }
            assert forall|x: int| 0 <= x < self.entries().len() implies (#[trigger] self.entries()[x]).wf() by {
                if x != k {
                    assert(self.entries()[x] == ss[x]);
                }
            }
        }
        Ok(())
    }

    /// Rotates a session's keys at `now` through its ratchet.
    fn rotate_session_keys(session: &mut Session, now: i64)
        requires
            old(session).wf(),
            old(session).state.rotation_count < u64::MAX,
        ensures
            final(session).wf(),
            final(session).state == (SessionState { rotation_count: (old(session).state.rotation_count + 1) as u64, ..old(session).state }),
            final(session).last_rotation == now,
            ({
                let s = *old(session);
                let l = s.ratchet.kdf_spec().out_len();
                let next = kdf_okm(s.ratchet.kdf_spec(), None, s.ratchet.chain(), ratchet_info(s.ratchet.gen() as nat), 2 * l);
                &&& final(session).ratchet.gen() == s.ratchet.gen() + 1
                &&& final(session).ratchet.chain() == next.subrange(0, l as int)
                &&& final(session).ratchet.kdf_spec() == s.ratchet.kdf_spec()
                &&& keys_from(
                    final(session).keys,
                    kdf_okm(
                        KeyDerivationFunction::HkdfSha256,
                        Some(rotation_salt(s.state.rotation_count)),
                        next.subrange(l as int, 2 * l as int),
                        rotation_info(s.state.peer_id@),
                        160,
                    ),
                )
            }),
    {
        let new_master = match session.ratchet.advance() {
            Ok(k) => k,
            Err(_) => {
                return;
            },
        };
        let mut salt: Vec<u8> = Vec::new();
        push_text(&mut salt, "rotation-");
        push_decimal(&mut salt, session.state.rotation_count);
        let mut info: Vec<u8> = Vec::new();
        push_text(&mut info, "session-");
        push_text(&mut info, session.state.peer_id.as_str());
        push_text(&mut info, "-rotated");
        assert(info@ =~= rotation_info(session.state.peer_id@));
        match derive_session_keys(
            KeyDerivationFunction::HkdfSha256,
            new_master.as_slice(),
            Some(salt.as_slice()),
            info.as_slice(),
            32,
            16,
        ) {
            Ok(keys) => {
                session.keys = keys;
            },
            Err(_) => {},
        }
        session.state.rotation_count = session.state.rotation_count + 1;
        session.last_rotation = now;
    }

    /// Marks the session with `id` as authenticated.
    pub fn authenticate_session(&mut self, session_id: u128) -> (r: Result<(), NetworkError>)
        requires
            old(self).wf(),
        ensures
            final(self).wf(),
            forall|q: u128| q != session_id ==> #[trigger] final(self).session(q) == old(self).session(q),
            match old(self).session(session_id) {
                None => r matches Err(NetworkError::Security(SecurityError::SessionExpired(_))),
                Some(s) => r is Ok && (final(self).session(session_id) matches Some(t) && t.state == (SessionState {
                    authenticated: true,
                    ..s.state
                }) && t.keys == s.keys && t.ratchet == s.ratchet && t.last_rotation == s.last_rotation),
            },
    {
        let ghost ss = self.sessions@;
        let k = match self.position(session_id) {
            Some(k) => k,
            None => {
                return Err(NetworkError::Security(SecurityError::SessionExpired(String::from_str("Session not found"))));
            },
        };
        proof {
            lemma_find_session(ss, session_id, 0);
        }
        let mut session = self.sessions.remove(k);
        session.state.authenticated = true;
        self.sessions.insert(k, session);
        proof {
            let sv = self.sessions@[k as int];
            assert(self.sessions@ =~= ss.update(k as int, sv));
            lemma_find_session_update(ss, k as int, sv, session_id, 0);
            assert forall|q: u128| q != session_id implies #[trigger] session_with(ss.update(k as int, sv), q) == session_with(ss, q) by {
                lemma_find_session_update(ss, k as int, sv, q, 0);
                lemma_find_session(ss, q, 0);
                if let Some(j) = find_session(ss, q, 0) {
                    assert(j != k);
                }
            }
            assert forall|x: int| 0 <= x < self.entries().len() implies (#[trigger] self.entries()[x]).wf() by {
                if x != k {
                    assert(self.entries()[x] == ss[x]);
                }
            }
        }
        Ok(())
    }

    /// Marks the session with `id` as active now (see `touch_session_at`);
    /// a session whose last rotation lies after now is refused.
    pub fn touch_session(&mut self, session_id: u128) -> (r: Result<(), NetworkError>)
        requires
            old(self).wf(),
        ensures
            final(self).wf(),
            final(self).lifetime() == old(self).lifetime(),
            final(self).rotation() == old(self).rotation(),
            final(self).max_idle() == old(self).max_idle(),
            exists|now: i64| #[trigger] touch_outcome(
                old(self).session(session_id),
                final(self).session(session_id),
                old(self).rotation(),
                now,
                r,
            ),
            r is Err ==> final(self).entries() == old(self).entries(),
            forall|q: u128| q != session_id ==> #[trigger] final(self).session(q) == old(self).session(q),
    {
        let now = now_millis();
        match self.position(session_id) {
            Some(k) => {
                proof {
                    lemma_find_session(self.entries(), session_id, 0);
                }
                if now < self.sessions[k].last_rotation || self.sessions[k].state.rotation_count == u64::MAX {
                    let r = Err(
                        NetworkError::Security(SecurityError::Encryption(String::from_str("Invalid session rotation timestamp"))),
                    );
                    assert(touch_outcome(self.session(session_id), self.session(session_id), self.rotation(), now, r));
                    return r;
                }
            },
            None => {},
        }
        let ghost before = self.session(session_id);
        let r = self.touch_session_at(session_id, now);
        assert(touch_outcome(before, self.session(session_id), old(self).rotation(), now, r));
        r
    }

    /// Removes the session with `id`.
    pub fn remove_session(&mut self, session_id: u128) -> (r: Result<(), NetworkError>)
        requires
            old(self).wf(),
        ensures
            final(self).wf(),
            final(self).lifetime() == old(self).lifetime(),
            final(self).rotation() == old(self).rotation(),
            final(self).max_idle() == old(self).max_idle(),
            match find_session(old(self).entries(), session_id, 0) {
                None => r matches Err(NetworkError::Security(SecurityError::SessionExpired(_))) && final(self).entries()
                    == old(self).entries(),
                Some(k) => r is Ok && final(self).entries() == old(self).entries().remove(k),
            },
    {
        let ghost ss = self.sessions@;
        match self.position(session_id) {
            Some(k) => {
                proof {
                    lemma_find_session(ss, session_id, 0);
                }
                let _removed = self.sessions.remove(k);
                proof {
                    assert forall|x: int| 0 <= x < self.entries().len() implies (#[trigger] self.entries()[x]).wf() by {
                        if x < k {
                            assert(self.entries()[x] == ss[x]);
                        } else {
                            assert(self.entries()[x] == ss[x + 1]);
                        }
                    }
                }
                Ok(())
            },
            None => Err(NetworkError::Security(SecurityError::SessionExpired(String::from_str("Session not found")))),
        }
    }

    /// Keeps the sessions that, at time `now`, have not expired and have not
    /// been idle for longer than the idle limit.
    pub fn cleanup_expired_at(&mut self, now: i64)
        requires
            old(self).wf(),
            forall|i: int| 0 <= i < old(self).entries().len() ==> (#[trigger] old(self).entries()[i]).state.last_activity <= now,
        ensures
            final(self).wf(),
            final(self).entries() == old(self).entries().filter(|s: Session| live_at(s, now, old(self).max_idle())),
            final(self).lifetime() == old(self).lifetime(),
            final(self).rotation() == old(self).rotation(),
            final(self).max_idle() == old(self).max_idle(),
    {
        let ghost ss = self.sessions@;
        let ghost pred = |s: Session| live_at(s, now, self.max_idle_time);
        assert forall|i: int| 0 <= i < ss.len() implies (#[trigger] ss[i]).state.last_activity <= now && ss[i].wf() by {
            assert(old(self).entries()[i] == ss[i]);
        }
        let mut rest: Vec<Session> = Vec::new();
        std::mem::swap(&mut rest, &mut self.sessions);
        let n = rest.len();
        let mut idx: usize = 0;
        while idx < n
            invariant
                n == ss.len(),
                idx <= n,
                rest@ == ss.skip(idx as int),
                forall|i: int| 0 <= i < n ==> (#[trigger] ss[i]).state.last_activity <= now,
                forall|i: int| 0 <= i < n ==> (#[trigger] ss[i]).wf(),
                self.sessions@ == ss.take(idx as int).filter(pred),
                pred == (|s: Session| live_at(s, now, self.max_idle_time)),
                self.max_idle_time == old(self).max_idle_time,
                self.default_lifetime == old(self).default_lifetime,
                self.rotation_interval == old(self).rotation_interval,
            decreases n - idx,
        {
            proof {
                reveal_with_fuel(Seq::<_>::filter, 1);
                assert(ss.take(idx + 1).drop_last() =~= ss.take(idx as int));
                assert(ss.skip(idx as int)[0] == ss[idx as int]);
            }
            let first = rest.remove(0);
            let keep = now <= first.state.expires_at && (now as i128 - first.state.last_activity as i128) as u64
                <= self.max_idle_time;
            if keep {
                self.sessions.push(first);
            }
            proof {
                assert(rest@ =~= ss.skip(idx + 1));
            }
            idx = idx + 1;
        }
        assert(ss.take(n as int) =~= ss);
        proof {
            broadcast use vstd::seq_lib::group_filter_ensures;
            assert forall|x: int| 0 <= x < self.entries().len() implies (#[trigger] self.entries()[x]).wf() by {
                let e = self.entries()[x];
                assert(ss.filter(pred)[x] == e);
                assert(ss.filter(pred).contains(e));
                ss.lemma_filter_contains_rev(pred, e);
                let i = choose|i: int| 0 <= i < ss.len() && ss[i] == e;
                assert(ss[i].wf());
            }
        }
    }

    /// Keeps the sessions alive now (see `cleanup_expired_at`). A session
    /// whose last activity lies after now is a clock error: then nothing is
    /// removed.
    pub fn cleanup_expired(&mut self) -> (r: Result<(), NetworkError>)
        requires
            old(self).wf(),
        ensures
            final(self).wf(),
            final(self).lifetime() == old(self).lifetime(),
            final(self).rotation() == old(self).rotation(),
            final(self).max_idle() == old(self).max_idle(),
            r is Err ==> (r matches Err(NetworkError::Security(SecurityError::Encryption(_))) && final(self).entries()
                == old(self).entries()),
            r is Ok ==> exists|now: i64|
                final(self).entries() == #[trigger] alive_at(old(self).entries(), now, old(self).max_idle()),
    {
        let now = now_millis();
        let n = self.sessions.len();
        let mut i: usize = 0;
        while i < n
            invariant
                *self == *old(self),
                old(self).wf(),
                n == self.sessions@.len(),
                i <= n,
                forall|k: int| 0 <= k < i ==> (#[trigger] self.sessions@[k]).state.last_activity <= now,
            decreases n - i,
        {
            if self.sessions[i].state.last_activity > now {
                return Err(
                    NetworkError::Security(SecurityError::Encryption(String::from_str("Invalid session activity timestamp"))),
                );
            }
            i = i + 1;
        }
        self.cleanup_expired_at(now);
        assert(self.entries() == alive_at(old(self).entries(), now, old(self).max_idle()));
        Ok(())
    }

    /// The number of sessions held.
    pub fn active_session_count(&self) -> (r: usize)
        ensures
            r == self.entries().len(),
    {
        self.sessions.len()
    }

    /// The ids of the sessions held, in order.
    pub fn list_sessions(&self) -> (r: Vec<u128>)
        ensures
            r@ == self.entries().map_values(|s: Session| s.state.id),
    {
        let mut r: Vec<u128> = Vec::new();
        let n = self.sessions.len();
        let mut i: usize = 0;
        while i < n
            invariant
                n == self.sessions@.len(),
                i <= n,
                r@ == self.entries().take(i as int).map_values(|s: Session| s.state.id),
            decreases n - i,
        {
            r.push(self.sessions[i].state.id);
            i = i + 1;
            assert(r@ =~= self.entries().take(i as int).map_values(|s: Session| s.state.id));
        }
        assert(self.entries().take(n as int) =~= self.entries());
        r
    }

    /// The position of the session with `id`.
    fn position(&self, id: u128) -> (r: Option<usize>)
        ensures
            match r {
                Some(k) => find_session(self.entries(), id, 0) == Some(k as int),
                None => find_session(self.entries(), id, 0) is None,
            },
    {
        let n = self.sessions.len();
        let mut i: usize = 0;
        while i < n
            invariant
                n == self.sessions@.len(),
                i <= n,
                find_session(self.entries(), id, 0) == find_session(self.entries(), id, i as int),
            decreases n - i,
        {
            if self.sessions[i].state.id == id {
                return Some(i);
            }
            i = i + 1;
        }
        None
    }
}

} // verus!
