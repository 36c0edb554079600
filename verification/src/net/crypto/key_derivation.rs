//! Key derivation: session keys cut from one HKDF output, a ratchet that
//! derives a fresh key per step, and password-based keys.

use vstd::prelude::*;
use crate::net::error::{NetworkError, SecurityError};

verus! {

/// Key derivation function algorithms.
#[derive(Debug, Clone, Copy, PartialEq, Eq, Structural)]
pub enum KeyDerivationFunction {
    /// HKDF with SHA-256
    HkdfSha256,
    /// HKDF with SHA-384
    HkdfSha384,
    /// HKDF with SHA-512
    HkdfSha512,
}

impl KeyDerivationFunction {
    /// The digest length of the KDF's hash, in bytes.
    pub open spec fn out_len(&self) -> nat {
        match self {
            KeyDerivationFunction::HkdfSha256 => 32,
            KeyDerivationFunction::HkdfSha384 => 48,
            KeyDerivationFunction::HkdfSha512 => 64,
        }
    }

    pub open spec fn label(&self) -> Seq<char> {
        match self {
            KeyDerivationFunction::HkdfSha256 => "HKDF-SHA256"@,
            KeyDerivationFunction::HkdfSha384 => "HKDF-SHA384"@,
            KeyDerivationFunction::HkdfSha512 => "HKDF-SHA512"@,
        }
    }

    /// Returns the output length for this KDF.
    pub fn output_len(&self) -> (r: usize)
        ensures
            r == self.out_len(),
    {
        match self {
            KeyDerivationFunction::HkdfSha256 => 32,
            KeyDerivationFunction::HkdfSha384 => 48,
            KeyDerivationFunction::HkdfSha512 => 64,
        }
    }

    /// The KDF's name.
    pub fn to_string(&self) -> (r: String)
        ensures
            r@ == self.label(),
    {
        let s = match self {
            KeyDerivationFunction::HkdfSha256 => "HKDF-SHA256",
            KeyDerivationFunction::HkdfSha384 => "HKDF-SHA384",
            KeyDerivationFunction::HkdfSha512 => "HKDF-SHA512",
        };
        String::from_str(s)
    }
}

/// The bytes of an optional salt.
pub open spec fn salt_view(salt: Option<&[u8]>) -> Option<Seq<u8>> {
    match salt {
        Some(s) => Some(s@),
        None => None,
    }
}

/// The `len` bytes of HKDF-SHA256 output keying material for a salt, input
/// key material and info (RFC 5869).
pub uninterp spec fn hkdf_sha256_okm(salt: Option<Seq<u8>>, ikm: Seq<u8>, info: Seq<u8>, len: nat) -> Seq<u8>;

/// The same with SHA-384.
pub uninterp spec fn hkdf_sha384_okm(salt: Option<Seq<u8>>, ikm: Seq<u8>, info: Seq<u8>, len: nat) -> Seq<u8>;

/// The same with SHA-512.
pub uninterp spec fn hkdf_sha512_okm(salt: Option<Seq<u8>>, ikm: Seq<u8>, info: Seq<u8>, len: nat) -> Seq<u8>;

/// The `len` bytes of PBKDF2-HMAC-SHA256 output for a password, salt and
/// iteration count.
pub uninterp spec fn pbkdf2_sha256_key(password: Seq<u8>, salt: Seq<u8>, iterations: u32, len: nat) -> Seq<u8>;

/// HKDF output keying material under `kdf`.
pub open spec fn kdf_okm(kdf: KeyDerivationFunction, salt: Option<Seq<u8>>, ikm: Seq<u8>, info: Seq<u8>, len: nat) -> Seq<u8> {
    match kdf {
        KeyDerivationFunction::HkdfSha256 => hkdf_sha256_okm(salt, ikm, info, len),
        KeyDerivationFunction::HkdfSha384 => hkdf_sha384_okm(salt, ikm, info, len),
        KeyDerivationFunction::HkdfSha512 => hkdf_sha512_okm(salt, ikm, info, len),
    }
}

/// Calls `hkdf::Hkdf::<sha2::Sha256>::new` and `expand` into `len` bytes.
/// Trusted claims: the expansion succeeds exactly when `len` is at most 255
/// digests (32 bytes each), as the crate's source checks, and its output is
/// the named HKDF output for these arguments.
#[verifier::external_body]
pub(crate) fn hkdf_sha256_expand(salt: Option<&[u8]>, ikm: &[u8], info: &[u8], len: usize) -> (r: Option<Vec<u8>>)
    ensures
        r is Some <==> len <= 255 * 32,
        r matches Some(v) ==> v@ == hkdf_sha256_okm(salt_view(salt), ikm@, info@, len as nat),
        r matches Some(v) ==> v@.len() == len,
{
    let mut okm = vec![0u8; len];
    hkdf::Hkdf::<sha2::Sha256>::new(salt, ikm).expand(info, &mut okm).ok().map(|_| okm)
}

/// Calls `hkdf::Hkdf::<sha2::Sha384>::new` and `expand`; claims as for
/// SHA-256, with 48-byte digests.
#[verifier::external_body]
fn hkdf_sha384_expand(salt: Option<&[u8]>, ikm: &[u8], info: &[u8], len: usize) -> (r: Option<Vec<u8>>)
    ensures
        r is Some <==> len <= 255 * 48,
        r matches Some(v) ==> v@ == hkdf_sha384_okm(salt_view(salt), ikm@, info@, len as nat),
        r matches Some(v) ==> v@.len() == len,
{
    let mut okm = vec![0u8; len];
    hkdf::Hkdf::<sha2::Sha384>::new(salt, ikm).expand(info, &mut okm).ok().map(|_| okm)
}

/// Calls `hkdf::Hkdf::<sha2::Sha512>::new` and `expand`; claims as for
/// SHA-256, with 64-byte digests.
#[verifier::external_body]
fn hkdf_sha512_expand(salt: Option<&[u8]>, ikm: &[u8], info: &[u8], len: usize) -> (r: Option<Vec<u8>>)
    ensures
        r is Some <==> len <= 255 * 64,
        r matches Some(v) ==> v@ == hkdf_sha512_okm(salt_view(salt), ikm@, info@, len as nat),
        r matches Some(v) ==> v@.len() == len,
{
    let mut okm = vec![0u8; len];
    hkdf::Hkdf::<sha2::Sha512>::new(salt, ikm).expand(info, &mut okm).ok().map(|_| okm)
}

/// Calls `ring::pbkdf2::derive` with `PBKDF2_HMAC_SHA256` into `len` bytes.
/// Trusted claim: the output is the named PBKDF2 key for these arguments.
#[verifier::external_body]
fn pbkdf2_sha256(password: &[u8], salt: &[u8], iterations: u32, len: usize) -> (r: Vec<u8>)
    requires
        iterations > 0,
    ensures
        r@ == pbkdf2_sha256_key(password@, salt@, iterations, len as nat),
        r@.len() == len,
{
    let mut key = vec![0u8; len];
    let n = std::num::NonZeroU32::new(iterations).unwrap();
    ring::pbkdf2::derive(ring::pbkdf2::PBKDF2_HMAC_SHA256, n, salt, password, &mut key);
    key
}

/// HKDF expansion under `kdf`: `None` when `len` is over 255 digests.
fn kdf_expand(kdf: KeyDerivationFunction, salt: Option<&[u8]>, ikm: &[u8], info: &[u8], len: usize) -> (r: Option<Vec<u8>>)
    ensures
        r is Some <==> len <= 255 * kdf.out_len(),
        r matches Some(v) ==> v@ == kdf_okm(kdf, salt_view(salt), ikm@, info@, len as nat),
        r matches Some(v) ==> v@.len() == len,
{
    match kdf {
        KeyDerivationFunction::HkdfSha256 => hkdf_sha256_expand(salt, ikm, info, len),
        KeyDerivationFunction::HkdfSha384 => hkdf_sha384_expand(salt, ikm, info, len),
        KeyDerivationFunction::HkdfSha512 => hkdf_sha512_expand(salt, ikm, info, len),
    }
}

/// The bytes `v[from..to]`.
fn sub_bytes(v: &Vec<u8>, from: usize, to: usize) -> (r: Vec<u8>)
    requires
        from <= to <= v@.len(),
    ensures
        r@ == v@.subrange(from as int, to as int),
{
    let mut r: Vec<u8> = Vec::new();
    let mut i: usize = from;
    while i < to
        invariant
            from <= i <= to <= v@.len(),
            r@ == v@.subrange(from as int, i as int),
        decreases to - i,
    {
        r.push(v[i]);
        i = i + 1;
        assert(r@ =~= v@.subrange(from as int, i as int));
    }
    r
}

/// Session keys derived from a master secret.
#[derive(Clone)]
pub struct SessionKeys {
    /// Encryption key for sending data
    pub client_write_key: Vec<u8>,
    /// Encryption key for receiving data
    pub server_write_key: Vec<u8>,
    /// Authentication key for sending data
    pub client_mac_key: Vec<u8>,
    /// Authentication key for receiving data
    pub server_mac_key: Vec<u8>,
    /// IV for client writes
    pub client_iv: Vec<u8>,
    /// IV for server writes
    pub server_iv: Vec<u8>,
}

/// Overwrites every byte of `v` with zero, then empties it.
fn wipe(v: &mut Vec<u8>)
    ensures
        final(v)@.len() == 0,
{
    let n = v.len();
    let mut i: usize = 0;
    while i < n
        invariant
            n == v@.len(),
            i <= n,
        decreases n - i,
    {
        v.set(i, 0);
        i = i + 1;
    }
    v.clear();
}

impl SessionKeys {
    /// Zeros out all key material, leaving every key and IV empty.
    pub fn zeroize(&mut self)
        ensures
            final(self).client_write_key@.len() == 0,
            final(self).server_write_key@.len() == 0,
            final(self).client_mac_key@.len() == 0,
            final(self).server_mac_key@.len() == 0,
            final(self).client_iv@.len() == 0,
            final(self).server_iv@.len() == 0,
    {
        wipe(&mut self.client_write_key);
        wipe(&mut self.server_write_key);
        wipe(&mut self.client_mac_key);
        wipe(&mut self.server_mac_key);
        wipe(&mut self.client_iv);
        wipe(&mut self.server_iv);
    }
}

/// Whether an error is a key-derivation failure.
pub open spec fn is_key_derivation_error(e: NetworkError) -> bool {
    e matches NetworkError::Security(SecurityError::KeyDerivation(_))
}

/// Derives session keys from a master secret using HKDF: one expansion of
/// `4 * key_size + 2 * iv_size` bytes is cut, in order, into the client
/// write key, server write key, client MAC key, server MAC key, client IV
/// and server IV.
pub fn derive_session_keys(
    kdf: KeyDerivationFunction,
    master_secret: &[u8],
    salt: Option<&[u8]>,
    info: &[u8],
    key_size: usize,
    iv_size: usize,
) -> (r: Result<SessionKeys, NetworkError>)
    requires
        4 * key_size + 2 * iv_size <= usize::MAX,
    ensures
        ({
            let total = 4 * key_size + 2 * iv_size;
            let okm = kdf_okm(kdf, salt_view(salt), master_secret@, info@, total as nat);
            let k = key_size as int;
            let c = 4 * key_size + iv_size;
            &&& r is Ok <==> total <= 255 * kdf.out_len()
            &&& r matches Err(e) ==> is_key_derivation_error(e)
            &&& r matches Ok(keys) ==> {
                &&& okm.len() == total
                &&& keys.client_write_key@ == okm.subrange(0, k)
                &&& keys.server_write_key@ == okm.subrange(k, 2 * k)
                &&& keys.client_mac_key@ == okm.subrange(2 * k, 3 * k)
                &&& keys.server_mac_key@ == okm.subrange(3 * k, 4 * k)
                &&& keys.client_iv@ == okm.subrange(4 * k, c)
                &&& keys.server_iv@ == okm.subrange(c, total as int)
            }
        }),
{
    let total = key_size * 4 + iv_size * 2;
    let output = match kdf_expand(kdf, salt, master_secret, info, total) {
        Some(o) => o,
        None => {
            let msg = match kdf {
                KeyDerivationFunction::HkdfSha256 => "HKDF-SHA256 expansion failed",
                KeyDerivationFunction::HkdfSha384 => "HKDF-SHA384 expansion failed",
                KeyDerivationFunction::HkdfSha512 => "HKDF-SHA512 expansion failed",
            };
            return Err(NetworkError::Security(SecurityError::KeyDerivation(String::from_str(msg))));
        },
    };
    let mut offset: usize = 0;
    let client_write_key = sub_bytes(&output, offset, offset + key_size);
    offset = offset + key_size;
    let server_write_key = sub_bytes(&output, offset, offset + key_size);
    offset = offset + key_size;
    let client_mac_key = sub_bytes(&output, offset, offset + key_size);
    offset = offset + key_size;
    let server_mac_key = sub_bytes(&output, offset, offset + key_size);
    offset = offset + key_size;
    let client_iv = sub_bytes(&output, offset, offset + iv_size);
    offset = offset + iv_size;
    let server_iv = sub_bytes(&output, offset, offset + iv_size);
    Ok(SessionKeys { client_write_key, server_write_key, client_mac_key, server_mac_key, client_iv, server_iv })
}

/// The ASCII decimal digits of `n`.
pub open spec fn decimal(n: nat) -> Seq<u8>
    decreases n,
{
    if n < 10 {
        seq![(48 + n) as u8]
    } else {
        decimal(n / 10).push((48 + n % 10) as u8)
    }
}

/// The HKDF info of ratchet step `g`: the ASCII text `ratchet-` and the
/// decimal digits of `g`.
pub open spec fn ratchet_info(g: nat) -> Seq<u8> {
    seq![114u8, 97u8, 116u8, 99u8, 104u8, 101u8, 116u8, 45u8] + decimal(g)
}

/// Appends the decimal digits of `n`.
pub(crate) fn push_decimal(out: &mut Vec<u8>, n: u64)
    ensures
        final(out)@ == old(out)@ + decimal(n as nat),
    decreases n,
{
    if n >= 10 {
        push_decimal(out, n / 10);
    }
    let d = (n % 10) as u8;
    let ghost before = out@;
    out.push(48 + d);
    proof {
        if n >= 10 {
            assert(out@ =~= old(out)@ + decimal(n as nat));
        } else {
            assert(out@ =~= old(out)@ + decimal(n as nat));
        }
    }
}

/// Key ratcheting for forward secrecy.
pub struct KeyRatchet {
    /// Current chain key
    chain_key: Vec<u8>,
    /// KDF algorithm
    kdf: KeyDerivationFunction,
    /// Generation counter
    generation: u64,
}

impl KeyRatchet {
    pub closed spec fn chain(&self) -> Seq<u8> {
        self.chain_key@
    }

    pub closed spec fn kdf_spec(&self) -> KeyDerivationFunction {
        self.kdf
    }

    pub closed spec fn gen(&self) -> u64 {
        self.generation
    }

    /// Creates a new key ratchet at generation 0.
    pub fn new(initial_key: Vec<u8>, kdf: KeyDerivationFunction) -> (r: Self)
        ensures
            r.chain() == initial_key@,
            r.kdf_spec() == kdf,
            r.gen() == 0,
    {
        KeyRatchet { chain_key: initial_key, kdf, generation: 0 }
    }

    /// Advances the ratchet: one HKDF expansion (no salt, the chain key as
    /// input, `ratchet-<generation>` as info) of two digests gives the next
    /// chain key (its first half) and the returned key (its second half).
    pub fn advance(&mut self) -> (r: Result<Vec<u8>, NetworkError>)
        requires
            old(self).gen() < u64::MAX,
        ensures
            r matches Ok(k) && advance_step(*old(self), *final(self), k@),
    {
        let mut info: Vec<u8> = Vec::new();
        info.push(114);
        info.push(97);
        info.push(116);
        info.push(99);
        info.push(104);
        info.push(101);
        info.push(116);
        info.push(45);
        push_decimal(&mut info, self.generation);
        assert(info@ =~= ratchet_info(self.generation as nat));
        let key_len = self.kdf.output_len();
        let output = match kdf_expand(self.kdf, None, self.chain_key.as_slice(), info.as_slice(), key_len * 2) {
            Some(o) => o,
            None => {
                return Err(
                    NetworkError::Security(SecurityError::KeyDerivation(String::from_str("Ratchet HKDF expansion failed"))),
                );
            },
        };
        self.chain_key = sub_bytes(&output, 0, key_len);
        let output_key = sub_bytes(&output, key_len, key_len * 2);
        self.generation = self.generation + 1;
        Ok(output_key)
    }

    /// Returns the current generation number.
    pub fn generation(&self) -> (r: u64)
        ensures
            r == self.gen(),
    {
        self.generation
    }
}

/// One ratchet step: from the chain key `chain` of generation `g`, one
/// HKDF expansion of two digests, whose first half is the next chain key
/// and whose second half is the key handed out.
pub open spec fn ratchet_okm(kdf: KeyDerivationFunction, chain: Seq<u8>, g: nat) -> Seq<u8> {
    kdf_okm(kdf, None, chain, ratchet_info(g), 2 * kdf.out_len())
}

/// `b` is the ratchet `a` advanced once, handing out `key`.
pub open spec fn advance_step(a: KeyRatchet, b: KeyRatchet, key: Seq<u8>) -> bool {
    let l = a.kdf_spec().out_len();
    let okm = ratchet_okm(a.kdf_spec(), a.chain(), a.gen() as nat);
    &&& key == okm.subrange(l as int, 2 * l as int)
    &&& b.chain() == okm.subrange(0, l as int)
    &&& b.gen() == a.gen() + 1
    &&& b.kdf_spec() == a.kdf_spec()
}

/// The chain key of a ratchet made from `init` with `kdf` after `k`
/// advances.
pub open spec fn ratchet_chain(init: Seq<u8>, kdf: KeyDerivationFunction, k: nat) -> Seq<u8>
    decreases k,
{
    if k == 0 {
        init
    } else {
        let g = (k - 1) as nat;
        ratchet_okm(kdf, ratchet_chain(init, kdf, g), g).subrange(0, kdf.out_len() as int)
    }
}

/// The key that a ratchet made from `init` with `kdf` hands out on its
/// advance from generation `k`.
pub open spec fn ratchet_key(init: Seq<u8>, kdf: KeyDerivationFunction, k: nat) -> Seq<u8> {
    let l = kdf.out_len();
    ratchet_okm(kdf, ratchet_chain(init, kdf, k), k).subrange(l as int, 2 * l as int)
}

/// A ratchet made with `KeyRatchet::new(init, kdf)` that has advanced `k`
/// times is at generation `k` with the chain key `ratchet_chain(init, kdf,
/// k)`; advancing it once more hands out `ratchet_key(init, kdf, k)` and
/// reaches generation `k + 1`. So the generation counts the advances, and
/// the keys handed out depend on the initial key and the KDF alone.
pub proof fn ratchet_follows_its_chain(
    init: Seq<u8>,
    kdf: KeyDerivationFunction,
    k: nat,
    before: KeyRatchet,
    after: KeyRatchet,
    key: Seq<u8>,
)
    requires
        before.chain() == ratchet_chain(init, kdf, k),
        before.kdf_spec() == kdf,
        before.gen() == k,
        advance_step(before, after, key),
    ensures
        after.chain() == ratchet_chain(init, kdf, k + 1),
        after.kdf_spec() == kdf,
        after.gen() == k + 1,
        key == ratchet_key(init, kdf, k),
{
    assert(((k + 1) - 1) as nat == k);
}

/// Derives a key using PBKDF2-HMAC-SHA256 for password-based scenarios; an
/// iteration count of 0 is not accepted.
pub fn derive_key_from_password(password: &[u8], salt: &[u8], iterations: u32, key_len: usize) -> (r: Result<
    Vec<u8>,
    NetworkError,
>)
    requires
        iterations > 0,
    ensures
        r matches Ok(k) && k@ == pbkdf2_sha256_key(password@, salt@, iterations, key_len as nat),
{
    Ok(pbkdf2_sha256(password, salt, iterations, key_len))
}

} // verus!
