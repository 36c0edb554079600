//! Authenticated encryption with ChaCha20-Poly1305, through the
//! `chacha20poly1305` crate, and the randomness (nonces, padding, orders)
//! that it and the privacy layers draw from `rand`.

use vstd::prelude::*;
use chacha20poly1305::aead::{Aead, KeyInit};
use rand::RngCore;
use rand::Rng;
use rand::seq::SliceRandom;
use crate::net::types::PeerId;

verus! {

/// The most bytes ChaCha20-Poly1305 seals or opens in one message: the
/// ChaCha20 block counter must not run out (64-byte blocks, 32-bit counter).
pub open spec fn aead_len_ok(len: nat) -> bool {
    len / 64 < 4294967295
}

/// The ChaCha20-Poly1305 sealing of `msg` under `key` and `nonce` (no
/// associated data): the ciphertext followed by the 16-byte tag. Named,
/// not defined here: it is a fixed function of its arguments, computed by
/// the `chacha20poly1305` crate.
pub uninterp spec fn chacha20poly1305_seal(key: Seq<u8>, nonce: Seq<u8>, msg: Seq<u8>) -> Seq<u8>;

/// The ChaCha20-Poly1305 opening of `ct` under `key` and `nonce` (no
/// associated data): the plaintext when the tag authenticates it, `None`
/// otherwise. Named, not defined here, as the sealing.
pub uninterp spec fn chacha20poly1305_open(key: Seq<u8>, nonce: Seq<u8>, ct: Seq<u8>) -> Option<Seq<u8>>;

#[verifier::external_type_specification]
#[verifier::external_body]
pub struct ExAeadError(chacha20poly1305::Error);

/// Calls `ChaCha20Poly1305::new` and `Aead::encrypt`. Trusted claims, from
/// the crate's source: sealing succeeds exactly when the message fits the
/// block counter; its output is the named sealing, 16 bytes longer than
/// the message; and opening it under the same key and nonce gives the
/// message back.
#[verifier::external_body]
pub(crate) fn aead_seal(key: &[u8], nonce: &[u8], msg: &[u8]) -> (r: Result<Vec<u8>, chacha20poly1305::Error>)
    requires
        key@.len() == 32,
        nonce@.len() == 12,
    ensures
        r is Ok <==> aead_len_ok(msg@.len()),
        r matches Ok(c) ==> c@ == chacha20poly1305_seal(key@, nonce@, msg@),
        r matches Ok(c) ==> c@.len() == msg@.len() + 16,
        r matches Ok(c) ==> chacha20poly1305_open(key@, nonce@, c@) == Some(msg@),
{
    let cipher = chacha20poly1305::ChaCha20Poly1305::new(chacha20poly1305::Key::from_slice(key));
    cipher.encrypt(chacha20poly1305::Nonce::from_slice(nonce), msg)
}

/// Calls `ChaCha20Poly1305::new` and `Aead::decrypt`. Trusted claims, from
/// the crate's source: the result is the named opening, and a ciphertext
/// shorter than the 16-byte tag is refused.
#[verifier::external_body]
pub(crate) fn aead_open(key: &[u8], nonce: &[u8], ct: &[u8]) -> (r: Result<Vec<u8>, chacha20poly1305::Error>)
    requires
        key@.len() == 32,
        nonce@.len() == 12,
    ensures
        match r {
            Ok(m) => chacha20poly1305_open(key@, nonce@, ct@) == Some(m@),
            Err(_) => chacha20poly1305_open(key@, nonce@, ct@) is None,
        },
        ct@.len() < 16 ==> r is Err,
{
    let cipher = chacha20poly1305::ChaCha20Poly1305::new(chacha20poly1305::Key::from_slice(key));
    cipher.decrypt(chacha20poly1305::Nonce::from_slice(nonce), ct)
}

/// Calls `rand::thread_rng` and fills `len` bytes with `RngCore::fill_bytes`.
/// Trusted claim: the result has `len` bytes; their values are random.
#[verifier::external_body]
pub(crate) fn random_bytes(len: usize) -> (r: Vec<u8>)
    ensures
        r@.len() == len,
{
    let mut bytes = vec![0u8; len];
    rand::thread_rng().fill_bytes(&mut bytes);
    bytes
}

/// Calls `rand::seq::SliceRandom::shuffle` with `rand::thread_rng`.
/// Trusted claim: the vector holds the same values as before, in an order
/// that is random.
#[verifier::external_body]
pub(crate) fn shuffle(v: &mut Vec<usize>)
    ensures
        final(v)@.to_multiset() == old(v)@.to_multiset(),
{
    v.shuffle(&mut rand::thread_rng());
}

/// Calls `rand::Rng::gen_range` on the inclusive range `lo..=hi` with
/// `rand::thread_rng`, which panics on an empty range. Trusted claim: the
/// result lies in the range; which value it is, is random.
#[verifier::external_body]
pub(crate) fn random_in_range(lo: usize, hi: usize) -> (r: usize)
    requires
        lo <= hi,
    ensures
        lo <= r <= hi,
{
    rand::thread_rng().gen_range(lo..=hi)
}

/// Calls `rand::seq::SliceRandom::choose_multiple` with `rand::thread_rng`
/// and collects the chosen ids. Trusted claims, from the crate's source:
/// it picks `min(amount, ids.len())` elements at distinct positions, so the
/// result is part of the ids as a multiset; which ones, and their order,
/// are random.
#[verifier::external_body]
pub(crate) fn choose_multiple_ids(ids: &Vec<PeerId>, amount: usize) -> (r: Vec<PeerId>)
    ensures
        r@.len() == if amount < ids@.len() { amount as int } else { ids@.len() as int },
        r@.to_multiset().subset_of(ids@.to_multiset()),
{
    ids.choose_multiple(&mut rand::thread_rng(), amount).copied().collect()
}

} // verus!
