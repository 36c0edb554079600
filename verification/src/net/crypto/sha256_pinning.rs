//! Strict certificate pinning by SHA-256 fingerprint, compared in constant
//! time, and the fingerprint record of a certificate.

use vstd::prelude::*;
use crate::net::error::{NetworkError, SecurityError};
use crate::net::crypto::certificates::hashes_view;
use crate::platform::{sha256, sha256_digest};

verus! {

/// Calls `constant_time_eq::constant_time_eq`. Trusted claim: the result
/// says whether the two byte strings are equal (unequal lengths compare
/// unequal), as the crate's source computes.
#[verifier::external_body]
fn ct_eq(a: &[u8], b: &[u8]) -> (r: bool)
    ensures
        r == (a@ == b@),
{
    constant_time_eq::constant_time_eq(a, b)
}

/// The SHA-256 fingerprint of a certificate as a 32-byte value.
fn fingerprint_of(cert: &[u8]) -> (r: [u8; 32])
    ensures
        r@ == sha256_digest(cert@),
{
    let h = sha256(cert);
    let mut a = [0u8; 32];
    let mut i: usize = 0;
    while i < 32
        invariant
            i <= 32,
            h@.len() == 32,
            a@.len() == 32,
            forall|k: int| 0 <= k < i ==> a@[k] == h@[k],
        decreases 32 - i,
    {
        a[i] = h[i];
        i = i + 1;
    }
    assert(a@ =~= h@);
    a
}

/// Certificate pinning for enhanced security.
pub struct CertificatePinner {
    /// Pinned certificate hashes (SHA-256)
    pinned_hashes: Vec<[u8; 32]>,
}

impl CertificatePinner {
    pub closed spec fn pins(&self) -> Seq<Seq<u8>> {
        hashes_view(self.pinned_hashes@)
    }

    /// Creates a new certificate pinner with no pins.
    pub fn new() -> (r: Self)
        ensures
            r.pins() == Seq::<Seq<u8>>::empty(),
    {
        let r = CertificatePinner { pinned_hashes: Vec::new() };
        assert(r.pins() =~= Seq::<Seq<u8>>::empty());
        r
    }

    /// Pins a certificate by its SHA-256 hash.
    pub fn pin_certificate_hash(&mut self, hash: [u8; 32])
        ensures
            final(self).pins() == old(self).pins().push(hash@),
    {
        self.pinned_hashes.push(hash);
        assert(self.pins() =~= old(self).pins().push(hash@));
    }

    /// Pins a certificate (its DER bytes).
    pub fn pin_certificate(&mut self, cert: &[u8])
        ensures
            final(self).pins() == old(self).pins().push(sha256_digest(cert@)),
    {
        let h = fingerprint_of(cert);
        self.pin_certificate_hash(h);
    }

    /// Validates a certificate against the pinned hashes: it must be pinned.
    pub fn validate(&self, cert: &[u8]) -> (r: Result<(), NetworkError>)
        ensures
            r is Ok <==> self.pins().contains(sha256_digest(cert@)),
            r matches Err(e) ==> e matches NetworkError::Security(SecurityError::Certificate(_)),
    {
        let hash = sha256(cert);
        let ghost pins = self.pins();
        let n = self.pinned_hashes.len();
        let mut i: usize = 0;
        while i < n
            invariant
                n == self.pinned_hashes@.len(),
                pins == self.pins(),
                pins.len() == n,
                hash@ == sha256_digest(cert@),
                i <= n,
                forall|k: int| 0 <= k < i ==> pins[k] != hash@,
            decreases n - i,
        {
            assert(pins[i as int] == self.pinned_hashes@[i as int]@);
            if ct_eq(hash.as_slice(), self.pinned_hashes[i].as_slice()) {
                assert(pins.contains(sha256_digest(cert@)));
                return Ok(());
            }
            i = i + 1;
        }
        assert(!pins.contains(sha256_digest(cert@)));
        Err(NetworkError::Security(SecurityError::Certificate(String::from_str("Certificate not in pinned set"))))
    }
}

/// Certificate metadata for logging and debugging.
#[derive(Debug, Clone)]
pub struct CertificateInfo {
    /// Subject common name
    pub subject_cn: Option<String>,
    /// Issuer common name
    pub issuer_cn: Option<String>,
    /// Serial number
    pub serial: Vec<u8>,
    /// Not valid before
    pub not_before: Option<i64>,
    /// Not valid after
    pub not_after: Option<i64>,
    /// SHA-256 fingerprint
    pub fingerprint: [u8; 32],
}

impl CertificateInfo {
    /// The record of a certificate: its fingerprint, the other fields left
    /// empty (the certificate is not parsed).
    pub fn from_certificate(cert: &[u8]) -> (r: Result<Self, NetworkError>)
        ensures
            r matches Ok(info) && info.fingerprint@ == sha256_digest(cert@) && info.subject_cn is None
                && info.issuer_cn is None && info.serial@.len() == 0 && info.not_before is None
                && info.not_after is None,
    {
        let fingerprint = fingerprint_of(cert);
        Ok(CertificateInfo {
            subject_cn: None,
            issuer_cn: None,
            serial: Vec::new(),
            not_before: None,
            not_after: None,
            fingerprint,
        })
    }
}

} // verus!
