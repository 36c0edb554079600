//! Certificate pinning by BLAKE3 fingerprint, with an optional allowance
//! for backup certificates.

use vstd::prelude::*;
use crate::net::error::{NetworkError, SecurityError};

verus! {

/// The 32-byte BLAKE3 hash of `data`.
pub uninterp spec fn blake3_digest(data: Seq<u8>) -> Seq<u8>;

/// Calls `blake3::hash`. Trusted claim: the result is the BLAKE3 hash of
/// `data`, a function of `data` alone.
#[verifier::external_body]
pub(crate) fn blake3_hash(data: &[u8]) -> (r: [u8; 32])
    ensures
        r@ == blake3_digest(data@),
{
    *blake3::hash(data).as_bytes()
}

/// Whether two 32-byte values are equal.
pub fn bytes32_eq(a: &[u8; 32], b: &[u8; 32]) -> (r: bool)
    ensures
        r == (a@ == b@),
{
    let mut i: usize = 0;
    while i < 32
        invariant
            i <= 32,
            a@.len() == 32,
            b@.len() == 32,
            forall|k: int| 0 <= k < i ==> a@[k] == b@[k],
        decreases 32 - i,
    {
        if a[i] != b[i] {
            return false;
        }
        i = i + 1;
    }
    assert(a@ =~= b@);
    true
}

/// The byte sequences of a list of 32-byte values.
pub open spec fn hashes_view(v: Seq<[u8; 32]>) -> Seq<Seq<u8>> {
    v.map_values(|h: [u8; 32]| h@)
}

/// Certificate pinner for enhanced security.
#[derive(Debug)]
pub struct CertificatePinner {
    /// Pinned certificate hashes
    pinned_hashes: Vec<[u8; 32]>,
    /// Whether to allow backup certificates
    allow_backup_certs: bool,
}

/// Whether a certificate passes pinning: there are no pins, or its hash is
/// pinned, or backup certificates are allowed.
pub open spec fn pin_accepts(pins: Seq<Seq<u8>>, allow_backup: bool, cert: Seq<u8>) -> bool {
    pins.len() == 0 || pins.contains(blake3_digest(cert)) || allow_backup
}

impl CertificatePinner {
    pub closed spec fn pins(&self) -> Seq<Seq<u8>> {
        hashes_view(self.pinned_hashes@)
    }

    pub closed spec fn allows_backup(&self) -> bool {
        self.allow_backup_certs
    }

    /// Creates a new certificate pinner with no pins, allowing backups.
    pub fn new() -> (r: Self)
        ensures
            r.pins() == Seq::<Seq<u8>>::empty(),
            r.allows_backup(),
    {
        let r = CertificatePinner { pinned_hashes: Vec::new(), allow_backup_certs: true };
        assert(r.pins() =~= Seq::<Seq<u8>>::empty());
        r
    }

    /// Adds a certificate pin.
    pub fn add_pin(&mut self, hash: [u8; 32])
        ensures
            final(self).pins() == old(self).pins().push(hash@),
            final(self).allows_backup() == old(self).allows_backup(),
    {
        self.pinned_hashes.push(hash);
        assert(self.pins() =~= old(self).pins().push(hash@));
    }

    /// Sets whether to allow backup certificates.
    pub fn set_allow_backup_certs(&mut self, allow: bool)
        ensures
            final(self).pins() == old(self).pins(),
            final(self).allows_backup() == allow,
    {
        self.allow_backup_certs = allow;
    }

    /// The pinned hashes, in the order they were added.
    pub fn pinned_hashes(&self) -> (r: &Vec<[u8; 32]>)
        ensures
            hashes_view(r@) == self.pins(),
    {
        &self.pinned_hashes
    }

    /// Whether backup certificates are allowed.
    pub fn allow_backup_certs(&self) -> (r: bool)
        ensures
            r == self.allows_backup(),
    {
        self.allow_backup_certs
    }

    /// Validates a certificate (its DER bytes) against the pinned hashes.
    pub fn validate(&self, cert: &[u8]) -> (r: Result<(), NetworkError>)
        ensures
            r is Ok <==> pin_accepts(self.pins(), self.allows_backup(), cert@),
            r matches Err(e) ==> e matches NetworkError::Security(SecurityError::Certificate(_)),
    {
        if self.pinned_hashes.len() == 0 {
            return Ok(());
        }
        let cert_hash = blake3_hash(cert);
        let ghost pins = self.pins();
        let n = self.pinned_hashes.len();
        let mut i: usize = 0;
        while i < n
            invariant
                n == self.pinned_hashes@.len(),
                pins == self.pins(),
                pins.len() == n,
                cert_hash@ == blake3_digest(cert@),
                i <= n,
                forall|k: int| 0 <= k < i ==> pins[k] != cert_hash@,
            decreases n - i,
        {
            assert(pins[i as int] == self.pinned_hashes@[i as int]@);
            if bytes32_eq(&self.pinned_hashes[i], &cert_hash) {
                assert(pins.contains(blake3_digest(cert@)));
                return Ok(());
            }
            i = i + 1;
        }
        if self.allow_backup_certs {
            Ok(())
        } else {
            assert(!pins.contains(blake3_digest(cert@)));
            Err(NetworkError::Security(SecurityError::Certificate(String::from_str("Certificate pin validation failed"))))
        }
    }
}

impl Default for CertificatePinner {
    fn default() -> (r: Self)
        ensures
            r.pins() == Seq::<Seq<u8>>::empty(),
            r.allows_backup(),
    {
        CertificatePinner::new()
    }
}

/// Certificate chain validation. The trust roots and the custom check of
/// the end-entity certificate live with the TLS stack; what the validation
/// decides from them is here.
#[derive(Debug)]
pub struct CertificateValidator {
    /// Whether self-signed certificates are accepted
    allow_self_signed: bool,
}

impl CertificateValidator {
    pub closed spec fn allows_self_signed(&self) -> bool {
        self.allow_self_signed
    }

    /// A validator that refuses self-signed certificates.
    pub fn new() -> (r: Result<Self, NetworkError>)
        ensures
            r matches Ok(v) && !v.allows_self_signed(),
    {
        Ok(CertificateValidator { allow_self_signed: false })
    }

    /// A validator that accepts self-signed certificates.
    pub fn new_with_self_signed() -> (r: Result<Self, NetworkError>)
        ensures
            r matches Ok(v) && v.allows_self_signed(),
    {
        let mut validator = match Self::new() {
            Ok(v) => v,
            Err(e) => {
                return Err(e);
            },
        };
        validator.allow_self_signed = true;
        Ok(validator)
    }

    /// Whether self-signed certificates are accepted.
    pub fn allow_self_signed(&self) -> (r: bool)
        ensures
            r == self.allows_self_signed(),
    {
        self.allow_self_signed
    }

    /// Validates a certificate chain (DER certificates, end entity first).
    /// `custom_check` is the outcome of the custom check of the end-entity
    /// certificate, when one is set. An empty chain is refused; a failed
    /// custom check fails the validation with its error; otherwise the
    /// chain is accepted.
    pub fn validate_chain(&self, chain: &Vec<Vec<u8>>, _server_name: &str, custom_check: Option<Result<(), NetworkError>>) -> (r:
        Result<(), NetworkError>)
        ensures
            chain@.len() == 0 ==> (r matches Err(NetworkError::Security(SecurityError::Certificate(msg)))
                && msg@ == "Empty certificate chain"@),
            chain@.len() > 0 ==> (r == match custom_check {
                Some(Err(e)) => Err::<(), NetworkError>(e),
                _ => Ok::<(), NetworkError>(()),
            }),
    {
        if chain.len() == 0 {
            let msg = String::from_str("Empty certificate chain");
            proof {
                reveal_strlit("Empty certificate chain");
            }
            return Err(NetworkError::Security(SecurityError::Certificate(msg)));
        }
        match custom_check {
            Some(Err(e)) => Err(e),
            _ => Ok(()),
        }
    }
}

} // verus!
