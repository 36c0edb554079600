//! Post-quantum cipher suites and signature algorithms, with the
//! parameters each stands for.

use vstd::prelude::*;

verus! {

/// Key encapsulation mechanisms.
#[derive(Debug, Clone, Copy, PartialEq, Eq, Structural)]
pub enum KemAlgorithm {
    Kyber768,
    Kyber1024,
}

/// Post-quantum signature schemes.
#[derive(Debug, Clone, Copy, PartialEq, Eq, Structural)]
pub enum SignatureAlgorithm {
    Dilithium3,
    Dilithium5,
}

/// Post-quantum cipher suite configuration.
#[derive(Debug, Clone, Copy, PartialEq, Eq, Hash, Structural)]
pub enum PQCipherSuite {
    /// Kyber768 + ChaCha20-Poly1305 (NIST Level 3)
    Kyber768ChaCha20,
    /// Kyber1024 + ChaCha20-Poly1305 (NIST Level 5)
    Kyber1024ChaCha20,
    /// Kyber768 + AES-256-GCM (NIST Level 3)
    Kyber768Aes256,
    /// Kyber1024 + AES-256-GCM (NIST Level 5)
    Kyber1024Aes256,
    /// Hybrid: X25519 + Kyber768 + ChaCha20 (Transitional security)
    HybridX25519Kyber768,
    /// Hybrid: X25519 + Kyber1024 + AES-256 (Maximum transitional security)
    HybridX25519Kyber1024,
}

impl PQCipherSuite {
    pub open spec fn kem(&self) -> KemAlgorithm {
        match self {
            PQCipherSuite::Kyber768ChaCha20 | PQCipherSuite::Kyber768Aes256 | PQCipherSuite::HybridX25519Kyber768 => KemAlgorithm::Kyber768,
            _ => KemAlgorithm::Kyber1024,
        }
    }

    pub open spec fn hybrid(&self) -> bool {
        self is HybridX25519Kyber768 || self is HybridX25519Kyber1024
    }

    pub open spec fn level(&self) -> u16 {
        match self.kem() {
            KemAlgorithm::Kyber768 => 192,
            KemAlgorithm::Kyber1024 => 256,
        }
    }

    /// Returns the KEM algorithm for this cipher suite.
    pub fn kem_algorithm(&self) -> (r: KemAlgorithm)
        ensures
            r == self.kem(),
    {
        match self {
            PQCipherSuite::Kyber768ChaCha20 | PQCipherSuite::Kyber768Aes256 | PQCipherSuite::HybridX25519Kyber768 => KemAlgorithm::Kyber768,
            PQCipherSuite::Kyber1024ChaCha20 | PQCipherSuite::Kyber1024Aes256 | PQCipherSuite::HybridX25519Kyber1024 => KemAlgorithm::Kyber1024,
        }
    }

    /// Returns whether this is a hybrid cipher suite.
    pub fn is_hybrid(&self) -> (r: bool)
        ensures
            r == self.hybrid(),
    {
        match self {
            PQCipherSuite::HybridX25519Kyber768 | PQCipherSuite::HybridX25519Kyber1024 => true,
            _ => false,
        }
    }

    /// Returns the security level in bits.
    pub fn security_level(&self) -> (r: u16)
        ensures
            r == self.level(),
    {
        match self {
            PQCipherSuite::Kyber768ChaCha20 | PQCipherSuite::Kyber768Aes256 | PQCipherSuite::HybridX25519Kyber768 => 192,
            PQCipherSuite::Kyber1024ChaCha20 | PQCipherSuite::Kyber1024Aes256 | PQCipherSuite::HybridX25519Kyber1024 => 256,
        }
    }
}

/// Post-quantum signature algorithm configuration.
#[derive(Debug, Clone, Copy, PartialEq, Eq, Hash, Structural)]
pub enum PQSignatureAlgorithm {
    /// Dilithium3 (NIST Level 3)
    Dilithium3,
    /// Dilithium5 (NIST Level 5)
    Dilithium5,
    /// Hybrid: Ed25519 + Dilithium3
    HybridEd25519Dilithium3,
    /// Hybrid: Ed25519 + Dilithium5
    HybridEd25519Dilithium5,
}

impl PQSignatureAlgorithm {
    pub open spec fn scheme(&self) -> SignatureAlgorithm {
        match self {
            PQSignatureAlgorithm::Dilithium3 | PQSignatureAlgorithm::HybridEd25519Dilithium3 => SignatureAlgorithm::Dilithium3,
            _ => SignatureAlgorithm::Dilithium5,
        }
    }

    pub open spec fn hybrid(&self) -> bool {
        self is HybridEd25519Dilithium3 || self is HybridEd25519Dilithium5
    }

    /// Returns the signature algorithm.
    pub fn signature_algorithm(&self) -> (r: SignatureAlgorithm)
        ensures
            r == self.scheme(),
    {
        match self {
            PQSignatureAlgorithm::Dilithium3 | PQSignatureAlgorithm::HybridEd25519Dilithium3 => SignatureAlgorithm::Dilithium3,
            PQSignatureAlgorithm::Dilithium5 | PQSignatureAlgorithm::HybridEd25519Dilithium5 => SignatureAlgorithm::Dilithium5,
        }
    }

    /// Returns whether this is a hybrid algorithm.
    pub fn is_hybrid(&self) -> (r: bool)
        ensures
            r == self.hybrid(),
    {
        match self {
            PQSignatureAlgorithm::HybridEd25519Dilithium3 | PQSignatureAlgorithm::HybridEd25519Dilithium5 => true,
            _ => false,
        }
    }
}

/// Hybrid key exchange combining classical and post-quantum algorithms.
#[derive(Debug, Clone)]
pub struct HybridKeyExchange {
    /// Post-quantum cipher suite
    pq_suite: PQCipherSuite,
}

impl HybridKeyExchange {
    pub closed spec fn suite(&self) -> PQCipherSuite {
        self.pq_suite
    }

    /// Creates a new hybrid key exchange instance for a suite.
    pub fn new(pq_suite: PQCipherSuite) -> (r: Result<Self, crate::net::error::NetworkError>)
        ensures
            r matches Ok(k) && k.suite() == pq_suite,
    {
        Ok(HybridKeyExchange { pq_suite })
    }

    /// The exchange's cipher suite.
    pub fn pq_suite(&self) -> (r: PQCipherSuite)
        ensures
            r == self.suite(),
    {
        self.pq_suite
    }
}

/// Post-quantum signature operations.
#[derive(Clone)]
pub struct PQSignature {
    /// Signature algorithm
    algorithm: PQSignatureAlgorithm,
}

impl PQSignature {
    pub closed spec fn alg(&self) -> PQSignatureAlgorithm {
        self.algorithm
    }

    /// Creates a new signature instance for an algorithm.
    pub fn new(algorithm: PQSignatureAlgorithm) -> (r: Result<Self, crate::net::error::NetworkError>)
        ensures
            r matches Ok(s) && s.alg() == algorithm,
    {
        Ok(PQSignature { algorithm })
    }

    /// The instance's algorithm.
    pub fn algorithm(&self) -> (r: PQSignatureAlgorithm)
        ensures
            r == self.alg(),
    {
        self.algorithm
    }
}

/// Every suite offers at least 192 bits, and 256 exactly when its KEM is
/// Kyber1024.
pub proof fn suite_levels(s: PQCipherSuite)
    ensures
        s.level() >= 192,
        s.level() == 256 <==> s.kem() == KemAlgorithm::Kyber1024,
{
}

} // verus!
