//! Cryptographic building blocks: key kinds, key derivation, certificate
//! pinning, cipher suites and the security policy that ties them together.

pub mod aead;
pub mod key_derivation;
pub mod certificates;
pub mod sha256_pinning;
pub mod post_quantum;
pub mod enhanced_security;
pub mod session;

use vstd::prelude::*;

verus! {

/// Supported cryptographic algorithms.
#[derive(Debug, Clone, Copy, PartialEq, Eq, Structural)]
pub enum CryptoAlgorithm {
    /// Ed25519 signatures
    Ed25519,
    /// X25519 key exchange
    X25519,
    /// ChaCha20-Poly1305 AEAD
    ChaCha20Poly1305,
    /// AES-256-GCM AEAD
    Aes256Gcm,
    /// Kyber768 post-quantum KEM
    Kyber768,
    /// Kyber1024 post-quantum KEM
    Kyber1024,
    /// Dilithium3 post-quantum signatures
    Dilithium3,
    /// Dilithium5 post-quantum signatures
    Dilithium5,
}

/// Cryptographic key types.
#[derive(Debug, Clone)]
pub enum CryptoKey {
    /// Symmetric key
    Symmetric(Vec<u8>),
    /// Ed25519 public key
    Ed25519Public([u8; 32]),
    /// Ed25519 private key
    Ed25519Private([u8; 32]),
    /// X25519 public key
    X25519Public([u8; 32]),
    /// X25519 private key
    X25519Private([u8; 32]),
    /// Post-quantum public key
    PostQuantumPublic(Vec<u8>),
    /// Post-quantum private key
    PostQuantumPrivate(Vec<u8>),
}

impl CryptoKey {
    pub open spec fn algorithm_spec(&self) -> CryptoAlgorithm {
        match self {
            CryptoKey::Ed25519Public(_) | CryptoKey::Ed25519Private(_) => CryptoAlgorithm::Ed25519,
            CryptoKey::X25519Public(_) | CryptoKey::X25519Private(_) => CryptoAlgorithm::X25519,
            CryptoKey::PostQuantumPublic(_) | CryptoKey::PostQuantumPrivate(_) => CryptoAlgorithm::Kyber1024,
            CryptoKey::Symmetric(_) => CryptoAlgorithm::ChaCha20Poly1305,
        }
    }

    pub open spec fn size_spec(&self) -> nat {
        match self {
            CryptoKey::Symmetric(k) => k@.len(),
            CryptoKey::PostQuantumPublic(k) | CryptoKey::PostQuantumPrivate(k) => k@.len(),
            _ => 32,
        }
    }

    /// Returns the key algorithm.
    pub fn algorithm(&self) -> (r: CryptoAlgorithm)
        ensures
            r == self.algorithm_spec(),
    {
        match self {
            CryptoKey::Ed25519Public(_) | CryptoKey::Ed25519Private(_) => CryptoAlgorithm::Ed25519,
            CryptoKey::X25519Public(_) | CryptoKey::X25519Private(_) => CryptoAlgorithm::X25519,
            CryptoKey::PostQuantumPublic(_) | CryptoKey::PostQuantumPrivate(_) => CryptoAlgorithm::Kyber1024,
            CryptoKey::Symmetric(_) => CryptoAlgorithm::ChaCha20Poly1305,
        }
    }

    /// Returns the key size in bytes.
    pub fn size(&self) -> (r: usize)
        ensures
            r == self.size_spec(),
    {
        match self {
            CryptoKey::Symmetric(k) => k.len(),
            CryptoKey::Ed25519Public(_) | CryptoKey::Ed25519Private(_) => 32,
            CryptoKey::X25519Public(_) | CryptoKey::X25519Private(_) => 32,
            CryptoKey::PostQuantumPublic(k) | CryptoKey::PostQuantumPrivate(k) => k.len(),
        }
    }
}

} // verus!
