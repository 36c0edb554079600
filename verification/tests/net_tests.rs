use synapsed::net::compression::{
    AdaptiveSelector, Algorithm, CompressionError, Lz4Compressor, NoopCompressor, SelectionStrategy, StreamConfig,
    StreamRecovery, ZstandardCompressor,
};
use synapsed::net::config::{AnonymizationLevel, SecurityConfig, TransportConfig};
use synapsed::net::crypto::certificates::CertificatePinner;
use synapsed::net::crypto::enhanced_security::{
    CertificatePinningConfig, EnhancedSecurityConfig, EnhancedSecurityManager, PinValidationMode,
    SecureCipherSuite, SecureKeyMaterial, SecurityMetrics,
};
use synapsed::net::crypto::key_derivation::{derive_key_from_password, derive_session_keys, KeyDerivationFunction, KeyRatchet};
use synapsed::net::crypto::post_quantum::{HybridKeyExchange, PQCipherSuite, PQSignature, PQSignatureAlgorithm};
use synapsed::net::crypto::sha256_pinning;
use synapsed::net::crypto::{CryptoAlgorithm, CryptoKey};
use synapsed::net::error::{ErrorClass, ErrorSeverity, NetworkError, SecurityError, TransportError};
use synapsed::net::observability::{PrivacyLevel, TransportEvent};

#[test]
fn test_selection_strategy_values() {
    let strategies = vec![
        SelectionStrategy::Speed,
        SelectionStrategy::Ratio,
        SelectionStrategy::Balanced,
        SelectionStrategy::Adaptive,
    ];

    for (i, strategy1) in strategies.iter().enumerate() {
        for (j, strategy2) in strategies.iter().enumerate() {
            if i != j {
                assert_ne!(strategy1, strategy2);
            }
        }
    }
}

#[test]
fn test_algorithm_display() {
    assert_eq!(Algorithm::Zstd.to_string(), "zstd");
    assert_eq!(Algorithm::Lz4.to_string(), "lz4");
    assert_eq!(Algorithm::NoCompression.to_string(), "none");
}

#[test]
fn test_zstd_compressor_creation() {
    let compressor = ZstandardCompressor::new();
    assert_eq!(compressor.algorithm_name(), "zstd");
    assert_eq!(compressor.supported_levels(), 1..22);
}

#[test]
fn test_lz4_compressor_creation() {
    let compressor = Lz4Compressor::new();
    assert_eq!(compressor.algorithm_name(), "lz4");
    assert_eq!(compressor.supported_levels(), 0..2);
}

#[test]
fn test_stream_config_default() {
    let config = StreamConfig::default();
    assert_eq!(config.chunk_size, 32 * 1024);
    assert_eq!(config.buffer_size, 64 * 1024);
    assert_eq!(config.compression_level, 6);
    assert_eq!(config.algorithm, Algorithm::Zstd);
}

#[test]
fn test_stream_recovery_creation() {
    let recovery = StreamRecovery::new(3, Algorithm::NoCompression);
    assert_eq!(recovery.max_retries(), 3);
    assert_eq!(recovery.fallback_algorithm(), Algorithm::NoCompression);
}

#[test]
fn test_adaptive_selector_strategy_update() {
    let mut selector = AdaptiveSelector::new(SelectionStrategy::Speed, 100);
    assert_eq!(selector.strategy(), SelectionStrategy::Speed);

    selector.set_strategy(SelectionStrategy::Ratio);
    assert_eq!(selector.strategy(), SelectionStrategy::Ratio);
}

#[test]
fn zstd_round_trip_and_level_errors() {
    let data = b"Hello World! ".repeat(100);
    let z = ZstandardCompressor::with_level(3);
    let packed = z.compress(&data, None).unwrap();
    assert_ne!(packed, data);
    assert!(packed.len() < data.len());
    assert_eq!(z.decompress(&packed).unwrap(), data);
    assert!(matches!(ZstandardCompressor::new().compress(&data, None), Err(CompressionError::InvalidLevel { level: 0 })));
    assert!(matches!(z.compress(&data, Some(22)), Err(CompressionError::InvalidLevel { level: 22 })));
    assert!(matches!(z.decompress(b"not a zstd frame"), Err(CompressionError::DecompressionFailed { .. })));
}

#[test]
fn zstd_default_level_is_the_given_level() {
    let data = b"default level data ".repeat(20);
    for level in [1, 3, 21] {
        let z = ZstandardCompressor::with_level(level);
        let by_default = z.compress(&data, None).unwrap();
        assert_eq!(by_default, z.compress(&data, Some(level)).unwrap());
        assert_eq!(by_default, zstd::bulk::compress(&data, level).unwrap());
    }
    assert!(ZstandardCompressor::with_level(5).compress(&[], None).is_ok());
}

#[test]
fn lz4_round_trip_and_errors() {
    let data = b"abcabcabcabcabcabcabcabc".repeat(40);
    let l = Lz4Compressor::with_high_compression(true);
    let packed = l.compress(&data, None).unwrap();
    assert!(packed.len() < data.len());
    assert_eq!(l.decompress(&packed).unwrap(), data);
    assert!(matches!(l.decompress(&[0xff, 0xff, 0xff]), Err(CompressionError::DecompressionFailed { .. })));
}

#[test]
fn noop_compression_is_identity() {
    let n = NoopCompressor;
    assert_eq!(n.compress(b"test data", None).unwrap(), b"test data");
    assert_eq!(n.decompress(b"test data").unwrap(), b"test data");
    assert_eq!(n.supported_levels(), 0..1);
}

#[test]
fn selector_choices() {
    let small = vec![0u8; 10];
    let medium = vec![0u8; 100];
    let large = vec![0u8; 5000];
    let speed = AdaptiveSelector::new(SelectionStrategy::Speed, 100);
    assert_eq!(speed.select_algorithm(&small, None), Algorithm::NoCompression);
    assert_eq!(speed.select_algorithm(&medium, None), Algorithm::NoCompression);
    assert_eq!(speed.select_algorithm(&large, None), Algorithm::Lz4);
    let ratio = AdaptiveSelector::new(SelectionStrategy::Ratio, 100);
    assert_eq!(ratio.select_algorithm(&medium, None), Algorithm::Zstd);
    let balanced = AdaptiveSelector::new(SelectionStrategy::Balanced, 100);
    assert_eq!(balanced.select_algorithm(&medium, None), Algorithm::Lz4);
    assert_eq!(balanced.select_algorithm(&large, None), Algorithm::Zstd);
    let adaptive = AdaptiveSelector::new(SelectionStrategy::Adaptive, 100);
    assert_eq!(adaptive.select_algorithm(&large, Some(Algorithm::Lz4)), Algorithm::Lz4);
    assert_eq!(adaptive.select_algorithm(&medium, None), Algorithm::Lz4);
    assert_eq!(adaptive.select_algorithm(&small, Some(Algorithm::Zstd)), Algorithm::NoCompression);
    let packed = balanced.compress_with(Algorithm::Lz4, &large, None).unwrap();
    assert_eq!(balanced.decompress(&packed, Algorithm::Lz4).unwrap(), large);
}

#[test]
fn test_certificate_pinner_creation() {
    let pinner = CertificatePinner::new();
    assert!(pinner.pinned_hashes().is_empty());
    assert!(pinner.allow_backup_certs());
}

#[test]
fn test_certificate_pinner_add_pin() {
    let mut pinner = CertificatePinner::new();
    let test_hash = [42u8; 32];
    pinner.add_pin(test_hash);

    assert_eq!(pinner.pinned_hashes().len(), 1);
    assert_eq!(pinner.pinned_hashes()[0], test_hash);
}

#[test]
fn pinner_validation_outcomes() {
    let cert = vec![7u8; 64];
    let mut pinner = CertificatePinner::new();
    assert!(pinner.validate(&cert).is_ok());
    pinner.add_pin([1u8; 32]);
    assert!(pinner.validate(&cert).is_ok());
    pinner.set_allow_backup_certs(false);
    assert!(matches!(
        pinner.validate(&cert),
        Err(NetworkError::Security(SecurityError::Certificate(_)))
    ));
    pinner.add_pin(*blake3_of(&cert));
    assert!(pinner.validate(&cert).is_ok());
}

fn blake3_of(data: &[u8]) -> Box<[u8; 32]> {
    Box::new(*blake3::hash(data).as_bytes())
}

#[test]
fn test_certificate_pinner() {
    let mut pinner = sha256_pinning::CertificatePinner::new();

    let test_hash = [0x42u8; 32];
    pinner.pin_certificate_hash(test_hash);

    let cert = vec![0u8; 100];

    let result = pinner.validate(&cert);
    assert!(result.is_err());
}

#[test]
fn sha256_pinning_accepts_pinned_certificate() {
    let cert = vec![9u8; 40];
    let mut pinner = sha256_pinning::CertificatePinner::new();
    pinner.pin_certificate(&cert);
    assert!(pinner.validate(&cert).is_ok());
    let info = sha256_pinning::CertificateInfo::from_certificate(&cert).unwrap();
    let expected = ring::digest::digest(&ring::digest::SHA256, &cert);
    assert_eq!(&info.fingerprint[..], expected.as_ref());
}

#[test]
fn enhanced_security_test_cipher_suite_properties() {
    assert!(SecureCipherSuite::Kyber1024ChaCha20.is_post_quantum());
    assert!(!SecureCipherSuite::ChaCha20Poly1305X25519.is_post_quantum());
    assert!(SecureCipherSuite::HybridX25519Kyber1024ChaCha20.is_hybrid());
    assert_eq!(SecureCipherSuite::Kyber1024ChaCha20.security_level(), 256);
}

#[test]
fn test_enhanced_security_test_cipher_suite_properties() {
    assert_eq!(SecureCipherSuite::ChaCha20Poly1305X25519.security_level(), 128);
    assert_eq!(SecureCipherSuite::Kyber768ChaCha20.security_level(), 192);
    assert_eq!(SecureCipherSuite::Kyber1024ChaCha20.security_level(), 256);
    assert_eq!(SecureCipherSuite::HybridX25519Kyber1024ChaCha20.security_level(), 256);

    assert!(!SecureCipherSuite::ChaCha20Poly1305X25519.is_post_quantum());
    assert!(SecureCipherSuite::Kyber768ChaCha20.is_post_quantum());
    assert!(SecureCipherSuite::Kyber1024ChaCha20.is_post_quantum());
    assert!(SecureCipherSuite::HybridX25519Kyber1024ChaCha20.is_post_quantum());

    assert!(!SecureCipherSuite::ChaCha20Poly1305X25519.is_hybrid());
    assert!(!SecureCipherSuite::Kyber768ChaCha20.is_hybrid());
    assert!(!SecureCipherSuite::Kyber1024ChaCha20.is_hybrid());
    assert!(SecureCipherSuite::HybridX25519Kyber1024ChaCha20.is_hybrid());
    assert!(SecureCipherSuite::HybridX25519Kyber1024Aes256.is_hybrid());
}

#[test]
fn test_certificate_pinning_config() {
    let config = CertificatePinningConfig {
        enabled: true,
        pinned_hashes: vec![[0x42u8; 32], [0x24u8; 32]],
        allow_backup_certs: true,
        validation_mode: PinValidationMode::Strict,
    };

    assert!(config.enabled);
    assert_eq!(config.pinned_hashes.len(), 2);
    assert_eq!(config.validation_mode, PinValidationMode::Strict);
}

#[test]
fn test_metrics_calculations() {
    let mut metrics = SecurityMetrics::default();

    metrics.encryptions_count = 100;
    metrics.decryptions_count = 95;
    metrics.auth_successes = 80;
    metrics.auth_failures = 5;
    metrics.cert_validations_success = 50;
    metrics.cert_validations_failure = 2;

    assert_eq!(metrics.encryptions_count, 100);
    assert_eq!(metrics.decryptions_count, 95);
}

#[test]
fn test_secure_key_material() {
    let key = vec![0x42u8; 32];
    let secure_key = SecureKeyMaterial::new(key.clone(), KeyDerivationFunction::HkdfSha256, 3_600_000);

    assert_eq!(secure_key.key(), &key);
    assert!(!secure_key.is_expired());
}

#[test]
fn key_material_expiry_and_rotation() {
    let k = SecureKeyMaterial::new_at(vec![1, 2, 3], KeyDerivationFunction::HkdfSha384, 1000, 5000);
    assert!(!k.is_expired_at(6000));
    assert!(k.is_expired_at(6001));
    let far = SecureKeyMaterial::new_at(vec![], KeyDerivationFunction::HkdfSha256, u64::MAX, 10);
    assert!(!far.is_expired_at(i64::MAX));
    let mut k = k;
    let mut ratchet = KeyRatchet::new(vec![0u8; 32], KeyDerivationFunction::HkdfSha256);
    assert!(k.rotate_at(&mut ratchet, 100).is_ok());
    assert_eq!(k.key().len(), 32);
    assert!(!k.is_expired_at(3_600_100));
    assert!(k.is_expired_at(3_600_101));
    assert_eq!(ratchet.generation(), 1);
}

#[test]
fn test_session_key_derivation() {
    let master_secret = b"master secret";
    let salt = b"salt";
    let info = b"session keys";

    let keys = derive_session_keys(KeyDerivationFunction::HkdfSha256, master_secret, Some(salt), info, 32, 16).unwrap();

    assert_ne!(keys.client_write_key, keys.server_write_key);
    assert_ne!(keys.client_mac_key, keys.server_mac_key);
    assert_ne!(keys.client_iv, keys.server_iv);

    assert_eq!(keys.client_write_key.len(), 32);
    assert_eq!(keys.client_iv.len(), 16);
}

#[test]
fn session_keys_are_cut_from_one_expansion() {
    let mut okm = vec![0u8; 4 * 16 + 2 * 8];
    hkdf::Hkdf::<sha2::Sha256>::new(Some(b"s"), b"m").expand(b"i", &mut okm).unwrap();
    let mut keys = derive_session_keys(KeyDerivationFunction::HkdfSha256, b"m", Some(b"s"), b"i", 16, 8).unwrap();
    assert_eq!(keys.client_write_key, &okm[0..16]);
    assert_eq!(keys.server_mac_key, &okm[48..64]);
    assert_eq!(keys.server_iv, &okm[72..80]);
    let too_long = derive_session_keys(KeyDerivationFunction::HkdfSha256, b"m", None, b"i", 2040, 1);
    assert!(matches!(too_long, Err(NetworkError::Security(SecurityError::KeyDerivation(_)))));
    assert!(derive_session_keys(KeyDerivationFunction::HkdfSha512, b"m", None, b"i", 2040, 1).is_ok());
    keys.zeroize();
    assert!(keys.client_write_key.is_empty() && keys.server_iv.is_empty());
}

#[test]
fn test_key_ratchet() {
    let initial_key = vec![0u8; 32];
    let mut ratchet = KeyRatchet::new(initial_key, KeyDerivationFunction::HkdfSha256);

    let key1 = ratchet.advance().unwrap();
    let key2 = ratchet.advance().unwrap();
    let key3 = ratchet.advance().unwrap();

    assert_ne!(key1, key2);
    assert_ne!(key2, key3);
    assert_ne!(key1, key3);

    assert_eq!(ratchet.generation(), 3);
}

#[test]
fn ratchets_from_the_same_key_hand_out_the_same_keys() {
    let mut a = KeyRatchet::new(vec![9u8; 32], KeyDerivationFunction::HkdfSha512);
    let mut b = KeyRatchet::new(vec![9u8; 32], KeyDerivationFunction::HkdfSha512);
    assert_eq!(a.generation(), 0);
    for k in 1..=5u64 {
        let ka = a.advance().unwrap();
        assert_eq!(ka.len(), 64);
        assert_eq!(ka, b.advance().unwrap());
        assert_eq!(a.generation(), k);
    }
}

#[test]
fn ratchet_step_matches_hkdf() {
    let mut ratchet = KeyRatchet::new(vec![5u8; 48], KeyDerivationFunction::HkdfSha384);
    let mut okm = vec![0u8; 96];
    hkdf::Hkdf::<sha2::Sha384>::new(None, &[5u8; 48]).expand(b"ratchet-0", &mut okm).unwrap();
    assert_eq!(ratchet.advance().unwrap(), &okm[48..96]);
    let mut next = vec![0u8; 96];
    hkdf::Hkdf::<sha2::Sha384>::new(None, &okm[0..48]).expand(b"ratchet-1", &mut next).unwrap();
    assert_eq!(ratchet.advance().unwrap(), &next[48..96]);
    for _ in 0..10 {
        ratchet.advance().unwrap();
    }
    let mut r2 = KeyRatchet::new(vec![5u8; 48], KeyDerivationFunction::HkdfSha384);
    for _ in 0..12 {
        r2.advance().unwrap();
    }
    assert_eq!(r2.generation(), 12);
    assert_eq!(ratchet.advance().unwrap(), r2.advance().unwrap());
}

#[test]
fn test_password_derivation() {
    let password = b"secure password";
    let salt = b"random salt";

    let key = derive_key_from_password(password, salt, 100_000, 32).unwrap();

    assert_eq!(key.len(), 32);

    let key2 = derive_key_from_password(password, salt, 100_000, 32).unwrap();
    assert_eq!(key, key2);

    let key3 = derive_key_from_password(password, b"different salt", 100_000, 32).unwrap();
    assert_ne!(key, key3);
}

#[test]
fn kdf_lengths_and_names() {
    assert_eq!(KeyDerivationFunction::HkdfSha256.output_len(), 32);
    assert_eq!(KeyDerivationFunction::HkdfSha384.output_len(), 48);
    assert_eq!(KeyDerivationFunction::HkdfSha512.output_len(), 64);
    assert_eq!(KeyDerivationFunction::HkdfSha512.to_string(), "HKDF-SHA512");
}

#[test]
fn security_manager_policy() {
    let config = EnhancedSecurityConfig::default();
    assert_eq!(config.session_timeout, 3600);
    let mut manager = EnhancedSecurityManager::new(config).unwrap();
    assert_eq!(manager.get_metrics().encryptions_count, 0);
    let caps = vec!["Kyber1024ChaCha20".to_string()];
    assert_eq!(manager.select_cipher_suite(&caps, None), SecureCipherSuite::Kyber1024ChaCha20);
    assert_eq!(
        manager.select_cipher_suite(&caps, Some(SecureCipherSuite::Aes256GcmX25519)),
        SecureCipherSuite::Kyber1024ChaCha20
    );
    assert_eq!(
        manager.select_cipher_suite(&vec![], Some(SecureCipherSuite::Aes256GcmX25519)),
        SecureCipherSuite::ChaCha20Poly1305X25519
    );
    let empty: Vec<Vec<u8>> = vec![];
    assert!(manager.validate_certificate_with_pinning(&empty, Ok(())).is_err());
    assert_eq!(manager.get_metrics().cert_validations_failure, 1);
    let chain = vec![vec![1u8, 2, 3]];
    assert!(manager.validate_certificate_with_pinning(&chain, Ok(())).is_ok());
    assert_eq!(manager.get_metrics().cert_validations_success, 1);
    let refused = manager.validate_certificate_with_pinning(&chain, Err(NetworkError::Connection("bad".to_string())));
    assert!(matches!(refused, Err(NetworkError::Connection(_))));
    manager.update_avg_latency(40);
    assert_eq!(manager.get_metrics().avg_operation_latency_us, 40);
}

#[test]
fn classical_default_without_post_quantum() {
    let mut config = EnhancedSecurityConfig::default();
    config.enable_post_quantum = false;
    config.preferred_cipher_suites = vec![SecureCipherSuite::Aes256GcmX25519];
    let manager = EnhancedSecurityManager::new(config).unwrap();
    assert_eq!(manager.select_cipher_suite(&vec![], None), SecureCipherSuite::ChaCha20Poly1305X25519);
}

#[test]
fn post_quantum_suites() {
    assert!(PQCipherSuite::HybridX25519Kyber768.is_hybrid());
    assert_eq!(PQCipherSuite::Kyber768Aes256.security_level(), 192);
    assert_eq!(PQCipherSuite::HybridX25519Kyber1024.security_level(), 256);
    assert!(PQSignatureAlgorithm::HybridEd25519Dilithium3.is_hybrid());
    assert!(!PQSignatureAlgorithm::Dilithium5.is_hybrid());
    assert_eq!(HybridKeyExchange::new(PQCipherSuite::Kyber1024Aes256).unwrap().pq_suite(), PQCipherSuite::Kyber1024Aes256);
    assert_eq!(PQSignature::new(PQSignatureAlgorithm::Dilithium3).unwrap().algorithm(), PQSignatureAlgorithm::Dilithium3);
}

#[test]
fn crypto_keys() {
    assert_eq!(CryptoKey::Symmetric(vec![0; 16]).size(), 16);
    assert_eq!(CryptoKey::X25519Public([0; 32]).algorithm(), CryptoAlgorithm::X25519);
    assert_eq!(CryptoKey::PostQuantumPrivate(vec![1, 2]).algorithm(), CryptoAlgorithm::Kyber1024);
    assert_eq!(CryptoKey::Ed25519Private([0; 32]).size(), 32);
}

#[test]
fn error_severity_and_classes() {
    let timeout = NetworkError::Transport(TransportError::Timeout);
    assert_eq!(timeout.severity(), ErrorSeverity::Minor);
    assert_eq!(timeout.classify(), ErrorClass::Timeout);
    assert_eq!(timeout.observable_type(), "transport");
    let auth = NetworkError::Security(SecurityError::AuthenticationFailed("x".to_string()));
    assert_eq!(auth.severity(), ErrorSeverity::Critical);
    assert_eq!(auth.classify(), ErrorClass::AuthFailure);
    assert_eq!(NetworkError::Configuration("c".to_string()).classify(), ErrorClass::ConfigError);
    assert_eq!(NetworkError::Mock("m".to_string()).severity(), ErrorSeverity::Minor);
    assert_eq!(
        NetworkError::Transport(TransportError::ConnectionFailed("f".to_string())).classify(),
        ErrorClass::ConnectionFailure
    );
    assert_eq!(ErrorClass::PrivacyViolation.to_string(), "privacy_violation");
}

#[test]
fn privacy_field_rules() {
    assert!(PrivacyLevel::Unrestricted.should_log_field("password"));
    assert!(!PrivacyLevel::Standard.should_log_field("email"));
    assert!(PrivacyLevel::Standard.should_log_field("duration"));
    assert!(PrivacyLevel::High.should_log_field("protocol"));
    assert!(!PrivacyLevel::High.should_log_field("peer"));
    assert!(PrivacyLevel::Maximum.should_log_field("count"));
    assert!(!PrivacyLevel::Maximum.should_log_field("duration"));
    assert!(!PrivacyLevel::Maximum.should_collect_metrics());
    assert!(PrivacyLevel::High.should_collect_metrics());
    assert_eq!(TransportEvent::DataReceived { bytes: 3 }.channel_name(), "data.received");
}

#[test]
fn config_defaults() {
    let t = TransportConfig::default();
    assert_eq!(t.connection_timeout, 30_000);
    assert_eq!(t.max_connections, 1000);
    assert_eq!(t.webrtc.stun_servers, vec!["stun:stun.l.google.com:19302".to_string()]);
    assert_eq!(t.quic.max_idle_timeout, 300_000);
    let s = SecurityConfig::default();
    assert_eq!(s.noise_patterns, vec!["Noise_XX_25519_ChaChaPoly_BLAKE2s".to_string()]);
    assert_ne!(AnonymizationLevel::Disabled, AnonymizationLevel::Maximum);
}

use synapsed::net::compression::{CompressionConfig, CompressionNegotiation, NetworkCompressionManager};
use synapsed::net::crypto::session::SessionManager;

#[test]
fn negotiation_prefers_our_order() {
    let mut m = NetworkCompressionManager::new(CompressionConfig { adaptive_selection: false, ..CompressionConfig::default() });
    let n = m.negotiate_compression(&[Algorithm::Lz4, Algorithm::Zstd]);
    assert_eq!(n.supported_algorithms, vec![Algorithm::Lz4, Algorithm::Zstd]);
    assert_eq!(n.preferred_algorithm, Algorithm::Zstd);
    assert_eq!(n.min_compression_ratio_permille, 100);
    let none = m.negotiate_compression(&[]);
    assert_eq!(none.supported_algorithms, vec![Algorithm::NoCompression]);
    assert_eq!(none.max_compression_level, 0);
    let d = CompressionNegotiation::default();
    assert_eq!(d.preferred_algorithm, Algorithm::Zstd);
}

#[test]
fn sessions_expire_idle_and_rotate() {
    let mut m = SessionManager::new_with_config(10_000, 1_000, 3_000);
    let id = m.create_session_at("peer123".to_string(), vec![7u8; 32], KeyDerivationFunction::HkdfSha256, 42, 0).unwrap();
    assert_eq!(id, 42);
    assert_eq!(m.active_session_count(), 1);
    assert_eq!(m.list_sessions(), vec![42]);
    let s = m.get_session_at(42, 100).unwrap();
    assert_eq!(s.state.peer_id, "peer123");
    assert_eq!(s.keys.client_write_key.len(), 32);
    assert!(!s.state.authenticated);
    let first_key = s.keys.client_write_key.clone();
    assert!(matches!(
        m.get_session_at(42, 3_001),
        Err(NetworkError::Security(SecurityError::SessionExpired(_)))
    ));
    m.touch_session_at(42, 500).unwrap();
    assert_eq!(m.get_session_at(42, 500).unwrap().state.rotation_count, 0);
    m.touch_session_at(42, 1_600).unwrap();
    let s = m.get_session_at(42, 1_600).unwrap();
    assert_eq!(s.state.rotation_count, 1);
    assert_ne!(s.keys.client_write_key, first_key);
    assert!(m.get_session_at(42, 10_001).is_err());
    m.authenticate_session(42).unwrap();
    assert!(m.get_session_at(42, 1_700).unwrap().state.authenticated);
    assert!(m.authenticate_session(43).is_err());
    m.cleanup_expired_at(4_700);
    assert_eq!(m.active_session_count(), 0);
    assert!(m.remove_session(42).is_err());
}

#[test]
fn session_keys_follow_the_session_id() {
    let mut m = SessionManager::new();
    m.create_session_at("p".to_string(), vec![1u8; 32], KeyDerivationFunction::HkdfSha256, 5, 0).unwrap();
    let mut okm = vec![0u8; 160];
    hkdf::Hkdf::<sha2::Sha256>::new(Some(&5u128.to_be_bytes()), &[1u8; 32]).expand(b"session-p", &mut okm).unwrap();
    assert_eq!(m.get_session_at(5, 0).unwrap().keys.client_write_key, &okm[0..32]);
    assert_eq!(m.get_session_at(5, 0).unwrap().keys.server_iv, &okm[144..160]);
    m.remove_session(5).unwrap();
    assert_eq!(m.active_session_count(), 0);
}

use chacha20poly1305::aead::{Aead, KeyInit};
use chacha20poly1305::{ChaCha20Poly1305, Key, Nonce};
use synapsed::net::crypto::session::SessionTicket;

fn session_key_material(secret: &[u8], id: u128, peer: &str) -> Vec<u8> {
    let salt = uuid::Uuid::from_u128(id).as_bytes().to_vec();
    let mut okm = vec![0u8; 160];
    hkdf::Hkdf::<sha2::Sha256>::new(Some(&salt), secret)
        .expand(format!("session-{}", peer).as_bytes(), &mut okm)
        .unwrap();
    okm
}

#[test]
fn encrypted_frames_open_under_the_session_keys() {
    let mut manager = EnhancedSecurityManager::new(EnhancedSecurityConfig::default()).unwrap();
    let secret = vec![7u8; 32];
    let id = manager.complete_handshake("peer-1".to_string(), secret.clone(), false).unwrap();
    assert_eq!(manager.get_metrics().key_generations_count, 1);
    assert_eq!(manager.get_metrics().pq_operations_count, 0);
    let okm = session_key_material(&secret, id, "peer-1");
    let client_key = &okm[0..32];

    let data = b"hello, peer";
    let frame = manager.encrypt_secure(data, id).unwrap();
    assert_eq!(frame.len(), 12 + data.len() + 16);
    assert_ne!(&frame[12..12 + data.len()], &data[..]);
    let cipher = ChaCha20Poly1305::new(Key::from_slice(client_key));
    assert_eq!(cipher.decrypt(Nonce::from_slice(&frame[..12]), &frame[12..]).unwrap(), data);
    assert_eq!(manager.get_metrics().encryptions_count, 1);

    let nonce = [3u8; 12];
    let mut reply = nonce.to_vec();
    reply.extend(cipher.encrypt(Nonce::from_slice(&nonce), &b"reply"[..]).unwrap());
    assert_eq!(manager.decrypt_secure(&reply, id).unwrap(), b"reply");
    assert_eq!(manager.get_metrics().decryptions_count, 1);

    let mut tampered = frame.clone();
    tampered[20] ^= 0xFF;
    match manager.decrypt_secure(&tampered, id) {
        Err(NetworkError::Security(SecurityError::Decryption(msg))) => {
            assert_eq!(msg, "AEAD decryption failed - authentication tag mismatch")
        },
        other => panic!("unexpected {:?}", other),
    }
    match manager.decrypt_secure(&frame[..5], id) {
        Err(NetworkError::Security(SecurityError::Decryption(msg))) => assert_eq!(msg, "Invalid ciphertext length"),
        other => panic!("unexpected {:?}", other),
    }
    assert!(matches!(
        manager.encrypt_secure(data, id.wrapping_add(1)),
        Err(NetworkError::Security(SecurityError::SessionExpired(_)))
    ));
    assert!(matches!(
        manager.decrypt_secure(&reply, id.wrapping_add(1)),
        Err(NetworkError::Security(SecurityError::SessionExpired(_)))
    ));
    assert_eq!(manager.get_metrics().decryptions_count, 1);
    assert_eq!(manager.get_metrics().encryptions_count, 1);

    manager.rotate_session_keys(id).unwrap();
    assert_eq!(manager.get_metrics().key_rotations_count, 1);
    assert!(manager.rotate_session_keys(id.wrapping_add(1)).is_err());
    assert!(manager.perform_maintenance().is_ok());
    assert_eq!(manager.decrypt_secure(&reply, id).unwrap(), b"reply");
}

#[test]
fn test_encryption_decryption_roundtrip() {
    let mut manager = EnhancedSecurityManager::new(EnhancedSecurityConfig::default()).unwrap();
    let session_id = manager.complete_handshake("test-peer".to_string(), vec![42u8; 32], false).unwrap();
    let original_data =
        b"This is a test message for encryption/decryption roundtrip testing with enhanced security features!";

    let encrypted = manager.encrypt_secure(original_data, session_id);
    assert!(encrypted.is_ok(), "Encryption failed: {:?}", encrypted.err());
    let encrypted = encrypted.unwrap();
    assert_ne!(encrypted.as_slice(), &original_data[..]);

    let decrypted = manager.decrypt_secure(&encrypted, session_id);
    assert!(decrypted.is_ok(), "Decryption failed: {:?}", decrypted.err());
    assert_eq!(decrypted.unwrap().as_slice(), &original_data[..]);

    let metrics = manager.get_metrics();
    assert_eq!(metrics.encryptions_count, 1);
    assert_eq!(metrics.decryptions_count, 1);
}

#[test]
fn test_tampered_ciphertext_detection() {
    let mut manager = EnhancedSecurityManager::new(EnhancedSecurityConfig::default()).unwrap();
    let session_id = manager.complete_handshake("test-peer".to_string(), vec![42u8; 32], false).unwrap();
    let test_data = b"sensitive data that should be protected";
    let mut encrypted = manager.encrypt_secure(test_data, session_id).unwrap();
    if encrypted.len() > 20 {
        encrypted[20] ^= 0xFF;
    }
    let decrypt_result = manager.decrypt_secure(&encrypted, session_id);
    assert!(decrypt_result.is_err(), "Should detect tampered ciphertext");
    match decrypt_result {
        Err(NetworkError::Security(SecurityError::Decryption(msg))) => {
            assert!(msg.contains("authentication tag mismatch") || msg.contains("decryption failed"));
        },
        other => panic!("Expected decryption error, got: {:?}", other),
    }
}

#[test]
fn test_invalid_session_handling() {
    let mut manager = EnhancedSecurityManager::new(EnhancedSecurityConfig::default()).unwrap();
    let invalid_session_id = uuid::Uuid::new_v4().as_u128();
    let test_data = b"test data";
    assert!(manager.encrypt_secure(test_data, invalid_session_id).is_err(), "Should fail with invalid session ID");
    assert!(manager.decrypt_secure(test_data, invalid_session_id).is_err(), "Should fail with invalid session ID");
}

#[test]
fn post_quantum_handshakes_are_counted() {
    let mut manager = EnhancedSecurityManager::new(EnhancedSecurityConfig::default()).unwrap();
    manager.complete_handshake("peer-2".to_string(), vec![1u8; 32], true).unwrap();
    assert_eq!(manager.get_metrics().key_generations_count, 1);
    assert_eq!(manager.get_metrics().pq_operations_count, 1);
}

#[test]
fn session_tickets_open_to_their_state() {
    let state = b"{\"id\":1}";
    let key = [9u8; 32];
    let ticket = SessionTicket::new(state, &key).unwrap();
    assert_eq!(ticket.id.len(), 32);
    assert_eq!(ticket.lifetime, 86_400_000);
    assert_eq!(ticket.encrypted_state.len(), state.len() + 16);
    assert_eq!(ticket.decrypt(&key).unwrap(), state);
    assert!(matches!(ticket.decrypt(&[8u8; 32]), Err(NetworkError::Security(SecurityError::Decryption(_)))));
    assert!(matches!(
        ticket.decrypt_at(&key, ticket.created_at + 86_400_001),
        Err(NetworkError::Security(SecurityError::SessionExpired(_)))
    ));
    assert_eq!(ticket.decrypt_at(&key, ticket.created_at + 86_400_000).unwrap(), state);

    let short = SessionTicket::new(state, b"short key").unwrap();
    assert_eq!(short.decrypt(b"short key").unwrap(), state);
    let mut derived = [0u8; 32];
    hkdf::Hkdf::<sha2::Sha256>::new(Some(b"session-ticket-salt"), b"short key")
        .expand(b"session-ticket-encryption", &mut derived)
        .unwrap();
    let cipher = ChaCha20Poly1305::new(Key::from_slice(&derived));
    assert_eq!(cipher.decrypt(Nonce::from_slice(&short.id[..12]), &short.encrypted_state[..]).unwrap(), state);
}

use synapsed::net::compression::{CompressedFrame, StreamCompressor};
use synapsed::net::dictionary::{Dictionary, DictionaryConfig, DictionaryManager};

#[test]
fn frames_decompress_by_their_algorithm() {
    let manager = NetworkCompressionManager::new(CompressionConfig::default());
    let data: Vec<u8> = b"abcabcabcabcabcabcabcabcabcabcabcabcabcabc".to_vec();
    let plain = CompressedFrame::new(Algorithm::NoCompression, data.len(), data.clone(), None, 0);
    assert!(!plain.is_compressed());
    assert_eq!(manager.decompress_message(&plain).unwrap(), data);

    let packed = lz4_flex::block::compress(&data);
    let frame = CompressedFrame::new(Algorithm::Lz4, data.len(), packed, None, 0);
    assert!(frame.is_compressed());
    assert_eq!(manager.decompress_message(&frame).unwrap(), data);

    let packed = zstd::bulk::compress(&data, 3).unwrap();
    let frame = CompressedFrame::new(Algorithm::Zstd, data.len(), packed, Some("d1".to_string()), 3);
    assert_eq!(frame.dictionary_id, Some("d1".to_string()));
    assert_eq!(manager.decompress_message(&frame).unwrap(), data);

    let broken = CompressedFrame::new(Algorithm::Zstd, 3, vec![1, 2, 3], None, 3);
    assert!(matches!(manager.decompress_message(&broken), Err(CompressionError::DecompressionFailed { .. })));
}

#[test]
fn strategies_and_chunk_sizes() {
    let mut manager = NetworkCompressionManager::new(CompressionConfig { adaptive_selection: false, ..CompressionConfig::default() });
    manager.update_strategy(SelectionStrategy::Speed);
    let mut config = StreamConfig::default();
    assert_eq!(StreamCompressor::new(config).optimal_chunk_size(), 64 * 1024);
    config.algorithm = Algorithm::Lz4;
    assert_eq!(StreamCompressor::new(config).optimal_chunk_size(), 16 * 1024);
    config.algorithm = Algorithm::NoCompression;
    assert_eq!(StreamCompressor::new(config).optimal_chunk_size(), 1024 * 1024);
}

#[test]
fn dictionaries_are_kept_by_id() {
    let config = DictionaryConfig::default();
    assert_eq!(config.max_dictionary_size, 64 * 1024);
    let mut m = DictionaryManager::new(config);
    assert!(m.get_dictionary("a").is_none());
    assert_eq!(m.memory_usage(), 0);
    m.import_dictionary("a".to_string(), vec![1, 2, 3]).unwrap();
    m.import_dictionary("b".to_string(), vec![4; 10]).unwrap();
    assert_eq!(m.list_dictionaries(), vec!["a".to_string(), "b".to_string()]);
    assert_eq!(m.memory_usage(), 13);
    assert_eq!(m.export_dictionary("a").unwrap(), vec![1, 2, 3]);
    m.import_dictionary("a".to_string(), vec![9]).unwrap();
    assert_eq!(m.export_dictionary("a").unwrap(), vec![9]);
    assert_eq!(m.list_dictionaries(), vec!["a".to_string(), "b".to_string()]);
    assert_eq!(m.memory_usage(), 11);
    match m.import_dictionary("big".to_string(), vec![0; 64 * 1024 + 1]) {
        Err(CompressionError::DictionaryError { reason }) => assert_eq!(reason, "Dictionary too large: 65537 > 65536"),
        other => panic!("unexpected {:?}", other),
    }
    match m.export_dictionary("zz") {
        Err(CompressionError::DictionaryError { reason }) => assert_eq!(reason, "Dictionary not found: zz"),
        other => panic!("unexpected {:?}", other),
    }
    assert_eq!(m.update_dictionary_effectiveness("b").unwrap(), 0);
    assert_eq!(m.update_dictionary_effectiveness("b").unwrap(), 1);
    assert_eq!(m.get_dictionary("b").unwrap().usage_count, 2);
    assert!(m.update_dictionary_effectiveness("zz").is_err());
    for i in 0..205u8 {
        m.add_training_sample(vec![i]).unwrap();
    }
}

#[test]
fn dictionary_ages() {
    let d = Dictionary::new_at("x".to_string(), vec![1, 2], 100);
    assert_eq!(d.size, 2);
    assert_eq!(d.age_seconds_at(160), 60);
    assert_eq!(d.age_seconds_at(50), 0);
    assert!(Dictionary::new("y".to_string(), vec![]).age_seconds() < 5);
}

use synapsed::net::onion::{OnionRouter, ProcessedPacket};
use synapsed::net::privacy::{CircuitState, OnionConfig};
use synapsed::net::types::PeerId;

#[test]
fn onion_packets_come_out_whole_after_every_hop() {
    let mut router = OnionRouter::new(OnionConfig::default());
    assert!(matches!(router.create_circuit(), Err(NetworkError::Privacy(_))));
    for p in 1..=4u128 {
        router.register_node(PeerId(p), vec![p as u8; 8]).unwrap();
    }
    assert_eq!(router.available_node_count(), 4);
    router.register_node(PeerId(4), vec![9; 8]).unwrap();
    assert_eq!(router.available_node_count(), 4);
    let id = router.create_circuit().unwrap();
    assert_eq!(router.active_circuit_count(), 1);
    assert_eq!(router.get_stats().circuits_created, 1);
    let best = router.select_best_circuit().unwrap();
    assert_eq!(best.id, id);
    assert_eq!(best.state, CircuitState::Ready);
    assert_eq!(best.nodes.len(), 3);
    assert_eq!(best.encryption_keys.len(), 3);
    let hops: Vec<PeerId> = best.nodes.iter().map(|n| n.peer_id).collect();

    let data = b"meet at the usual place".to_vec();
    let packet = router.send_through_circuit(id, &data).unwrap();
    assert_eq!(router.get_stats().packets_sent, 1);
    assert_eq!(packet.next_hop, Some(hops[0]));
    assert_eq!(packet.payload.len(), data.len());
    let mut current = packet;
    let mut seen = Vec::new();
    let result = loop {
        match router.process_packet(current).unwrap() {
            ProcessedPacket::Forward(p) => {
                seen.push(p.next_hop.unwrap());
                current = p;
            }
            ProcessedPacket::Final(v) => break v,
        }
    };
    assert_eq!(result, data);
    assert_eq!(seen, hops[1..].to_vec());

    router.unregister_node(hops[0]).unwrap();
    assert_eq!(router.active_circuit_count(), 0);
    assert_eq!(router.get_stats().circuits_torn_down, 1);
    assert!(router.send_through_circuit(id, &data).is_err());
    assert!(router.select_best_circuit().is_none());
}

#[test]
fn onion_circuits_are_limited_and_refreshed() {
    let config = OnionConfig { circuit_length: 1, circuit_timeout: 1000, refresh_interval: 1000, max_circuits: 2 };
    let mut router = OnionRouter::new(config);
    router.register_node(PeerId(7), vec![1, 2, 3]).unwrap();
    let a = router.create_circuit().unwrap();
    let _b = router.create_circuit().unwrap();
    assert!(matches!(router.create_circuit(), Err(NetworkError::Privacy(_))));
    router.maintenance().unwrap();
    assert_eq!(router.active_circuit_count(), 2);
    router.maintenance_at(i64::MAX).unwrap();
    assert_eq!(router.active_circuit_count(), 0);
    assert_eq!(router.get_stats().circuits_torn_down, 2);
    router.tear_down_circuit(a).unwrap();
    assert_eq!(router.get_stats().circuits_torn_down, 2);
}

use synapsed::net::optimized::{MessageType, SimdMessageProcessor, ZeroCopyMessage};
use synapsed::net::types::PeerId as OptPeerId;

#[test]
fn repeated_bytes_compress_by_runs() {
    let mut m = ZeroCopyMessage::new(vec![7u8; 100], OptPeerId(1), MessageType::Data);
    assert_eq!(m.compression_ratio_permille, 1000);
    m.compress().unwrap();
    assert_eq!(m.data, vec![0xFE, 100, 7]);
    assert_eq!(m.compression_ratio_permille, 30);

    let mut long = ZeroCopyMessage::new(vec![0u8; 300], OptPeerId(1), MessageType::Consensus);
    long.compress().unwrap();
    assert_eq!(long.data, vec![0xFE, 255, 0, 0xFE, 45, 0]);

    let mut mixed: Vec<u8> = vec![5, 5, 5, 5, 5, 1, 2, 2];
    mixed.extend((0..100u8).map(|i| i));
    let mut m = ZeroCopyMessage::new(mixed.clone(), OptPeerId(2), MessageType::Crdt);
    m.compress().unwrap();
    // 108 bytes encode to 106: not under 80%, so the data stays
    assert_eq!(m.compression_ratio_permille, 981);
    assert_eq!(m.data, mixed);
}

#[test]
fn short_messages_are_not_compressed() {
    let mut m = ZeroCopyMessage::new(vec![9u8; 99], OptPeerId(3), MessageType::Heartbeat);
    m.compress().unwrap();
    assert_eq!(m.data, vec![9u8; 99]);
    assert_eq!(m.compression_ratio_permille, 1000);
}

#[test]
fn processed_messages_carry_checksums() {
    let mut p = SimdMessageProcessor::new(2, 4);
    let msgs = vec![
        ZeroCopyMessage::new(vec![1, 1], OptPeerId(1), MessageType::Data),
        ZeroCopyMessage::new(vec![255; 9], OptPeerId(2), MessageType::Data),
        ZeroCopyMessage::new(Vec::new(), OptPeerId(3), MessageType::Control),
    ];
    let out = p.process_message_batch(msgs).unwrap();
    assert_eq!(out.len(), 3);
    assert_eq!(out[0].checksum, 3);
    assert_eq!(out[1].checksum, 65280);
    assert_eq!(out[2].checksum, 0);
    assert!(out[0].is_valid && out[1].is_valid && !out[2].is_valid);
    assert_eq!(out[1].original.peer_id, OptPeerId(2));
    let s = p.stats();
    assert_eq!(s.messages_processed, 3);
    assert_eq!(s.batches_processed, 1);
    assert_eq!(s.simd_operations, 1);
    assert_eq!(s.bytes_processed, 11);
}

use synapsed::net::observability::ObservabilityContext;

#[test]
fn child_contexts_share_the_trace() {
    let mut root = ObservabilityContext::new();
    assert!(root.parent_span.is_none());
    assert_eq!(root.privacy_level, PrivacyLevel::Standard);
    root.add_baggage("tenant".to_string(), "a".to_string());
    root.add_baggage("region".to_string(), "eu".to_string());
    root.add_baggage("tenant".to_string(), "b".to_string());
    assert_eq!(
        root.baggage,
        vec![("tenant".to_string(), "b".to_string()), ("region".to_string(), "eu".to_string())]
    );
    let child = root.child();
    assert_eq!(child.trace_id, root.trace_id);
    assert_eq!(child.parent_span, Some(root.span_id));
    assert_ne!(child.span_id, root.span_id);
    assert_eq!(child.baggage, root.baggage);
    let high = child.with_privacy_level(PrivacyLevel::High);
    assert_eq!(high.privacy_level, PrivacyLevel::High);
    assert_eq!(ObservabilityContext::default().baggage.len(), 0);
}

use synapsed::net::compression::StreamDecompressor;
use synapsed::net::crypto::enhanced_security::{SecurityEvent, SecurityEventSeverity, SecurityEventType};

#[test]
fn test_default_config() {
    let config = CompressionConfig::default();
    assert_eq!(config.min_compression_ratio_permille, 100);
    assert_eq!(config.max_level, 6);
    assert!(config.adaptive_selection);
    assert_eq!(config.dictionary_size, 64 * 1024);
    assert_eq!(config.stream_chunk_size, 32 * 1024);
}

#[test]
fn test_adaptive_selector_creation() {
    let selector = AdaptiveSelector::new(SelectionStrategy::Balanced, 100);
    assert_eq!(selector.strategy(), SelectionStrategy::Balanced);
    assert_eq!(selector.min_compression_ratio_permille(), 100);

    // Should have all three algorithms
    let data = vec![7u8; 64];
    for algorithm in [Algorithm::Zstd, Algorithm::Lz4, Algorithm::NoCompression] {
        let packed = selector.compress_with(algorithm, &data, Some(1)).unwrap();
        assert_eq!(selector.decompress(&packed, algorithm).unwrap(), data);
    }
}

#[test]
fn test_noop_compressor() {
    let compressor = NoopCompressor;
    let data = b"test data";
    let compressed = compressor.compress(data, None).unwrap();
    let decompressed = compressor.decompress(&compressed).unwrap();

    assert_eq!(compressed.as_slice(), data);
    assert_eq!(decompressed.as_slice(), data);
    assert_eq!(compressor.estimate_compression_ratio_permille(data), 0);
}

#[test]
fn test_compression_negotiation_default() {
    let negotiation = CompressionNegotiation::default();
    assert_eq!(negotiation.preferred_algorithm, Algorithm::Zstd);
    assert!(negotiation.supported_algorithms.contains(&Algorithm::Zstd));
    assert!(negotiation.supported_algorithms.contains(&Algorithm::Lz4));
}

#[test]
fn test_compressed_frame_creation() {
    let data = b"test data".to_vec();
    let frame = CompressedFrame::new(Algorithm::Zstd, 100, data.clone(), None, 6);

    assert_eq!(frame.algorithm, Algorithm::Zstd);
    assert_eq!(frame.original_size, 100);
    assert_eq!(frame.compressed_data, data);
    assert!(frame.is_compressed());

    let ratio = frame.compression_ratio_permille();
    assert!(ratio > 0); // Should show compression occurred
    assert_eq!(ratio, 910);
}

#[test]
fn test_network_compression_manager_creation() {
    let config = CompressionConfig::default();
    let manager = NetworkCompressionManager::new(config);

    assert_eq!(manager.negotiation().preferred_algorithm, Algorithm::Zstd);
}

#[test]
fn test_compression_negotiation() {
    let config = CompressionConfig::default();
    let mut manager = NetworkCompressionManager::new(config);

    // Test with compatible algorithms
    let peer_algorithms = vec![Algorithm::Zstd, Algorithm::Lz4];
    let negotiated = manager.negotiate_compression(&peer_algorithms);
    assert!(negotiated.supported_algorithms.len() >= 1);

    // Test with no compatible algorithms (except None)
    let peer_algorithms = vec![];
    let negotiated = manager.negotiate_compression(&peer_algorithms);
    assert_eq!(negotiated.preferred_algorithm, Algorithm::NoCompression);
}

#[test]
fn test_stream_compressor_creation() {
    let config = StreamConfig::default();
    let compressor = StreamCompressor::new(config);

    assert_eq!(compressor.config().chunk_size, 32 * 1024);
    assert_eq!(compressor.config().algorithm, Algorithm::Zstd);
}

#[test]
fn test_optimal_chunk_size() {
    let mut config = StreamConfig::default();
    config.algorithm = Algorithm::Zstd;
    let compressor = StreamCompressor::new(config);
    assert_eq!(compressor.optimal_chunk_size(), 64 * 1024);

    let mut config = StreamConfig::default();
    config.algorithm = Algorithm::Lz4;
    let compressor = StreamCompressor::new(config);
    assert_eq!(compressor.optimal_chunk_size(), 16 * 1024);

    let mut config = StreamConfig::default();
    config.algorithm = Algorithm::NoCompression;
    let compressor = StreamCompressor::new(config);
    assert_eq!(compressor.optimal_chunk_size(), 1024 * 1024);
}

#[test]
fn test_stream_decompressor_creation() {
    let decompressor = StreamDecompressor::new(64 * 1024);

    assert_eq!(decompressor.buffer_size(), 64 * 1024);
}

#[test]
fn test_dictionary_creation() {
    let data = b"test dictionary data".to_vec();
    let dict = Dictionary::new("test_dict".to_string(), data.clone());

    assert_eq!(dict.id, "test_dict");
    assert_eq!(dict.data, data);
    assert_eq!(dict.usage_count, 0);
    assert_eq!(dict.size, data.len());
    assert!(dict.created_at > 0);
}

#[test]
fn test_dictionary_age() {
    let data = b"test dictionary data".to_vec();
    let dict = Dictionary::new("test_dict".to_string(), data);

    // Age should be very small for newly created dictionary
    let age = dict.age_seconds();
    assert!(age < 5); // Should be less than 5 seconds old
}

#[test]
fn test_dictionary_config_default() {
    let config = DictionaryConfig::default();
    assert_eq!(config.max_dictionaries, 10);
    assert_eq!(config.max_dictionary_size, 64 * 1024);
    assert_eq!(config.min_training_samples, 100);
    assert_eq!(config.max_age_seconds, 24 * 60 * 60);
    assert_eq!(config.min_effectiveness_permille, 100);
}

#[test]
fn test_dictionary_manager_creation() {
    let config = DictionaryConfig::default();
    let manager = DictionaryManager::new(config);

    // Should be able to create manager without issues
    assert_eq!(manager.config().max_dictionaries, 10);
}

#[test]
fn test_session_creation() {
    let mut manager = SessionManager::new();
    let master_secret = vec![0u8; 32];

    let session_id = manager
        .create_session("peer123".to_string(), master_secret, KeyDerivationFunction::HkdfSha256)
        .unwrap();

    // Verify session exists
    let session = manager.get_session(session_id).unwrap();
    assert_eq!(session.state.peer_id, "peer123");
    assert!(!session.state.authenticated);
}

#[test]
fn test_session_authentication() {
    let mut manager = SessionManager::new();
    let master_secret = vec![0u8; 32];

    let session_id = manager
        .create_session("peer123".to_string(), master_secret, KeyDerivationFunction::HkdfSha256)
        .unwrap();

    // Authenticate session
    manager.authenticate_session(session_id).unwrap();

    // Verify authentication
    let session = manager.get_session(session_id).unwrap();
    assert!(session.state.authenticated);
}

#[test]
fn test_session_cleanup() {
    let mut manager = SessionManager::new_with_config(3_600_000, 300_000, 100); // Short idle timeout for testing

    let master_secret = vec![0u8; 32];
    let session_id = manager
        .create_session("peer123".to_string(), master_secret, KeyDerivationFunction::HkdfSha256)
        .unwrap();

    // Initial count
    assert_eq!(manager.active_session_count(), 1);

    // Wait for idle timeout
    let start = std::time::Instant::now();
    while start.elapsed() < std::time::Duration::from_millis(200) {}

    // Session should be expired due to idle timeout
    assert!(manager.get_session(session_id).is_err());
}

#[test]
fn test_session_ticket() {
    let state = "{\"peer_id\":\"peer123\",\"authenticated\":true}".to_string();
    let encryption_key = b"ticket-encryption-key";

    // Create ticket
    let ticket = SessionTicket::new(state.as_bytes(), encryption_key).unwrap();

    // Decrypt ticket
    let decrypted = ticket.decrypt(encryption_key).unwrap();
    let decrypted_state: serde_json::Value = serde_json::from_slice(&decrypted).unwrap();
    assert_eq!(decrypted_state["peer_id"], "peer123");
    assert_eq!(decrypted_state["authenticated"], true);
}

#[test]
fn test_secure_key_material_zeroization() {
    let key_data = vec![0x42u8; 32];
    let secure_key = SecureKeyMaterial::new(key_data.clone(), KeyDerivationFunction::HkdfSha256, 3_600_000);

    // Verify key is accessible
    assert_eq!(secure_key.key(), &key_data);
    assert!(!secure_key.is_expired());
}

#[test]
fn test_security_event_types() {
    let event = SecurityEvent {
        timestamp: 0,
        event_type: SecurityEventType::KeyGeneration,
        session_id: None,
        peer_id: None,
        details: Vec::new(),
        severity: SecurityEventSeverity::Info,
    };

    assert_eq!(event.event_type, SecurityEventType::KeyGeneration);
    assert_eq!(event.severity, SecurityEventSeverity::Info);
}

use synapsed::net::compression::count_duplicate_chunks;

#[test]
fn repeated_chunks_are_counted() {
    assert_eq!(count_duplicate_chunks(&[]), 0);
    assert_eq!(count_duplicate_chunks(&[1, 2, 3, 4, 1, 2, 3, 4, 1, 2, 3, 4, 9]), 2);
    assert_eq!(count_duplicate_chunks(&[1, 2, 3, 4, 4, 3, 2, 1, 1, 2, 3]), 0);
    assert_eq!(count_duplicate_chunks(&[0u8; 16]), 3);
}

use synapsed::net::optimized::{any_usable, least_loaded_healthy, PooledConnection};

#[test]
fn pooled_connections_pick_the_least_loaded_healthy_one() {
    let mut a = PooledConnection::opened_at(1_000);
    assert_eq!(a.latency_ms, 10);
    assert!(a.is_healthy);
    a.record_send(100, 3);
    a.record_send(50, 4);
    assert_eq!(a.message_count, 2);
    assert_eq!(a.bytes_sent, 150);
    assert_eq!(a.latency_ms, 4);
    let mut b = PooledConnection::opened_at(1_000);
    b.record_send(10, 1);
    let mut sick = PooledConnection::opened_at(1_000);
    sick.is_healthy = false;
    let c = PooledConnection::opened_at(2_000);
    b.record_send(10, 1);

    assert_eq!(least_loaded_healthy(&vec![a, sick, b, c]), Some(3));
    assert_eq!(least_loaded_healthy(&vec![a, b, sick]), Some(0));
    let mut once = PooledConnection::opened_at(1_000);
    once.record_send(1, 1);
    assert_eq!(least_loaded_healthy(&vec![a, sick, once, b]), Some(2));
    assert_eq!(least_loaded_healthy(&vec![sick]), None);
    assert_eq!(least_loaded_healthy(&vec![]), None);

    assert!(any_usable(&vec![sick, c], 2_500, 1_000));
    assert!(!any_usable(&vec![sick, c], 3_000, 1_000));
    assert!(!any_usable(&vec![sick], 1_000, 1_000));
}

use synapsed::net::stack::{NetworkState, StackHealthLevel};

#[test]
fn stack_health_follows_the_worst_check() {
    let fresh = NetworkState { is_initialized: false, active_connections: 0 }.health();
    assert_eq!(fresh.initialization.level, StackHealthLevel::Critical);
    assert_eq!(fresh.initialization.message, "Network stack not initialized");
    assert_eq!(fresh.connections.level, StackHealthLevel::Warning);
    assert_eq!(fresh.connections.message, "No active connections");
    assert_eq!(fresh.overall, StackHealthLevel::Critical);

    let idle = NetworkState { is_initialized: true, active_connections: 0 }.health();
    assert_eq!(idle.initialization.message, "Network stack is initialized");
    assert_eq!(idle.overall, StackHealthLevel::Warning);

    let busy = NetworkState { is_initialized: true, active_connections: 12 }.health();
    assert_eq!(busy.connections.level, StackHealthLevel::Healthy);
    assert_eq!(busy.connections.message, "Active connections: 12");
    assert_eq!(busy.overall, StackHealthLevel::Healthy);
}
