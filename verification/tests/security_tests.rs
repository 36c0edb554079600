use synapsed::net::crypto::post_quantum::PQCipherSuite;
use synapsed::net::error::{NetworkError, SecurityError};
use synapsed::net::security::{AuthMethod, CipherSuite, HandshakePhase, SecurityLayer};
use synapsed::net::types::PeerId;

fn caps(v: &[&str]) -> Vec<String> {
    v.iter().map(|s| s.to_string()).collect()
}

#[test]
fn classical_handshake_negotiates_from_capabilities() {
    let mut layer = SecurityLayer::new(false).unwrap();
    let st = layer.initiate_handshake(&caps(&["supports Aes256GcmX25519", "SharedSecret"])).unwrap();
    assert_eq!(st.phase, HandshakePhase::KeyExchange);
    assert_eq!(st.cipher_suite, Some(CipherSuite::Aes256GcmX25519));
    assert_eq!(st.auth_method, Some(AuthMethod::SharedSecret));
    assert_eq!(st.ephemeral_keys.len(), 32);
    assert!(st.pq_key_exchange.is_none());
    assert!(st.session_id.is_none());
}

#[test]
fn unknown_capabilities_fall_back_to_defaults() {
    let mut layer = SecurityLayer::new(false).unwrap();
    let st = layer.initiate_handshake(&caps(&["Kyber1024Aes256", "Dilithium5"])).unwrap();
    assert_eq!(st.cipher_suite, Some(CipherSuite::ChaCha20Poly1305X25519));
    assert_eq!(st.auth_method, Some(AuthMethod::Ed25519));
    let st = layer.initiate_handshake(&Vec::new()).unwrap();
    assert_eq!(st.cipher_suite, Some(CipherSuite::ChaCha20Poly1305X25519));
    assert_eq!(st.auth_method, Some(AuthMethod::Ed25519));
}

#[test]
fn post_quantum_handshake_prepares_a_kyber_exchange() {
    let mut layer = SecurityLayer::new(true).unwrap();
    let st = layer.initiate_handshake(&caps(&["Kyber1024Aes256", "Dilithium5"])).unwrap();
    assert_eq!(st.cipher_suite, Some(CipherSuite::Kyber1024Aes256));
    assert_eq!(st.auth_method, Some(AuthMethod::Dilithium5));
    assert_eq!(st.pq_key_exchange.as_ref().unwrap().pq_suite(), PQCipherSuite::Kyber1024Aes256);
    assert!(st.ephemeral_keys.is_empty());
    let hybrid = layer.initiate_handshake(&caps(&["HybridX25519Kyber1024"])).unwrap();
    assert_eq!(hybrid.pq_key_exchange.unwrap().pq_suite(), PQCipherSuite::HybridX25519Kyber1024);
    let id = layer.complete_handshake(st, PeerId(7)).unwrap();
    let frame = layer.encrypt(b"quantum", id).unwrap();
    assert_eq!(frame.len(), 12 + 7 + 16);
}

#[test]
fn completed_handshake_encrypts_for_its_session() {
    let mut layer = SecurityLayer::default();
    let st = layer.initiate_handshake(&caps(&["ChaCha20Poly1305X25519"])).unwrap();
    let id = layer.complete_handshake(st, PeerId(0x1234)).unwrap();
    let frame = layer.encrypt(b"hello world", id).unwrap();
    assert_eq!(frame.len(), 12 + 11 + 16);
    // frames are opened with the server key, so the client's own frame does not open
    assert!(matches!(
        layer.decrypt(&frame, id),
        Err(NetworkError::Security(SecurityError::Decryption(_)))
    ));
    assert!(layer.cleanup_expired_sessions().is_ok());
}

#[test]
fn handshake_and_session_errors() {
    let mut layer = SecurityLayer::new(false).unwrap();
    let mut st = layer.initiate_handshake(&Vec::new()).unwrap();
    st.phase = HandshakePhase::Hello;
    assert!(matches!(
        layer.complete_handshake(st, PeerId(1)),
        Err(NetworkError::Security(SecurityError::KeyExchange(_)))
    ));
    assert!(matches!(
        layer.encrypt(b"data", 99),
        Err(NetworkError::Security(SecurityError::SessionExpired(_)))
    ));
    assert!(matches!(
        layer.decrypt(&[0u8; 5], 99),
        Err(NetworkError::Security(SecurityError::Decryption(_)))
    ));
    assert!(matches!(
        layer.decrypt(&[0u8; 40], 99),
        Err(NetworkError::Security(SecurityError::SessionExpired(_)))
    ));
}

use synapsed::net::crypto::certificates::CertificateValidator;

#[test]
fn certificates_test_certificate_validator_creation() {
    let validator = CertificateValidator::new();
    assert!(validator.is_ok());
}

#[test]
fn test_certificate_validator_with_self_signed() {
    let validator = CertificateValidator::new_with_self_signed();
    assert!(validator.is_ok());
    assert!(validator.unwrap().allow_self_signed());
}

#[test]
fn test_empty_certificate_chain_validation() {
    let validator = CertificateValidator::new().unwrap();
    let empty_chain: Vec<Vec<u8>> = vec![];
    let result = validator.validate_chain(&empty_chain, "test.example.com", None);

    assert!(result.is_err());
    match result {
        Err(NetworkError::Security(SecurityError::Certificate(msg))) => assert_eq!(msg, "Empty certificate chain"),
        other => panic!("unexpected {:?}", other),
    }
}

#[test]
fn test_certificate_validation_with_custom_validator() {
    let validator = CertificateValidator::new().unwrap();
    let custom_check = Some(Err(NetworkError::Security(SecurityError::Certificate(
        "Custom validation failed".to_string(),
    ))));
    let chain = vec![vec![0x30u8, 0x82, 0x01, 0x00]];
    let result = validator.validate_chain(&chain, "test.example.com", custom_check);

    assert!(result.is_err());
    if let Err(NetworkError::Security(SecurityError::Certificate(msg))) = result {
        assert!(msg.contains("Custom validation failed"));
    }
}

#[test]
fn chains_pass_without_a_failing_custom_check() {
    let validator = CertificateValidator::new().unwrap();
    let chain = vec![vec![1u8, 2, 3], vec![4u8]];
    assert!(validator.validate_chain(&chain, "example.org", None).is_ok());
    assert!(validator.validate_chain(&chain, "example.org", Some(Ok(()))).is_ok());
}
