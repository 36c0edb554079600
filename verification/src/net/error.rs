//! Error types of the networking layer, with their severity and the
//! classification that observability may see without their details.

use vstd::prelude::*;

verus! {

/// Main error type for networking operations.
#[derive(Debug)]
pub enum NetworkError {
    /// Transport-related errors
    Transport(TransportError),
    /// Security-related errors
    Security(SecurityError),
    /// Privacy-related errors
    Privacy(PrivacyError),
    /// Configuration errors
    Configuration(String),
    /// Connection errors
    Connection(String),
    /// Protocol errors
    Protocol(String),
    /// Observability errors
    Observability(String),
    /// I/O errors, by their message
    Io(String),
    /// Other errors, by their message
    Other(String),
    /// Mock-related errors (for testing)
    Mock(String),
}

/// Transport-specific errors.
#[derive(Debug)]
pub enum TransportError {
    Quic(String),
    WebRtc(String),
    Libp2p(String),
    Tcp(String),
    Udp(String),
    WebSocket(String),
    SignalingFailed(String),
    NotAvailable(String),
    ConnectionFailed(String),
    Timeout,
    TimeoutWithMsg(String),
    ConnectionLimitReached(String),
    NotConnected(String),
    NotInitialized(String),
    InvalidAddress(String),
    AllTransportsFailed(String),
}

/// Security-specific errors.
#[derive(Debug)]
pub enum SecurityError {
    Encryption(String),
    Decryption(String),
    AuthenticationFailed(String),
    InvalidSignature,
    Certificate(String),
    KeyExchange(String),
    KeyDerivation(String),
    KeyGeneration(String),
    Signature(String),
    Verification(String),
    SessionExpired(String),
    Serialization(String),
    Deserialization(String),
}

/// Privacy-specific errors.
#[derive(Debug)]
pub enum PrivacyError {
    AnonymizationFailed(String),
    Tor(String),
    MixNetwork(String),
    PolicyViolation(String),
}

/// Error severity levels for monitoring.
#[derive(Debug, Clone, Copy, PartialEq, Eq, Structural)]
pub enum ErrorSeverity {
    /// Critical errors that require immediate attention
    Critical,
    /// Major errors that impact functionality
    Major,
    /// Minor errors that can be recovered from
    Minor,
}

/// Error classification for metrics.
#[derive(Debug, Clone, Copy, PartialEq, Eq, Structural)]
pub enum ErrorClass {
    /// Connection timeout
    Timeout,
    /// Connection failure
    ConnectionFailure,
    /// Authentication failure
    AuthFailure,
    /// Privacy violation
    PrivacyViolation,
    /// Configuration error
    ConfigError,
    /// Other error
    Other,
}

impl ErrorClass {
    pub open spec fn label(&self) -> Seq<char> {
        match self {
            ErrorClass::Timeout => "timeout"@,
            ErrorClass::ConnectionFailure => "connection_failure"@,
            ErrorClass::AuthFailure => "auth_failure"@,
            ErrorClass::PrivacyViolation => "privacy_violation"@,
            ErrorClass::ConfigError => "config_error"@,
            ErrorClass::Other => "other"@,
        }
    }

    /// The class's name as metrics show it.
    pub fn to_string(&self) -> (r: String)
        ensures
            r@ == self.label(),
    {
        let s = match self {
            ErrorClass::Timeout => "timeout",
            ErrorClass::ConnectionFailure => "connection_failure",
            ErrorClass::AuthFailure => "auth_failure",
            ErrorClass::PrivacyViolation => "privacy_violation",
            ErrorClass::ConfigError => "config_error",
            ErrorClass::Other => "other",
        };
        String::from_str(s)
    }
}

impl NetworkError {
    pub open spec fn severity_spec(&self) -> ErrorSeverity {
        match self {
            NetworkError::Security(_) => ErrorSeverity::Critical,
            NetworkError::Privacy(_) => ErrorSeverity::Critical,
            NetworkError::Transport(TransportError::Timeout) => ErrorSeverity::Minor,
            NetworkError::Transport(_) => ErrorSeverity::Major,
            NetworkError::Configuration(_) => ErrorSeverity::Critical,
            NetworkError::Connection(_) => ErrorSeverity::Major,
            NetworkError::Protocol(_) => ErrorSeverity::Major,
            NetworkError::Observability(_) => ErrorSeverity::Minor,
            NetworkError::Io(_) => ErrorSeverity::Major,
            NetworkError::Other(_) => ErrorSeverity::Major,
            NetworkError::Mock(_) => ErrorSeverity::Minor,
        }
    }

    pub open spec fn observable(&self) -> Seq<char> {
        match self {
            NetworkError::Transport(_) => "transport"@,
            NetworkError::Security(_) => "security"@,
            NetworkError::Privacy(_) => "privacy"@,
            NetworkError::Configuration(_) => "configuration"@,
            NetworkError::Connection(_) => "connection"@,
            NetworkError::Protocol(_) => "protocol"@,
            NetworkError::Observability(_) => "observability"@,
            NetworkError::Io(_) => "io"@,
            NetworkError::Other(_) => "other"@,
            NetworkError::Mock(_) => "mock"@,
        }
    }

    pub open spec fn class(&self) -> ErrorClass {
        match self {
            NetworkError::Transport(TransportError::Timeout) => ErrorClass::Timeout,
            NetworkError::Transport(TransportError::TimeoutWithMsg(_)) => ErrorClass::Timeout,
            NetworkError::Transport(TransportError::ConnectionFailed(_)) => ErrorClass::ConnectionFailure,
            NetworkError::Security(SecurityError::AuthenticationFailed(_)) => ErrorClass::AuthFailure,
            NetworkError::Privacy(_) => ErrorClass::PrivacyViolation,
            NetworkError::Configuration(_) => ErrorClass::ConfigError,
            _ => ErrorClass::Other,
        }
    }

    /// Returns the severity of this error for observability purposes.
    pub fn severity(&self) -> (r: ErrorSeverity)
        ensures
            r == self.severity_spec(),
    {
        match self {
            NetworkError::Security(_) => ErrorSeverity::Critical,
            NetworkError::Privacy(_) => ErrorSeverity::Critical,
            NetworkError::Transport(TransportError::Timeout) => ErrorSeverity::Minor,
            NetworkError::Transport(_) => ErrorSeverity::Major,
            NetworkError::Configuration(_) => ErrorSeverity::Critical,
            NetworkError::Connection(_) => ErrorSeverity::Major,
            NetworkError::Protocol(_) => ErrorSeverity::Major,
            NetworkError::Observability(_) => ErrorSeverity::Minor,
            NetworkError::Io(_) => ErrorSeverity::Major,
            NetworkError::Other(_) => ErrorSeverity::Major,
            NetworkError::Mock(_) => ErrorSeverity::Minor,
        }
    }

    /// Returns an observable error type that doesn't leak sensitive information.
    pub fn observable_type(&self) -> (r: &'static str)
        ensures
            r@ == self.observable(),
    {
        match self {
            NetworkError::Transport(_) => "transport",
            NetworkError::Security(_) => "security",
            NetworkError::Privacy(_) => "privacy",
            NetworkError::Configuration(_) => "configuration",
            NetworkError::Connection(_) => "connection",
            NetworkError::Protocol(_) => "protocol",
            NetworkError::Observability(_) => "observability",
            NetworkError::Io(_) => "io",
            NetworkError::Other(_) => "other",
            NetworkError::Mock(_) => "mock",
        }
    }

    /// Classifies the error for metrics without revealing details.
    pub fn classify(&self) -> (r: ErrorClass)
        ensures
            r == self.class(),
    {
        match self {
            NetworkError::Transport(TransportError::Timeout) => ErrorClass::Timeout,
            NetworkError::Transport(TransportError::TimeoutWithMsg(_)) => ErrorClass::Timeout,
            NetworkError::Transport(TransportError::ConnectionFailed(_)) => ErrorClass::ConnectionFailure,
            NetworkError::Security(SecurityError::AuthenticationFailed(_)) => ErrorClass::AuthFailure,
            NetworkError::Privacy(_) => ErrorClass::PrivacyViolation,
            NetworkError::Configuration(_) => ErrorClass::ConfigError,
            _ => ErrorClass::Other,
        }
    }
}

/// Every security or privacy error is critical.
pub proof fn security_and_privacy_errors_are_critical(e: NetworkError)
    requires
        e is Security || e is Privacy,
    ensures
        e.severity_spec() == ErrorSeverity::Critical,
{
}

/// A timeout, with or without a message, is classified as a timeout.
pub proof fn timeouts_classify_as_timeout(e: NetworkError)
    requires
        e matches NetworkError::Transport(t) && (t is Timeout || t is TimeoutWithMsg),
    ensures
        e.class() == ErrorClass::Timeout,
{
}

} // verus!
