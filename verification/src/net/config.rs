//! Configuration of the transport and security layers, with their
//! defaults. Durations are whole milliseconds.

use vstd::prelude::*;
use crate::net::types::TransportType;

verus! {

/// Transport selection strategy.
#[derive(Debug, Clone, Copy, PartialEq, Eq, Structural)]
pub enum SelectionStrategy {
    /// Always select the best matching transport
    BestMatch,
    /// Randomly select from suitable transports
    Random,
    /// Round-robin between suitable transports
    RoundRobin,
}

impl Default for SelectionStrategy {
    fn default() -> (r: Self)
        ensures
            r == SelectionStrategy::BestMatch,
    {
        SelectionStrategy::BestMatch
    }
}

/// QUIC transport configuration.
#[derive(Debug, Clone)]
pub struct QuicConfig {
    /// Server name for TLS
    pub server_name: Option<String>,
    /// Keep-alive interval, in milliseconds
    pub keep_alive_interval: u64,
    /// Maximum idle timeout, in milliseconds
    pub max_idle_timeout: u64,
    /// Enable 0-RTT
    pub enable_0rtt: bool,
}

impl Default for QuicConfig {
    fn default() -> (r: Self)
        ensures
            r.server_name is None,
            r.keep_alive_interval == 30_000,
            r.max_idle_timeout == 300_000,
            r.enable_0rtt,
    {
        QuicConfig { server_name: None, keep_alive_interval: 30_000, max_idle_timeout: 300_000, enable_0rtt: true }
    }
}

/// TURN server configuration.
#[derive(Debug, Clone)]
pub struct TurnServer {
    /// Server URL
    pub url: String,
    /// Username
    pub username: Option<String>,
    /// Credential
    pub credential: Option<String>,
}

/// WebRTC transport configuration.
#[derive(Debug, Clone)]
pub struct WebRtcConfig {
    /// STUN servers
    pub stun_servers: Vec<String>,
    /// TURN servers
    pub turn_servers: Vec<TurnServer>,
    /// Enable unreliable channels
    pub enable_unreliable: bool,
}

impl Default for WebRtcConfig {
    fn default() -> (r: Self)
        ensures
            r.stun_servers@.len() == 1,
            r.stun_servers@[0]@ == "stun:stun.l.google.com:19302"@,
            r.turn_servers@.len() == 0,
            r.enable_unreliable,
    {
        let mut stun_servers = Vec::new();
        stun_servers.push(String::from_str("stun:stun.l.google.com:19302"));
        WebRtcConfig { stun_servers, turn_servers: Vec::new(), enable_unreliable: true }
    }
}

/// libp2p transport configuration.
#[derive(Debug, Clone)]
pub struct Libp2pConfig {
    /// Enable Kademlia DHT
    pub enable_kad: bool,
    /// Enable mDNS discovery
    pub enable_mdns: bool,
    /// Bootstrap nodes
    pub bootstrap_nodes: Vec<String>,
}

impl Default for Libp2pConfig {
    fn default() -> (r: Self)
        ensures
            r.enable_kad,
            r.enable_mdns,
            r.bootstrap_nodes@.len() == 0,
    {
        Libp2pConfig { enable_kad: true, enable_mdns: true, bootstrap_nodes: Vec::new() }
    }
}

/// Transport layer configuration.
#[derive(Debug, Clone)]
pub struct TransportConfig {
    /// Default transport type to use
    pub default_transport: TransportType,
    /// Enable QUIC transport
    pub enable_quic: bool,
    /// Enable WebRTC transport
    pub enable_webrtc: bool,
    /// Enable libp2p transport
    pub enable_libp2p: bool,
    /// QUIC-specific configuration
    pub quic: QuicConfig,
    /// WebRTC-specific configuration
    pub webrtc: WebRtcConfig,
    /// libp2p-specific configuration
    pub libp2p: Libp2pConfig,
    /// Connection timeout, in milliseconds
    pub connection_timeout: u64,
    /// Maximum concurrent connections
    pub max_connections: usize,
    /// Transport selection strategy
    pub selection_strategy: SelectionStrategy,
    /// Whether to prefer anonymous transports
    pub prefer_anonymity: bool,
    /// Whether to require post-quantum security
    pub require_post_quantum: bool,
}

impl Default for TransportConfig {
    fn default() -> (r: Self)
        ensures
            r.default_transport == TransportType::Quic,
            r.enable_quic && r.enable_webrtc && r.enable_libp2p,
            r.quic.server_name is None && r.quic.keep_alive_interval == 30_000,
            r.quic.max_idle_timeout == 300_000 && r.quic.enable_0rtt,
            r.webrtc.stun_servers@.len() == 1,
            r.webrtc.stun_servers@[0]@ == "stun:stun.l.google.com:19302"@,
            r.webrtc.turn_servers@.len() == 0 && r.webrtc.enable_unreliable,
            r.libp2p.enable_kad && r.libp2p.enable_mdns && r.libp2p.bootstrap_nodes@.len() == 0,
            r.connection_timeout == 30_000,
            r.max_connections == 1000,
            r.selection_strategy == SelectionStrategy::BestMatch,
            !r.prefer_anonymity,
            !r.require_post_quantum,
    {
        TransportConfig {
            default_transport: TransportType::Quic,
            enable_quic: true,
            enable_webrtc: true,
            enable_libp2p: true,
            quic: QuicConfig::default(),
            webrtc: WebRtcConfig::default(),
            libp2p: Libp2pConfig::default(),
            connection_timeout: 30_000,
            max_connections: 1000,
            selection_strategy: SelectionStrategy::BestMatch,
            prefer_anonymity: false,
            require_post_quantum: false,
        }
    }
}

/// Security configuration.
#[derive(Debug, Clone)]
pub struct SecurityConfig {
    /// Noise protocol patterns to support
    pub noise_patterns: Vec<String>,
    /// Enable post-quantum cryptography
    pub enable_post_quantum: bool,
    /// Certificate path for TLS
    pub cert_path: Option<String>,
    /// Key path for TLS
    pub key_path: Option<String>,
}

impl Default for SecurityConfig {
    fn default() -> (r: Self)
        ensures
            r.noise_patterns@.len() == 1,
            r.noise_patterns@[0]@ == "Noise_XX_25519_ChaChaPoly_BLAKE2s"@,
            r.enable_post_quantum,
            r.cert_path is None,
            r.key_path is None,
    {
        let mut noise_patterns = Vec::new();
        noise_patterns.push(String::from_str("Noise_XX_25519_ChaChaPoly_BLAKE2s"));
        SecurityConfig { noise_patterns, enable_post_quantum: true, cert_path: None, key_path: None }
    }
}

/// Anonymization levels.
#[derive(Debug, Clone, Copy, PartialEq, Eq, Structural)]
pub enum AnonymizationLevel {
    /// No anonymization
    Disabled,
    /// Standard anonymization
    Standard,
    /// High anonymization
    High,
    /// Maximum anonymization
    Maximum,
}

} // verus!
