//! Privacy features: levels, traffic obfuscation methods, onion routing and
//! Tor bookkeeping. Durations are milliseconds, times milliseconds since
//! the Unix epoch.

use vstd::prelude::*;

verus! {

/// Privacy level enumeration.
#[derive(Debug, Clone, Copy, PartialEq, Eq, Structural)]
pub enum PrivacyLevel {
    /// No privacy features enabled
    Disabled,
    /// Basic privacy features
    Low,
    /// Moderate privacy features
    Medium,
    /// High privacy features
    High,
    /// Maximum privacy features
    Maximum,
}

/// Obfuscation methods available.
#[derive(Debug, Clone, Copy, PartialEq, Eq, Structural)]
pub enum ObfuscationMethod {
    /// No obfuscation
    Disabled,
    /// Traffic padding
    Padding,
    /// Traffic shaping
    Shaping,
    /// Dummy traffic injection
    DummyTraffic,
    /// Packet size normalization
    SizeNormalization,
    /// Timing obfuscation
    TimingObfuscation,
}

/// Padding distribution types.
#[derive(Debug, Clone, Copy, PartialEq, Eq, Structural)]
pub enum PaddingDistribution {
    /// Uniform distribution
    Uniform,
    /// Exponential distribution
    Exponential,
    /// Normal distribution
    Normal,
    /// Custom distribution
    Custom,
}

/// Onion routing configuration.
#[derive(Debug, Clone, Copy)]
pub struct OnionConfig {
    /// Number of hops in the circuit
    pub circuit_length: usize,
    /// Circuit creation timeout, in milliseconds
    pub circuit_timeout: u64,
    /// Circuit refresh interval, in milliseconds
    pub refresh_interval: u64,
    /// Maximum circuits to maintain
    pub max_circuits: usize,
}

impl Default for OnionConfig {
    fn default() -> (r: Self)
        ensures
            r.circuit_length == 3,
            r.circuit_timeout == 30_000,
            r.refresh_interval == 600_000,
            r.max_circuits == 10,
    {
        OnionConfig { circuit_length: 3, circuit_timeout: 30_000, refresh_interval: 600_000, max_circuits: 10 }
    }
}

/// Node in an onion circuit.
#[derive(Debug, Clone)]
pub struct OnionNode {
    /// Node peer ID
    pub peer_id: crate::net::types::PeerId,
    /// Public key for this node
    pub public_key: Vec<u8>,
    /// Position in the circuit (0 = entry, last = exit)
    pub position: usize,
}

/// Circuit state.
#[derive(Debug, Clone, PartialEq, Eq, Structural)]
pub enum CircuitState {
    /// Circuit is being built
    Building,
    /// Circuit is ready for use
    Ready,
    /// Circuit is being torn down
    TearingDown,
    /// Circuit has failed
    Failed,
}

/// Onion routing statistics.
#[derive(Debug, Clone, Copy, PartialEq, Eq, Structural)]
pub struct OnionStats {
    /// Number of circuits created
    pub circuits_created: u64,
    /// Number of circuits torn down
    pub circuits_torn_down: u64,
    /// Number of packets sent
    pub packets_sent: u64,
    /// Number of packets received
    pub packets_received: u64,
    /// Number of failed circuit attempts
    pub failed_circuits: u64,
}

impl OnionStats {
    /// All counters at zero.
    pub open spec fn default_spec() -> OnionStats {
        OnionStats { circuits_created: 0, circuits_torn_down: 0, packets_sent: 0, packets_received: 0, failed_circuits: 0 }
    }
}

impl Default for OnionStats {
    fn default() -> (r: Self)
        ensures
            r == OnionStats::default_spec(),
    {
        OnionStats { circuits_created: 0, circuits_torn_down: 0, packets_sent: 0, packets_received: 0, failed_circuits: 0 }
    }
}

/// Hidden service state.
#[derive(Debug, Clone, Copy, PartialEq, Eq, Structural)]
pub enum HiddenServiceState {
    /// Service is starting up
    Starting,
    /// Service is running
    Running,
    /// Service is stopping
    Stopping,
    /// Service has failed
    Failed,
}

/// Tor statistics.
#[derive(Debug, Clone, Copy, PartialEq, Eq, Structural)]
pub struct TorStats {
    /// Number of connections made through Tor
    pub connections_made: u64,
    /// Number of hidden services created
    pub hidden_services_created: u64,
    /// Number of failed connection attempts
    pub failed_connections: u64,
    /// Total bytes sent through Tor
    pub bytes_sent: u64,
    /// Total bytes received through Tor
    pub bytes_received: u64,
}

impl TorStats {
    /// All counts zero.
    pub open spec fn default_spec() -> TorStats {
        TorStats { connections_made: 0, hidden_services_created: 0, failed_connections: 0, bytes_sent: 0, bytes_received: 0 }
    }
}

impl Default for TorStats {
    fn default() -> (r: Self)
        ensures
            r == TorStats::default_spec(),
    {
        TorStats { connections_made: 0, hidden_services_created: 0, failed_connections: 0, bytes_sent: 0, bytes_received: 0 }
    }
}

/// A connection through Tor.
#[derive(Debug)]
pub struct TorConnection {
    /// Target address
    pub target: String,
    /// When the connection was established
    pub connected_at: i64,
    /// Bytes sent through this connection
    pub bytes_sent: u64,
    /// Bytes received through this connection
    pub bytes_received: u64,
}

impl TorConnection {
    /// Counts the data as sent.
    pub fn send(&mut self, data: &[u8]) -> (r: Result<(), crate::net::error::NetworkError>)
        requires
            old(self).bytes_sent + data@.len() <= u64::MAX,
        ensures
            r is Ok,
            final(self).bytes_sent == old(self).bytes_sent + data@.len(),
            final(self).bytes_received == old(self).bytes_received,
            final(self).target@ == old(self).target@,
            final(self).connected_at == old(self).connected_at,
    {
        self.bytes_sent = self.bytes_sent + data.len() as u64;
        Ok(())
    }

    /// Reads nothing: no bytes arrive on this connection.
    pub fn receive(&mut self, _buffer: &mut [u8]) -> (r: Result<usize, crate::net::error::NetworkError>)
        ensures
            r matches Ok(n) && n == 0,
            final(self).bytes_sent == old(self).bytes_sent,
            final(self).bytes_received == old(self).bytes_received,
            final(self).target@ == old(self).target@,
            final(self).connected_at == old(self).connected_at,
    {
        Ok(0)
    }
}

} // verus!
