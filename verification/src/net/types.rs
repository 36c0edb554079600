//! Identifiers shared across the network stack.

use vstd::prelude::*;

verus! {

/// The transports the network stack can use.
#[derive(Debug, Clone, Copy, PartialEq, Eq, Structural)]
pub enum TransportType {
    Quic,
    WebRtc,
    Libp2p,
    Tcp,
    Udp,
    WebSocket,
}

/// A peer's identifier: a 128-bit random value.
#[derive(Debug, Clone, Copy, PartialEq, Eq, Hash, Structural)]
pub struct PeerId(pub u128);

impl PeerId {
    /// A fresh random identifier.
    pub fn new() -> (r: Self) {
        PeerId(crate::platform::fresh_uuid_value())
    }
}

} // verus!
