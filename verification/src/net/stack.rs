//! The network stack's own health: whether it is initialized and whether
//! it has connections, each checked, and the overall level they give.

use vstd::prelude::*;
use crate::text::{append_decimal, decimal_chars};

verus! {

/// Health levels, from best to worst.
#[derive(Debug, Clone, Copy, PartialEq, Eq, Structural)]
pub enum StackHealthLevel {
    Healthy,
    Warning,
    Critical,
}

/// One health check: its level and what it found.
#[derive(Debug)]
pub struct StackHealthCheck {
    pub level: StackHealthLevel,
    pub message: String,
}

/// The stack's health: the initialization check, the connection check and
/// the overall level.
#[derive(Debug)]
pub struct StackHealth {
    pub initialization: StackHealthCheck,
    pub connections: StackHealthCheck,
    pub overall: StackHealthLevel,
}

/// The worse of the checks decides: critical if any is critical, else a
/// warning if any warns, else healthy.
pub open spec fn overall_level(a: StackHealthLevel, b: StackHealthLevel) -> StackHealthLevel {
    if a == StackHealthLevel::Critical || b == StackHealthLevel::Critical {
        StackHealthLevel::Critical
    } else if a == StackHealthLevel::Warning || b == StackHealthLevel::Warning {
        StackHealthLevel::Warning
    } else {
        StackHealthLevel::Healthy
    }
}

/// The network stack's state.
#[derive(Debug, Clone, Copy)]
pub struct NetworkState {
    pub is_initialized: bool,
    pub active_connections: usize,
}

impl NetworkState {
    /// The stack's health: an uninitialized stack is critical; a stack
    /// without active connections warns; overall, the worse check decides.
    pub fn health(&self) -> (r: StackHealth)
        ensures
            r.initialization.level == if self.is_initialized {
                StackHealthLevel::Healthy
            } else {
                StackHealthLevel::Critical
            },
            r.initialization.message@ == if self.is_initialized {
                "Network stack is initialized"@
            } else {
                "Network stack not initialized"@
            },
            r.connections.level == if self.active_connections > 0 {
                StackHealthLevel::Healthy
            } else {
                StackHealthLevel::Warning
            },
            r.connections.message@ == if self.active_connections > 0 {
                "Active connections: "@ + decimal_chars(self.active_connections as nat)
            } else {
                "No active connections"@
            },
            r.overall == overall_level(r.initialization.level, r.connections.level),
    {
        proof {
            reveal_strlit("Network stack is initialized");
            reveal_strlit("Network stack not initialized");
            reveal_strlit("Active connections: ");
            reveal_strlit("No active connections");
        }
        let initialization = if self.is_initialized {
            StackHealthCheck { level: StackHealthLevel::Healthy, message: String::from_str("Network stack is initialized") }
        } else {
            StackHealthCheck { level: StackHealthLevel::Critical, message: String::from_str("Network stack not initialized") }
        };
        let connections = if self.active_connections > 0 {
            let mut message = String::from_str("Active connections: ");
            append_decimal(&mut message, self.active_connections);
            StackHealthCheck { level: StackHealthLevel::Healthy, message }
        } else {
            StackHealthCheck { level: StackHealthLevel::Warning, message: String::from_str("No active connections") }
        };
        let overall = if initialization.level == StackHealthLevel::Critical || connections.level
            == StackHealthLevel::Critical {
            StackHealthLevel::Critical
        } else if initialization.level == StackHealthLevel::Warning || connections.level == StackHealthLevel::Warning {
            StackHealthLevel::Warning
        } else {
            StackHealthLevel::Healthy
        };
        StackHealth { initialization, connections, overall }
    }
}

} // verus!
