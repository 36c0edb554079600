//! HotStuff-style consensus: core types, configuration, leader election,
//! vote collection and the safety/commit rules of the protocol.

pub mod types;
pub mod error;
pub mod config;
pub mod leader;
pub mod voting;
pub mod hotstuff;
pub mod optimized;
pub mod protocol;
