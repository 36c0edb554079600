//! Byzantine fault tolerant consensus, secure networking and monitoring
//! building blocks, with their behaviour stated in contracts.

pub mod platform;
pub mod assoc;
pub mod text;
pub mod consensus;
pub mod monitor;
pub mod net;
