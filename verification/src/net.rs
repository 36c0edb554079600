//! Secure networking: errors, configuration, compression, cryptography,
//! privacy and observability.

pub mod error;
pub mod config;
pub mod compression;
pub mod dictionary;
pub mod crypto;
pub mod types;
pub mod observability;
pub mod privacy;
pub mod onion;
pub mod obfuscation;
pub mod mix;
pub mod tor;
pub mod security;
pub mod optimized;
pub mod stack;
