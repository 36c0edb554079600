//! Monitoring: status views, narrative templates and event narration.

pub mod views;
pub mod messages;
pub mod templates;
pub mod narrator;
pub mod aggregator;
pub mod patterns;
pub mod storage;
