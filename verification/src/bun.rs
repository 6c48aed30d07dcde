//! The Bun platform auditor's library: its data model, the renderings of its
//! results, and the decisions behind its checks.
pub mod adapters;
pub mod audit;
pub mod config;
pub mod context;
pub mod fingerprint;
pub mod detect;
pub mod fixes;
pub mod json;
pub mod normalize;
pub mod output;
pub mod release_sync;
pub mod state;
pub mod types;
