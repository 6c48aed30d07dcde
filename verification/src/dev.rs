//! The task-capsule contract: its status vocabularies, the validators of its
//! records, and the decisions of the pull-request agent.
pub mod agent;
pub mod capsule;
pub mod checks;
pub mod digest;
pub mod files;
pub mod gh;
pub mod identity;
pub mod init;
pub mod json;
pub mod kinds;
pub mod numbers;
pub mod plan;
pub mod record;
pub mod pr;
pub mod render;
pub mod ledger;
pub mod subagents;
pub mod tasks;
pub mod summary;
pub mod time;
pub mod validation;
