use vstd::prelude::*;

pub mod text;
pub mod tui;
pub mod audit_gate;
pub mod bun;
pub mod dashboard;
pub mod estate;
pub mod dev;
pub mod kimi;
pub mod json;
pub mod paths;
pub mod order;
pub mod pattern;

verus! {
} // verus!
