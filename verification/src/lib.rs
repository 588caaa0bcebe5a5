//! Agent Cockpit: a watchdog for development workspaces.
//!
//! The library holds everything that the service decides or computes: which processes count as
//! lock holders, what a termination request comes to, which tasks are starved, and which reply a
//! JSON-RPC request gets. Process tables, decoded requests and rendered results come in as plain
//! values.

pub mod cpu;
pub mod engine;
pub mod error;
pub mod json;
pub mod lock_laws;
pub mod locks;
pub mod process;
pub mod record_laws;
pub mod rpc;
pub mod rpc_laws;
pub mod task_laws;
pub mod telemetry;
pub mod telemetry_laws;
pub mod text;
pub mod text_laws;
